//! Re-exports of commonly used traits and types.
pub use crate::runtime::{FfiEnum as _, FfiEnumExt as _};
