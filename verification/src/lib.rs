//! Enumerations that can cross an FFI boundary safely: every bit pattern of the
//! representation integer is a valid value, and the known variants are named
//! constants of it.

pub mod model;
pub mod text;
pub mod attrs;
pub mod repr;
pub mod rename;
pub mod serde_attrs;
pub mod expand;
pub mod runtime;
pub mod prelude;

pub use repr::infallible;
pub use runtime::{Error, FfiEnum, FfiEnumExt};
