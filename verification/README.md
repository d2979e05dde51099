# ffi_enum

Enumerations that can cross an FFI boundary safely. The `ffi_enum` attribute
turns an `enum` into a `#[repr(transparent)]` struct over an integer, so that
every bit pattern is a valid value, with the known variants as constants and
conversions to and from the original `enum` and every integer type.

- `src/` is the verified library: the `FfiEnum` traits and `Error`, and every
  decision the attribute makes, taken on plain values (`model.rs`): reading
  attributes (`attrs.rs`), choosing the representation and which integer
  conversions are infallible (`repr.rs`), serde's case conventions
  (`rename.rs`), the serde attributes (`serde_attrs.rs`) and the whole expansion
  plan (`expand.rs`).
- `app/` reads the enumeration with `syn` into those values and writes the
  generated code with `quote` from the plan.
