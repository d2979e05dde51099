//! The traits that every generated type implements, and the error of its
//! fallible conversions.
use vstd::prelude::*;
use vstd::std_specs::convert::{FromSpec, TryFromSpec};

verus! {

/// Error type which `ffi_enum` generated operations may return.
#[derive(Clone, Copy, Debug, PartialEq, Eq, Structural, Hash, PartialOrd, Ord)]
pub enum Error {
    /// A generated type accepts any bit pattern of its representation as a
    /// value, so operations that need a known variant fail on the others.
    UnknownVariant,
}

impl Error {
    /// The message this error displays.
    pub fn message(&self) -> (r: &'static str)
        ensures
            r@ == "value of ffi_enum type is an unknown variant"@,
    {
        match self {
            Error::UnknownVariant => "value of ffi_enum type is an unknown variant",
        }
    }
}

/// An integer that does not fit the target type of a generated conversion is
/// reported as an unknown variant.
impl core::convert::From<core::num::TryFromIntError> for Error {
    fn from(e: core::num::TryFromIntError) -> (r: Error) {
        Error::UnknownVariant
    }
}

impl vstd::std_specs::convert::FromSpecImpl<core::num::TryFromIntError> for Error {
    open spec fn obeys_from_spec() -> bool {
        true
    }

    open spec fn from_spec(v: core::num::TryFromIntError) -> Error {
        Error::UnknownVariant
    }
}

/// Types generated by `ffi_enum` implement this trait, which gives their
/// essential types and constants.
pub trait FfiEnum: Copy + Eq + Sized {
    /// The rusty `enum` type of the `ffi_enum` type.
    type Enum: core::convert::TryFrom<Self, Error = Error> + core::convert::Into<Self>;

    /// The representation type of the `ffi_enum` type.
    type Repr: Copy + core::convert::From<Self> + core::convert::Into<Self>;

    /// A sample of an unknown value.
    ///
    /// A generated type accepts any value of its representation type, so a
    /// value that differs from `UNKNOWN` is not thereby known.
    const UNKNOWN: Self;
}

/// Whether a value is one of the known variants, by the conversion into the
/// enumeration it was generated from.
pub open spec fn known<T: FfiEnum>(v: T) -> bool {
    <T::Enum as TryFromSpec<T>>::try_from_spec(v) is Ok
}

/// Whether the conversion into the enumeration it was generated from behaves as its
/// specification says.
pub open spec fn conversion_specified<T: FfiEnum>() -> bool {
    <T::Enum as TryFromSpec<T>>::obeys_try_from_spec()
}

/// Convenient operations on `FfiEnum` types.
pub trait FfiEnumExt: FfiEnum {
    /// Indicates whether the value is known.
    fn is_known(self) -> (r: bool)
        ensures
            conversion_specified::<Self>() ==> r == known(self),
    ;

    /// Gets the integer representation of the value.
    fn repr(self) -> (r: Self::Repr)
        ensures
            <Self::Repr as FromSpec<Self>>::obeys_from_spec() ==> r == <Self::Repr as FromSpec<
                Self,
            >>::from_spec(self),
    ;

    /// Gets the rust enum of a known value.
    fn into_enum(self) -> (r: Self::Enum)
        requires
            conversion_specified::<Self>(),
            known(self),
        ensures
            <Self::Enum as TryFromSpec<Self>>::try_from_spec(self) == Ok::<Self::Enum, Error>(r),
    ;
}

impl<T: FfiEnum> FfiEnumExt for T {
    fn is_known(self) -> (r: bool) {
        <T::Enum as core::convert::TryFrom<T>>::try_from(self).is_ok()
    }

    fn repr(self) -> (r: T::Repr) {
        <T::Repr as core::convert::From<T>>::from(self)
    }

    fn into_enum(self) -> (r: T::Enum) {
        <T::Enum as core::convert::TryFrom<T>>::try_from(self).unwrap()
    }
}

} // verus!
