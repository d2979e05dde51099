use ffi_enum::{Error, FfiEnum, FfiEnumExt};

#[derive(Debug, Clone, Copy, PartialEq, Eq)]
enum Origin {
    Cat,
    Dog,
}

#[derive(Debug, Clone, Copy, PartialEq, Eq)]
struct Animal {
    repr: u8,
}

impl Animal {
    const CAT: Animal = Animal { repr: 0 };
    const DOG: Animal = Animal { repr: 1 };
}

impl TryFrom<Animal> for Origin {
    type Error = Error;
    fn try_from(e: Animal) -> Result<Self, Error> {
        match e {
            Animal::CAT => Ok(Origin::Cat),
            Animal::DOG => Ok(Origin::Dog),
            _ => Err(Error::UnknownVariant),
        }
    }
}

impl From<Origin> for Animal {
    fn from(e: Origin) -> Self {
        match e {
            Origin::Cat => Animal::CAT,
            Origin::Dog => Animal::DOG,
        }
    }
}

impl From<Animal> for u8 {
    fn from(e: Animal) -> u8 {
        e.repr
    }
}

impl From<u8> for Animal {
    fn from(repr: u8) -> Animal {
        Animal { repr }
    }
}

impl FfiEnum for Animal {
    type Enum = Origin;
    type Repr = u8;
    const UNKNOWN: Self = Animal { repr: 2 };
}

#[test]
fn known_and_unknown_values() {
    assert!(Animal::CAT.is_known());
    assert!(Animal::from(1u8).is_known());
    assert!(!Animal::UNKNOWN.is_known());
    assert!(!Animal::from(100u8).is_known());
    assert_eq!(Animal::from(100u8).repr(), 100);
    assert_eq!(Animal::DOG.into_enum(), Origin::Dog);
    assert_eq!(Animal::from(Origin::Cat), Animal::CAT);
}

#[test]
fn error_message() {
    assert_eq!(Error::UnknownVariant.message(), "value of ffi_enum type is an unknown variant");
}

#[test]
fn out_of_range_integers_are_unknown_variants() {
    let e = u8::try_from(300u16).unwrap_err();
    assert_eq!(Error::from(e), Error::UnknownVariant);
}
