//! Plain values standing for what the attribute macro reads of the enumeration it
//! is applied to: its name, its variants and their attributes.
use vstd::prelude::*;

verus! {

/// Width class of a primitive integer type.
#[derive(Clone, Copy, Debug, PartialEq, Eq, Structural)]
pub enum Width {
    W8,
    W16,
    W32,
    W64,
    W128,
    Size,
}

/// A primitive integer type: `i8` to `i128`, `isize`, `u8` to `u128`, `usize`.
#[derive(Clone, Copy, Debug, PartialEq, Eq, Structural)]
pub struct IntType {
    pub signed: bool,
    pub width: Width,
}

/// The byte size of a width, `None` for the pointer-sized types.
pub open spec fn width_bytes(w: Width) -> Option<usize> {
    match w {
        Width::W8 => Some(1usize),
        Width::W16 => Some(2usize),
        Width::W32 => Some(4usize),
        Width::W64 => Some(8usize),
        Width::W128 => Some(16usize),
        Width::Size => None,
    }
}

impl Width {
    /// The byte size of this width (`size_of` of its integer types), `None` for
    /// the pointer-sized types.
    pub fn bytes(self) -> (r: Option<usize>)
        ensures
            r == width_bytes(self),
    {
        match self {
            Width::W8 => Some(1),
            Width::W16 => Some(2),
            Width::W32 => Some(4),
            Width::W64 => Some(8),
            Width::W128 => Some(16),
            Width::Size => None,
        }
    }
}

/// The digits (or `size`) that follow `i` or `u` in an integer type's name.
pub open spec fn width_suffix(w: Width) -> Seq<char> {
    match w {
        Width::W8 => seq!['8'],
        Width::W16 => seq!['1', '6'],
        Width::W32 => seq!['3', '2'],
        Width::W64 => seq!['6', '4'],
        Width::W128 => seq!['1', '2', '8'],
        Width::Size => seq!['s', 'i', 'z', 'e'],
    }
}

/// The name of an integer type, such as `u16` or `isize`.
pub open spec fn int_type_name(t: IntType) -> Seq<char> {
    seq![if t.signed { 'i' } else { 'u' }] + width_suffix(t.width)
}

/// The width whose suffix is the given text, if any.
pub open spec fn suffix_width(s: Seq<char>) -> Option<Width> {
    if s.len() == 1 && s[0] == '8' {
        Some(Width::W8)
    } else if s.len() == 2 && s[0] == '1' && s[1] == '6' {
        Some(Width::W16)
    } else if s.len() == 2 && s[0] == '3' && s[1] == '2' {
        Some(Width::W32)
    } else if s.len() == 2 && s[0] == '6' && s[1] == '4' {
        Some(Width::W64)
    } else if s.len() == 3 && s[0] == '1' && s[1] == '2' && s[2] == '8' {
        Some(Width::W128)
    } else if s.len() == 4 && s[0] == 's' && s[1] == 'i' && s[2] == 'z' && s[3] == 'e' {
        Some(Width::Size)
    } else {
        None
    }
}

/// The integer type a name denotes, if it is one of the twelve names.
pub open spec fn name_int_type(s: Seq<char>) -> Option<IntType> {
    if s.len() >= 1 && (s[0] == 'i' || s[0] == 'u') {
        match suffix_width(s.skip(1)) {
            Some(w) => Some(IntType { signed: s[0] == 'i', width: w }),
            None => None,
        }
    } else {
        None
    }
}

/// A string literal: its value, and whether a suffix follows its closing quote.
#[derive(Debug)]
pub struct StrLit {
    pub value: String,
    pub has_suffix: bool,
}

/// One comma-separated item inside an attribute's brackets.
/// `ident` is the item's path when that path is a single plain identifier.
#[derive(Debug)]
pub enum MetaItem {
    /// `name` or `a::b::name`; `last` is the identifier of the path's last
    /// segment.
    Path { ident: Option<String>, last: String },
    /// `name(...)`
    List { ident: Option<String> },
    /// `name = value`; `text` is the value when it is a string literal.
    NameValue { ident: Option<String>, text: Option<StrLit> },
}

/// The bracket kind of a list attribute.
#[derive(Clone, Copy, Debug, PartialEq, Eq, Structural)]
pub enum Delimiter {
    Paren,
    Brace,
    Bracket,
}

/// What follows an attribute's path.
#[derive(Debug)]
pub enum AttrBody {
    /// `#[name]`
    Path,
    /// `#[name(...)]`; `args` holds the items when the contents parse as a
    /// comma-separated list of items, `None` when they do not.
    List { delimiter: Delimiter, args: Option<Vec<MetaItem>> },
    /// `#[name = value]`
    NameValue,
}

/// An attribute: outer (`#[..]`) or inner (`#![..]`), its path when a single
/// identifier, and its body.
#[derive(Debug)]
pub struct Attr {
    pub outer: bool,
    pub ident: Option<String>,
    pub body: AttrBody,
}

/// A variant of the enumeration the macro is applied to.
#[derive(Debug)]
pub struct VariantInput {
    pub name: String,
    pub has_fields: bool,
    pub has_discriminant: bool,
    pub attrs: Vec<Attr>,
}

/// The enumeration the macro is applied to.
#[derive(Debug)]
pub struct EnumInput {
    pub name: String,
    pub attrs: Vec<Attr>,
    pub variants: Vec<VariantInput>,
}

/// Whether an optional identifier is present and equal to `s`.
pub open spec fn ident_is(ident: Option<String>, s: Seq<char>) -> bool {
    match ident {
        Some(i) => i@ == s,
        None => false,
    }
}

/// An input on which the macro expansion stops with a panic.
#[derive(Debug)]
pub enum PanicCause {
    /// A `repr` of a 128-bit integer type.
    UnsupportedRepr(IntType),
    /// A case convention name that is not one of the eight known ones.
    UnknownFormat(String),
    /// `camelCase` applied to a name whose first character is not a single byte
    /// (or to an empty name).
    FirstCharNotSliceable(String),
}

/// The abstract value of a `PanicCause`.
pub enum PanicView {
    UnsupportedRepr(IntType),
    UnknownFormat(Seq<char>),
    FirstCharNotSliceable(Seq<char>),
}

impl View for PanicCause {
    type V = PanicView;

    open spec fn view(&self) -> PanicView {
        match self {
            PanicCause::UnsupportedRepr(t) => PanicView::UnsupportedRepr(*t),
            PanicCause::UnknownFormat(s) => PanicView::UnknownFormat(s@),
            PanicCause::FirstCharNotSliceable(s) => PanicView::FirstCharNotSliceable(s@),
        }
    }
}

/// Copies an optional identifier.
pub fn copy_ident(ident: &Option<String>) -> (r: Option<String>)
    ensures
        r == *ident,
{
    match ident {
        Some(s) => Some(s.clone()),
        None => None,
    }
}

impl StrLit {
    /// A copy of the literal.
    pub fn duplicate(&self) -> (r: StrLit)
        ensures
            r == *self,
    {
        StrLit { value: self.value.clone(), has_suffix: self.has_suffix }
    }
}

impl MetaItem {
    /// A copy of the item.
    pub fn duplicate(&self) -> (r: MetaItem)
        ensures
            r == *self,
    {
        match self {
            MetaItem::Path { ident, last } => MetaItem::Path {
                ident: copy_ident(ident),
                last: last.clone(),
            },
            MetaItem::List { ident } => MetaItem::List { ident: copy_ident(ident) },
            MetaItem::NameValue { ident, text } => MetaItem::NameValue {
                ident: copy_ident(ident),
                text: match text {
                    Some(t) => Some(t.duplicate()),
                    None => None,
                },
            },
        }
    }
}

impl IntType {
    /// The type's name, such as `u16` or `isize`.
    pub fn name(self) -> (r: &'static str)
        ensures
            r@ == int_type_name(self),
    {
        proof {
            reveal_strlit("i8");
            reveal_strlit("i16");
            reveal_strlit("i32");
            reveal_strlit("i64");
            reveal_strlit("i128");
            reveal_strlit("isize");
            reveal_strlit("u8");
            reveal_strlit("u16");
            reveal_strlit("u32");
            reveal_strlit("u64");
            reveal_strlit("u128");
            reveal_strlit("usize");
        }
        let r = match (self.signed, self.width) {
            (true, Width::W8) => "i8",
            (true, Width::W16) => "i16",
            (true, Width::W32) => "i32",
            (true, Width::W64) => "i64",
            (true, Width::W128) => "i128",
            (true, Width::Size) => "isize",
            (false, Width::W8) => "u8",
            (false, Width::W16) => "u16",
            (false, Width::W32) => "u32",
            (false, Width::W64) => "u64",
            (false, Width::W128) => "u128",
            (false, Width::Size) => "usize",
        };
        assert(r@ =~= int_type_name(self));
        r
    }
}

} // verus!

verus! {

/// Reading back the name of an integer type gives that type.
pub proof fn lemma_int_type_name_round_trip(t: IntType)
    ensures
        name_int_type(int_type_name(t)) == Some(t),
{
    let s = int_type_name(t);
    assert(s.skip(1) =~= width_suffix(t.width));
    assert(s[0] == if t.signed { 'i' } else { 'u' });
}

} // verus!
