//! What the `ffi_enum` attribute generates for an enumeration, decided from
//! plain values: the representation type, which integer conversions are
//! infallible, which trait impls are delegated to the source enumeration, and
//! the serde names of each variant.
use vstd::prelude::*;
use crate::model::{Attr, EnumInput, MetaItem, PanicCause, PanicView, VariantInput, Width, width_bytes};
use crate::attrs::{extract_meta_from_lists, meta_from_lists};
use crate::repr::{
    infallible, lemma_chosen_size_matches_type, lemma_infallible_reflexive, repr_step,
    spec_infallible, spec_repr_step, ReprChoice, ReprStep,
};
use crate::serde_attrs::{
    deserialize_names, locate_serde, spec_deserialize_names, spec_locate_serde,
};
use crate::text::text_eq;

verus! {

/// A trait whose impl for the generated type is written by delegating to the
/// enumeration it was generated from.
#[derive(Clone, Copy, Debug, PartialEq, Eq, Structural)]
pub enum Delegation {
    Debug,
    Display,
    /// `Error`, which brings `Display` with it.
    Error,
    Hash,
    FromStr,
    Serialize,
    Deserialize,
}

/// The delegation a `derive` item asks for, if it is a path whose last
/// segment names a supported trait (`Serialize`, `serde::Serialize`, ...).
pub open spec fn spec_delegate(m: MetaItem) -> Option<Delegation> {
    match m {
        MetaItem::Path { last: s, .. } => if s@ == "Debug"@ {
            Some(Delegation::Debug)
        } else if s@ == "Display"@ {
            Some(Delegation::Display)
        } else if s@ == "Error"@ {
            Some(Delegation::Error)
        } else if s@ == "Hash"@ {
            Some(Delegation::Hash)
        } else if s@ == "FromStr"@ {
            Some(Delegation::FromStr)
        } else if s@ == "Serialize"@ {
            Some(Delegation::Serialize)
        } else if s@ == "Deserialize"@ {
            Some(Delegation::Deserialize)
        } else {
            None
        },
        _ => None,
    }
}

/// Decides which impl a `derive` item delegates, by the last segment of its
/// path: `Debug`, `Display`, `Error`, `Hash`, `FromStr`, `Serialize` and
/// `Deserialize` are supported (also written as paths such as
/// `core::fmt::Debug` or `serde::Serialize`); any other item delegates nothing.
pub fn delegate(meta: &MetaItem) -> (r: Option<Delegation>)
    ensures
        r == spec_delegate(*meta),
{
    match meta {
        MetaItem::Path { last: s, .. } => {
            let s = s.as_str();
            if text_eq(s, "Debug") {
                Some(Delegation::Debug)
            } else if text_eq(s, "Display") {
                Some(Delegation::Display)
            } else if text_eq(s, "Error") {
                Some(Delegation::Error)
            } else if text_eq(s, "Hash") {
                Some(Delegation::Hash)
            } else if text_eq(s, "FromStr") {
                Some(Delegation::FromStr)
            } else if text_eq(s, "Serialize") {
                Some(Delegation::Serialize)
            } else if text_eq(s, "Deserialize") {
                Some(Delegation::Deserialize)
            } else {
                None
            }
        },
        _ => None,
    }
}

/// The delegations asked for by `derive` items, in order.
pub open spec fn delegations(metas: Seq<MetaItem>) -> Seq<Delegation>
    decreases metas.len(),
{
    if metas.len() == 0 {
        Seq::empty()
    } else {
        let prev = delegations(metas.drop_last());
        match spec_delegate(metas.last()) {
            Some(d) => prev.push(d),
            None => prev,
        }
    }
}

/// The conversions generated between the generated type and one integer
/// width: `From` where `infallible` holds, `TryFrom` otherwise.
#[derive(Clone, Copy, Debug, PartialEq, Eq, Structural)]
pub struct Conversion {
    pub width: Width,
    /// From the generated type into the integer types of this width.
    pub into_int_infallible: bool,
    /// From the integer types of this width into the generated type.
    pub from_int_infallible: bool,
}

/// The name a value that is no known variant is serialized under, and which
/// deserializes to `UNKNOWN`.
pub fn unknown_name() -> (r: &'static str)
    ensures
        r@ == "<Unknown>"@,
{
    "<Unknown>"
}

/// The conversion for one width, given the representation's byte size.
pub open spec fn conversion_for(size: Option<usize>, w: Width) -> Conversion {
    Conversion {
        width: w,
        into_int_infallible: spec_infallible(size, width_bytes(w)),
        from_int_infallible: spec_infallible(width_bytes(w), size),
    }
}

/// The conversions for all twelve integer types, by width: 8, 16, 32, 64, 128
/// bits and pointer-sized.
pub open spec fn conversions(size: Option<usize>) -> Seq<Conversion> {
    seq![
        conversion_for(size, Width::W8),
        conversion_for(size, Width::W16),
        conversion_for(size, Width::W32),
        conversion_for(size, Width::W64),
        conversion_for(size, Width::W128),
        conversion_for(size, Width::Size),
    ]
}

/// Why an enumeration is rejected with a compile error.
#[derive(Clone, Copy, Debug, PartialEq, Eq, Structural)]
pub enum HandleError {
    /// The variant at this index has fields.
    FieldsNotAllowed(usize),
    /// A `repr` attribute names two integer types.
    DuplicateRepr,
}

/// Everything the generated code is made from.
#[derive(Debug)]
pub struct Expansion {
    pub repr: ReprChoice,
    pub conversions: Vec<Conversion>,
    pub delegations: Vec<Delegation>,
    /// The serde crate's path, when `Serialize` or `Deserialize` is delegated.
    pub serde_path: Option<String>,
    /// The names each variant is deserialized from, when `Deserialize` is
    /// delegated.
    pub variant_names: Option<Vec<Vec<String>>>,
}

/// The abstract value of an `Expansion`.
pub struct ExpansionView {
    pub repr: ReprChoice,
    pub conversions: Seq<Conversion>,
    pub delegations: Seq<Delegation>,
    pub serde_path: Option<Seq<char>>,
    pub variant_names: Option<Seq<Seq<Seq<char>>>>,
}

impl View for Expansion {
    type V = ExpansionView;

    open spec fn view(&self) -> ExpansionView {
        ExpansionView {
            repr: self.repr,
            conversions: self.conversions@,
            delegations: self.delegations@,
            serde_path: match self.serde_path {
                Some(s) => Some(s@),
                None => None,
            },
            variant_names: match self.variant_names {
                Some(ns) => Some(ns.deep_view()),
                None => None,
            },
        }
    }
}

/// What the attribute does with an enumeration: expands it, rejects it with a
/// compile error, or panics.
pub enum HandleOutcome {
    Expanded(ExpansionView),
    Rejected(HandleError),
    Panics(PanicView),
}

/// The index of the first variant with fields.
pub open spec fn first_with_fields(vs: Seq<VariantInput>) -> Option<usize>
    decreases vs.len(),
{
    if vs.len() == 0 {
        None
    } else {
        match first_with_fields(vs.drop_last()) {
            Some(i) => Some(i),
            None => if vs.last().has_fields {
                Some((vs.len() - 1) as usize)
            } else {
                None
            },
        }
    }
}

/// What the attribute does with an enumeration. Variants with fields are
/// rejected first, then a duplicate `repr`; a 128-bit `repr` panics. Otherwise
/// the `derive` items choose the delegations; the serde path is found when
/// serde traits are among them, and the variant names are computed (which may
/// panic on a case convention) when `Deserialize` is.
pub open spec fn spec_handle(input: EnumInput) -> HandleOutcome {
    match first_with_fields(input.variants@) {
        Some(i) => HandleOutcome::Rejected(HandleError::FieldsNotAllowed(i)),
        None => match spec_repr_step(input.attrs@, input.variants@) {
            ReprStep::Duplicate => HandleOutcome::Rejected(HandleError::DuplicateRepr),
            ReprStep::Unsupported(t) => HandleOutcome::Panics(PanicView::UnsupportedRepr(t)),
            ReprStep::Chosen(c) => {
                let ds = delegations(meta_from_lists(input.attrs@, "derive"@));
                let serde = if ds.contains(Delegation::Serialize) || ds.contains(
                    Delegation::Deserialize,
                ) {
                    Some(spec_locate_serde(input.attrs@))
                } else {
                    None
                };
                if ds.contains(Delegation::Deserialize) {
                    match spec_deserialize_names(input.attrs@, input.variants@) {
                        Err(p) => HandleOutcome::Panics(p),
                        Ok(ns) => HandleOutcome::Expanded(
                            ExpansionView {
                                repr: c,
                                conversions: conversions(c.size),
                                delegations: ds,
                                serde_path: serde,
                                variant_names: Some(ns),
                            },
                        ),
                    }
                } else {
                    HandleOutcome::Expanded(
                        ExpansionView {
                            repr: c,
                            conversions: conversions(c.size),
                            delegations: ds,
                            serde_path: serde,
                            variant_names: None,
                        },
                    )
                }
            },
        },
    }
}

/// Once found among a prefix, the first variant with fields stays the first.
proof fn lemma_first_with_fields_prefix(vs: Seq<VariantInput>, k: int)
    requires
        0 <= k <= vs.len(),
        first_with_fields(vs.take(k)) is Some,
    ensures
        first_with_fields(vs) == first_with_fields(vs.take(k)),
    decreases vs.len() - k,
{
    if k < vs.len() {
        assert(vs.take(k + 1).drop_last() =~= vs.take(k));
        lemma_first_with_fields_prefix(vs, k + 1);
    } else {
        assert(vs.take(k) =~= vs);
    }
}

/// Finds the first variant with fields.
fn find_first_with_fields(variants: &Vec<VariantInput>) -> (r: Option<usize>)
    ensures
        r == first_with_fields(variants@),
{
    let mut i: usize = 0;
    while i < variants.len()
        invariant
            i <= variants@.len(),
            first_with_fields(variants@.take(i as int)) is None,
        decreases variants@.len() - i,
    {
        assert(variants@.take(i + 1).drop_last() =~= variants@.take(i as int));
        if variants[i].has_fields {
            proof {
                lemma_first_with_fields_prefix(variants@, (i + 1) as int);
            }
            return Some(i);
        }
        i = i + 1;
    }
    assert(variants@.take(variants@.len() as int) =~= variants@);
    None
}

/// The conversions for a representation of the given byte size.
pub fn conversions_for(size: Option<usize>) -> (r: Vec<Conversion>)
    ensures
        r@ == conversions(size),
{
    let widths = [Width::W8, Width::W16, Width::W32, Width::W64, Width::W128, Width::Size];
    let mut out: Vec<Conversion> = Vec::new();
    let mut i: usize = 0;
    while i < 6
        invariant
            i <= 6,
            widths@ == seq![Width::W8, Width::W16, Width::W32, Width::W64, Width::W128, Width::Size],
            out@ == conversions(size).take(i as int),
        decreases 6 - i,
    {
        let w = widths[i];
        let bytes = w.bytes();
        out.push(
            Conversion {
                width: w,
                into_int_infallible: infallible(size, bytes),
                from_int_infallible: infallible(bytes, size),
            },
        );
        assert(conversions(size).take(i + 1) =~= conversions(size).take(i as int).push(
            conversion_for(size, w),
        ));
        i = i + 1;
    }
    assert(conversions(size).take(6) =~= conversions(size));
    out
}

/// What the attribute does with an enumeration, as a value.
pub enum ExpandStep {
    Expanded(Expansion),
    Rejected(HandleError),
    Panics(PanicCause),
}

impl View for ExpandStep {
    type V = HandleOutcome;

    open spec fn view(&self) -> HandleOutcome {
        match self {
            ExpandStep::Expanded(e) => HandleOutcome::Expanded(e@),
            ExpandStep::Rejected(err) => HandleOutcome::Rejected(*err),
            ExpandStep::Panics(p) => HandleOutcome::Panics(p@),
        }
    }
}

/// Works out what the attribute does with an enumeration, reporting a panic
/// as a value.
pub fn expand(input: &EnumInput) -> (r: ExpandStep)
    ensures
        r@ == spec_handle(*input),
{
    if let Some(i) = find_first_with_fields(&input.variants) {
        return ExpandStep::Rejected(HandleError::FieldsNotAllowed(i));
    }
    let c = match repr_step(&input.attrs, &input.variants) {
        ReprStep::Duplicate => {
            return ExpandStep::Rejected(HandleError::DuplicateRepr);
        },
        ReprStep::Unsupported(t) => {
            return ExpandStep::Panics(PanicCause::UnsupportedRepr(t));
        },
        ReprStep::Chosen(c) => c,
    };
    let metas = extract_meta_from_lists(&input.attrs, "derive");
    let mut ds: Vec<Delegation> = Vec::new();
    let mut has_ser = false;
    let mut has_de = false;
    let mut i: usize = 0;
    while i < metas.len()
        invariant
            i <= metas@.len(),
            ds@ == delegations(metas@.take(i as int)),
            has_ser == ds@.contains(Delegation::Serialize),
            has_de == ds@.contains(Delegation::Deserialize),
        decreases metas@.len() - i,
    {
        assert(metas@.take(i + 1).drop_last() =~= metas@.take(i as int));
        if let Some(d) = delegate(&metas[i]) {
            let ghost before = ds@;
            ds.push(d);
            proof {
                assert(ds@[before.len() as int] == d);
                assert forall|x: Delegation| ds@.contains(x) <==> (before.contains(x) || x == d) by {
                    if ds@.contains(x) {
                        let k = choose|k: int| 0 <= k < ds@.len() && ds@[k] == x;
                        if k < before.len() {
                            assert(before[k] == x);
                        }
                    }
                    if before.contains(x) {
                        let k = choose|k: int| 0 <= k < before.len() && before[k] == x;
                        assert(ds@[k] == x);
                    }
                }
            }
            if d == Delegation::Serialize {
                has_ser = true;
            }
            if d == Delegation::Deserialize {
                has_de = true;
            }
        }
        i = i + 1;
    }
    assert(metas@.take(metas@.len() as int) =~= metas@);
    let serde_path = if has_ser || has_de {
        Some(locate_serde(&input.attrs))
    } else {
        None
    };
    let variant_names = if has_de {
        match deserialize_names(&input.attrs, &input.variants) {
            Ok(ns) => Some(ns),
            Err(p) => {
                return ExpandStep::Panics(p);
            },
        }
    } else {
        None
    };
    ExpandStep::Expanded(
        Expansion {
            repr: c,
            conversions: conversions_for(c.size),
            delegations: ds,
            serde_path,
            variant_names,
        },
    )
}

/// The expansion of the `ffi_enum` attribute for an enumeration: an error for
/// a variant with fields or a duplicate `repr`; otherwise the representation,
/// the conversions to and from every integer type, the delegated impls and
/// what the serde impls need. Inputs on which the expansion panics (see
/// `first_panic`) are not accepted.
pub fn handle(input: &EnumInput) -> (r: Result<Expansion, HandleError>)
    requires
        !(spec_handle(*input) is Panics),
    ensures
        match spec_handle(*input) {
            HandleOutcome::Expanded(e) => r is Ok && r->Ok_0@ == e,
            HandleOutcome::Rejected(err) => r == Err::<Expansion, HandleError>(err),
            HandleOutcome::Panics(_) => false,
        },
{
    match expand(input) {
        ExpandStep::Expanded(e) => Ok(e),
        ExpandStep::Rejected(err) => Err(err),
        ExpandStep::Panics(_) => {
            proof {
                assert(false);
            }
            Err(HandleError::DuplicateRepr)
        },
    }
}

/// Why the expansion of an enumeration panics, if it does: a 128-bit `repr`,
/// or, when `Deserialize` is delegated, an unknown case convention or
/// `camelCase` of a name that does not start with a one-byte character.
pub fn first_panic(input: &EnumInput) -> (r: Option<PanicCause>)
    ensures
        match spec_handle(*input) {
            HandleOutcome::Panics(p) => r is Some && r->0@ == p,
            _ => r is None,
        },
{
    match expand(input) {
        ExpandStep::Panics(p) => Some(p),
        _ => None,
    }
}

} // verus!

verus! {

/// Converting between a generated type and its own representation type is
/// always infallible, in both directions.
pub proof fn lemma_own_representation_converts_infallibly(input: EnumInput)
    ensures
        spec_handle(input) matches HandleOutcome::Expanded(e) ==> forall|k: int|
            0 <= k < e.conversions.len() && (#[trigger] e.conversions[k]).width == e.repr.ty.width
                ==> e.conversions[k].into_int_infallible && e.conversions[k].from_int_infallible,
{
    lemma_chosen_size_matches_type(input.attrs@, input.variants@);
    if let HandleOutcome::Expanded(e) = spec_handle(input) {
        assert forall|k: int|
            0 <= k < e.conversions.len() && (#[trigger] e.conversions[k]).width == e.repr.ty.width
                implies e.conversions[k].into_int_infallible
            && e.conversions[k].from_int_infallible by {
            lemma_infallible_reflexive(e.repr.size);
        }
    }
}

/// The expansion panics only on a 128-bit `repr`, or while computing the
/// variant names for a delegated `Deserialize`.
pub proof fn lemma_panics_only_on_repr_or_deserialize(input: EnumInput)
    ensures
        spec_handle(input) is Panics ==> spec_handle(input)->Panics_0 is UnsupportedRepr
            || delegations(meta_from_lists(input.attrs@, "derive"@)).contains(
            Delegation::Deserialize,
        ),
{
}

} // verus!

verus! {

/// The serde impls get a serde path exactly when `Serialize` or `Deserialize`
/// (either one) is delegated, and it is the path located in the `serde`
/// attributes; the variant names are computed exactly when `Deserialize` is.
pub proof fn lemma_serde_parts_follow_delegations(input: EnumInput)
    ensures
        spec_handle(input) matches HandleOutcome::Expanded(e) ==> {
            &&& e.serde_path is Some <==> (e.delegations.contains(Delegation::Serialize)
                || e.delegations.contains(Delegation::Deserialize))
            &&& e.serde_path is Some ==> e.serde_path->0 == spec_locate_serde(input.attrs@)
            &&& e.variant_names is Some <==> e.delegations.contains(Delegation::Deserialize)
        },
{
}

/// The number of bits of the integer types of a width, on a platform whose
/// pointers have `ptr_bits` bits.
pub open spec fn int_bits(w: Width, ptr_bits: nat) -> nat {
    match w {
        Width::W8 => 8,
        Width::W16 => 16,
        Width::W32 => 32,
        Width::W64 => 64,
        Width::W128 => 128,
        Width::Size => ptr_bits,
    }
}

/// Whether the integer types of width `a` are no wider than those of width `b`
/// on every platform Rust supports (16, 32 or 64-bit pointers).
pub open spec fn never_wider(a: Width, b: Width) -> bool {
    forall|p: nat| (p == 16 || p == 32 || p == 64) ==> #[trigger] int_bits(a, p) <= int_bits(b, p)
}

/// Judged on byte widths, a conversion is infallible exactly when its source
/// type has no more bits than its target on every platform.
pub proof fn lemma_infallible_iff_never_wider(a: Width, b: Width)
    ensures
        spec_infallible(width_bytes(a), width_bytes(b)) <==> never_wider(a, b),
{
    if !spec_infallible(width_bytes(a), width_bytes(b)) {
        assert(!(int_bits(a, 16) <= int_bits(b, 16)) || !(int_bits(a, 64) <= int_bits(b, 64)));
    }
}

/// Whether some conversion is for the width `w`.
pub open spec fn covers_width(cs: Seq<Conversion>, w: Width) -> bool {
    exists|k: int| 0 <= k < cs.len() && (#[trigger] cs[k]).width == w
}

/// For every integer width there is one pair of conversions with the
/// generated type, and each direction is a `From` exactly when the source
/// type has no more bits than the target on every platform; otherwise it is a
/// `TryFrom`.
pub proof fn lemma_conversions_follow_bit_widths(input: EnumInput)
    ensures
        spec_handle(input) matches HandleOutcome::Expanded(e) ==> {
            &&& e.conversions.len() == 6
            &&& forall|w: Width| #[trigger] covers_width(e.conversions, w)
            &&& forall|k: int|
                0 <= k < e.conversions.len() ==> {
                    &&& (#[trigger] e.conversions[k]).from_int_infallible <==> never_wider(
                        e.conversions[k].width,
                        e.repr.ty.width,
                    )
                    &&& e.conversions[k].into_int_infallible <==> never_wider(
                        e.repr.ty.width,
                        e.conversions[k].width,
                    )
                }
        },
{
    lemma_chosen_size_matches_type(input.attrs@, input.variants@);
    if let HandleOutcome::Expanded(e) = spec_handle(input) {
        let cs = e.conversions;
        assert(cs[0].width == Width::W8);
        assert(cs[1].width == Width::W16);
        assert(cs[2].width == Width::W32);
        assert(cs[3].width == Width::W64);
        assert(cs[4].width == Width::W128);
        assert(cs[5].width == Width::Size);
        assert forall|w: Width| #[trigger] covers_width(cs, w) by {
            match w {
                Width::W8 => assert(cs[0].width == w),
                Width::W16 => assert(cs[1].width == w),
                Width::W32 => assert(cs[2].width == w),
                Width::W64 => assert(cs[3].width == w),
                Width::W128 => assert(cs[4].width == w),
                Width::Size => assert(cs[5].width == w),
            }
        }
        assert forall|k: int| 0 <= k < cs.len() implies {
            &&& (#[trigger] cs[k]).from_int_infallible <==> never_wider(cs[k].width, e.repr.ty.width)
            &&& cs[k].into_int_infallible <==> never_wider(e.repr.ty.width, cs[k].width)
        } by {
            lemma_infallible_iff_never_wider(cs[k].width, e.repr.ty.width);
            lemma_infallible_iff_never_wider(e.repr.ty.width, cs[k].width);
        }
    }
}

} // verus!
