//! The representation integer of an enumeration: read from its `repr`
//! attribute, or inferred from the number of variants; and which integer
//! conversions can never fail.
use vstd::prelude::*;
use crate::model::{
    Attr, IntType, MetaItem, VariantInput, Width, name_int_type, suffix_width, width_bytes,
};
use crate::attrs::{extract_meta_from_lists, meta_from_lists};

verus! {

/// Whether a conversion between integer types of the given byte widths can never
/// lose a value, judged by width alone. `None` stands for the pointer-sized
/// types, whose width is only known to be 2, 4 or 8 bytes.
pub open spec fn spec_infallible(from_width: Option<usize>, to_width: Option<usize>) -> bool {
    match (from_width, to_width) {
        (Some(from), Some(to)) => from <= to,
        (Some(from), None) => from <= 2,
        (None, Some(to)) => to >= 8,
        (None, None) => true,
    }
}

/// Decides whether the conversion between two integer widths is generated as
/// `From` (infallible) rather than `TryFrom`.
pub fn infallible(from_width: Option<usize>, to_width: Option<usize>) -> (r: bool)
    ensures
        r == spec_infallible(from_width, to_width),
{
    match (from_width, to_width) {
        (Some(from), Some(to)) => from <= to,
        (Some(from), None) => from <= 2,
        (None, Some(to)) => to >= 8,
        (None, None) => true,
    }
}

/// Recognises the name of a primitive integer type.
pub fn int_type_of_name(s: &str) -> (r: Option<IntType>)
    ensures
        r == name_int_type(s@),
{
    let n = s.unicode_len();
    if n == 0 {
        return None;
    }
    let first = s.get_char(0);
    if first != 'i' && first != 'u' {
        return None;
    }
    let ghost rest = s@.skip(1);
    let width = if n == 2 {
        if s.get_char(1) == '8' {
            Some(Width::W8)
        } else {
            None
        }
    } else if n == 3 {
        let a = s.get_char(1);
        let b = s.get_char(2);
        if a == '1' && b == '6' {
            Some(Width::W16)
        } else if a == '3' && b == '2' {
            Some(Width::W32)
        } else if a == '6' && b == '4' {
            Some(Width::W64)
        } else {
            None
        }
    } else if n == 4 {
        let a = s.get_char(1);
        let b = s.get_char(2);
        let c = s.get_char(3);
        if a == '1' && b == '2' && c == '8' {
            Some(Width::W128)
        } else {
            None
        }
    } else if n == 5 {
        let a = s.get_char(1);
        let b = s.get_char(2);
        let c = s.get_char(3);
        let d = s.get_char(4);
        if a == 's' && b == 'i' && c == 'z' && d == 'e' {
            Some(Width::Size)
        } else {
            None
        }
    } else {
        None
    };
    assert(width == suffix_width(rest));
    match width {
        Some(w) => Some(IntType { signed: first == 'i', width: w }),
        None => None,
    }
}

/// The integer type an item of `#[repr(...)]` names, if it is a bare integer
/// type name.
pub open spec fn meta_int_type(m: MetaItem) -> Option<IntType> {
    match m {
        MetaItem::Path { ident: Some(s), .. } => name_int_type(s@),
        _ => None,
    }
}

/// The integer types named among the items, in order.
pub open spec fn repr_candidates(metas: Seq<MetaItem>) -> Seq<IntType>
    decreases metas.len(),
{
    if metas.len() == 0 {
        Seq::empty()
    } else {
        let prev = repr_candidates(metas.drop_last());
        match meta_int_type(metas.last()) {
            Some(t) => prev.push(t),
            None => prev,
        }
    }
}

/// A `repr` attribute names more than one integer type.
#[derive(Clone, Copy, Debug, PartialEq, Eq, Structural)]
pub enum ReprError {
    DuplicateRepr,
}

/// The integer type given by the `repr` attributes: none, exactly one, or an
/// error when two or more are given.
pub open spec fn spec_extract_repr(attrs: Seq<Attr>) -> Result<Option<IntType>, ReprError> {
    let c = repr_candidates(meta_from_lists(attrs, "repr"@));
    if c.len() == 0 {
        Ok(None)
    } else if c.len() == 1 {
        Ok(Some(c[0]))
    } else {
        Err(ReprError::DuplicateRepr)
    }
}

/// Finds the integer type named in the `repr` attributes.
pub fn extract_repr(attrs: &Vec<Attr>) -> (r: Result<Option<IntType>, ReprError>)
    ensures
        r == spec_extract_repr(attrs@),
{
    let metas = extract_meta_from_lists(attrs, "repr");
    let mut first: Option<IntType> = None;
    let mut count: usize = 0;
    let mut i: usize = 0;
    while i < metas.len()
        invariant
            i <= metas@.len(),
            count == if repr_candidates(metas@.take(i as int)).len() < 2 {
                repr_candidates(metas@.take(i as int)).len()
            } else {
                2
            },
            count == 0 ==> first is None,
            count >= 1 ==> first == Some(repr_candidates(metas@.take(i as int))[0]),
        decreases metas@.len() - i,
    {
        assert(metas@.take(i + 1).drop_last() =~= metas@.take(i as int));
        let t = match &metas[i] {
            MetaItem::Path { ident: Some(s), .. } => int_type_of_name(s.as_str()),
            _ => None,
        };
        if let Some(t) = t {
            if count == 0 {
                first = Some(t);
            }
            if count < 2 {
                count = count + 1;
            }
        }
        i = i + 1;
    }
    assert(metas@.take(metas@.len() as int) =~= metas@);
    if count == 0 {
        Ok(None)
    } else if count == 1 {
        Ok(first)
    } else {
        Err(ReprError::DuplicateRepr)
    }
}

/// The representation chosen for an enumeration: the integer type, its byte
/// size (`None` when pointer-sized), and, when the type had to be inferred but a
/// variant carries an explicit discriminant, the index of the first such
/// variant (reported as an error after the expansion).
#[derive(Clone, Copy, Debug, PartialEq, Eq, Structural)]
pub struct ReprChoice {
    pub ty: IntType,
    pub size: Option<usize>,
    pub deferred_error: Option<usize>,
}

/// What choosing the representation comes to: a choice, the duplicate error, or
/// a 128-bit type, on which the expansion panics.
#[derive(Clone, Copy, Debug, PartialEq, Eq, Structural)]
pub enum ReprStep {
    Chosen(ReprChoice),
    Duplicate,
    Unsupported(IntType),
}

/// The index of the first variant with an explicit discriminant.
pub open spec fn first_discriminant(vs: Seq<VariantInput>) -> Option<usize>
    decreases vs.len(),
{
    if vs.len() == 0 {
        None
    } else {
        match first_discriminant(vs.drop_last()) {
            Some(i) => Some(i),
            None => if vs.last().has_discriminant {
                Some((vs.len() - 1) as usize)
            } else {
                None
            },
        }
    }
}

/// How many distinct values the unsigned type of a width holds (for the
/// pointer-sized type, the least it holds on any platform).
pub open spec fn unsigned_capacity(w: Width) -> nat {
    match w {
        Width::W8 => 0x100,
        Width::W16 => 0x1_0000,
        Width::W32 => 0x1_0000_0000,
        Width::W64 => 0x1_0000_0000_0000_0000,
        Width::W128 => 0x1_0000_0000_0000_0000 * 0x1_0000_0000_0000_0000,
        Width::Size => 0x1_0000,
    }
}

/// The width inferred for `n` variants: the narrowest of 8, 16 and 32 bits
/// whose unsigned type holds more than `n` values, so that at least one value
/// is no variant's and can serve as `UNKNOWN`; 64 bits beyond.
pub open spec fn inferred_width(n: nat) -> Width {
    if n < 0x100 {
        Width::W8
    } else if n < 0x1_0000 {
        Width::W16
    } else if n < 0x1_0000_0000 {
        Width::W32
    } else {
        Width::W64
    }
}

/// The representation step for an enumeration's attributes and variants.
pub open spec fn spec_repr_step(attrs: Seq<Attr>, variants: Seq<VariantInput>) -> ReprStep {
    match spec_extract_repr(attrs) {
        Err(_) => ReprStep::Duplicate,
        Ok(Some(t)) => if t.width == Width::W128 {
            ReprStep::Unsupported(t)
        } else {
            ReprStep::Chosen(ReprChoice { ty: t, size: width_bytes(t.width), deferred_error: None })
        },
        Ok(None) => match first_discriminant(variants) {
            None => {
                let w = inferred_width(variants.len());
                ReprStep::Chosen(
                    ReprChoice {
                        ty: IntType { signed: false, width: w },
                        size: width_bytes(w),
                        deferred_error: None,
                    },
                )
            },
            Some(i) => ReprStep::Chosen(
                ReprChoice {
                    ty: IntType { signed: false, width: Width::W64 },
                    size: Some(8),
                    deferred_error: Some(i),
                },
            ),
        },
    }
}

/// Finds the first variant with an explicit discriminant.
pub fn find_first_discriminant(variants: &Vec<VariantInput>) -> (r: Option<usize>)
    ensures
        r == first_discriminant(variants@),
{
    let mut i: usize = 0;
    while i < variants.len()
        invariant
            i <= variants@.len(),
            first_discriminant(variants@.take(i as int)) is None,
        decreases variants@.len() - i,
    {
        assert(variants@.take(i + 1).drop_last() =~= variants@.take(i as int));
        if variants[i].has_discriminant {
            proof { lemma_first_discriminant_prefix(variants@, (i + 1) as int); }
            return Some(i);
        }
        i = i + 1;
    }
    assert(variants@.take(variants@.len() as int) =~= variants@);
    None
}

/// Once found among a prefix, the first discriminant stays the first one.
proof fn lemma_first_discriminant_prefix(vs: Seq<VariantInput>, k: int)
    requires
        0 <= k <= vs.len(),
        first_discriminant(vs.take(k)) is Some,
    ensures
        first_discriminant(vs) == first_discriminant(vs.take(k)),
    decreases vs.len() - k,
{
    if k < vs.len() {
        assert(vs.take(k + 1).drop_last() =~= vs.take(k));
        lemma_first_discriminant_prefix(vs, k + 1);
    } else {
        assert(vs.take(k) =~= vs);
    }
}

/// Chooses the representation, reporting a 128-bit `repr` rather than
/// stopping on it.
pub fn repr_step(attrs: &Vec<Attr>, variants: &Vec<VariantInput>) -> (r: ReprStep)
    ensures
        r == spec_repr_step(attrs@, variants@),
{
    match extract_repr(attrs) {
        Err(_) => ReprStep::Duplicate,
        Ok(Some(t)) => {
            if t.width == Width::W128 {
                ReprStep::Unsupported(t)
            } else {
                ReprStep::Chosen(ReprChoice { ty: t, size: t.width.bytes(), deferred_error: None })
            }
        },
        Ok(None) => match find_first_discriminant(variants) {
            None => {
                let n = variants.len() as u64;
                let w = if n < 0x100 {
                    Width::W8
                } else if n < 0x1_0000 {
                    Width::W16
                } else if n < 0x1_0000_0000 {
                    Width::W32
                } else {
                    Width::W64
                };
                ReprStep::Chosen(
                    ReprChoice {
                        ty: IntType { signed: false, width: w },
                        size: w.bytes(),
                        deferred_error: None,
                    },
                )
            },
            Some(i) => ReprStep::Chosen(
                ReprChoice {
                    ty: IntType { signed: false, width: Width::W64 },
                    size: Some(8),
                    deferred_error: Some(i),
                },
            ),
        },
    }
}

/// Chooses the representation of an enumeration: the integer type of its
/// `repr` attribute, or else the narrowest unsigned type that holds one value
/// per variant and one left over for `UNKNOWN`; `u64` with a deferred error when a variant has an explicit
/// discriminant but no `repr` is given. A 128-bit `repr` is not accepted.
pub fn parse_repr(attrs: &Vec<Attr>, variants: &Vec<VariantInput>) -> (r: Result<
    ReprChoice,
    ReprError,
>)
    requires
        !(spec_repr_step(attrs@, variants@) is Unsupported),
    ensures
        match spec_repr_step(attrs@, variants@) {
            ReprStep::Chosen(c) => r == Ok::<ReprChoice, ReprError>(c),
            _ => r == Err::<ReprChoice, ReprError>(ReprError::DuplicateRepr),
        },
{
    match repr_step(attrs, variants) {
        ReprStep::Chosen(c) => Ok(c),
        _ => Err(ReprError::DuplicateRepr),
    }
}

} // verus!

verus! {

/// The byte size of a width on a platform whose pointers are `ptr` bytes.
pub open spec fn bytes_on(w: Option<usize>, ptr: nat) -> nat {
    match w {
        Some(b) => b as nat,
        None => ptr,
    }
}

/// A conversion is infallible exactly when the source is no wider than the
/// target on every platform Rust supports (pointers of 2, 4 or 8 bytes).
pub proof fn lemma_infallible_on_every_platform(from_width: Option<usize>, to_width: Option<usize>)
    ensures
        spec_infallible(from_width, to_width) <==> (forall|p: nat|
            (p == 2 || p == 4 || p == 8) ==> #[trigger] bytes_on(from_width, p) <= bytes_on(
                to_width,
                p,
            )),
{
    if !spec_infallible(from_width, to_width) {
        match (from_width, to_width) {
            (Some(_), Some(_)) => {
                assert(!(bytes_on(from_width, 2) <= bytes_on(to_width, 2)));
            },
            (Some(_), None) => {
                assert(!(bytes_on(from_width, 2) <= bytes_on(to_width, 2)));
            },
            (None, Some(_)) => {
                assert(!(bytes_on(from_width, 8) <= bytes_on(to_width, 8)));
            },
            (None, None) => {},
        }
    }
}

/// Every width converts infallibly to itself.
pub proof fn lemma_infallible_reflexive(w: Option<usize>)
    ensures
        spec_infallible(w, w),
{
}

/// Infallible conversions compose: if `a` converts infallibly to `b` and `b`
/// to `c`, then `a` converts infallibly to `c`.
pub proof fn lemma_infallible_transitive(a: Option<usize>, b: Option<usize>, c: Option<usize>)
    requires
        spec_infallible(a, b),
        spec_infallible(b, c),
    ensures
        spec_infallible(a, c),
{
}

/// Without a `repr` and without explicit discriminants, the representation is
/// the narrowest unsigned type of 8, 16, 32 or 64 bits that holds one value per
/// variant and one more, left for `UNKNOWN`; its size is that type's size.
pub proof fn lemma_inferred_repr_holds_all_variants(attrs: Seq<Attr>, variants: Seq<VariantInput>)
    requires
        spec_extract_repr(attrs) == Ok::<Option<IntType>, ReprError>(None),
        first_discriminant(variants) is None,
        variants.len() < unsigned_capacity(Width::W64),
    ensures
        spec_repr_step(attrs, variants) matches ReprStep::Chosen(c) && {
            &&& !c.ty.signed
            &&& c.size == width_bytes(c.ty.width)
            &&& c.deferred_error is None
            &&& variants.len() < unsigned_capacity(c.ty.width)
            &&& forall|w: Width|
                (w == Width::W8 || w == Width::W16 || w == Width::W32) && width_bytes(w)->0
                    < c.size->0 ==> variants.len() >= #[trigger] unsigned_capacity(w)
        },
{
}

/// A chosen representation's size is the size of its integer type.
pub proof fn lemma_chosen_size_matches_type(attrs: Seq<Attr>, variants: Seq<VariantInput>)
    ensures
        spec_repr_step(attrs, variants) matches ReprStep::Chosen(c) ==> c.size == width_bytes(
            c.ty.width,
        ),
{
}

} // verus!

verus! {

/// `first_discriminant` finds the first variant with an explicit
/// discriminant, and nothing when there is none.
pub proof fn lemma_first_discriminant_is_first(vs: Seq<VariantInput>)
    requires
        vs.len() <= usize::MAX,
    ensures
        match first_discriminant(vs) {
            Some(i) => i < vs.len() && vs[i as int].has_discriminant && forall|j: int|
                0 <= j < i ==> !(#[trigger] vs[j]).has_discriminant,
            None => forall|j: int| 0 <= j < vs.len() ==> !(#[trigger] vs[j]).has_discriminant,
        },
    decreases vs.len(),
{
    if vs.len() > 0 {
        let p = vs.drop_last();
        lemma_first_discriminant_is_first(p);
        assert forall|j: int| 0 <= j < p.len() implies p[j] == vs[j] by {}
        assert(vs.last() == vs[vs.len() - 1]);
        match first_discriminant(p) {
            Some(i) => {
                assert forall|j: int| 0 <= j < i implies !(#[trigger] vs[j]).has_discriminant by {
                    assert(p[j] == vs[j]);
                }
            },
            None => {
                assert forall|j: int| 0 <= j < vs.len() - 1 implies !(
                #[trigger] vs[j]).has_discriminant by {
                    assert(p[j] == vs[j]);
                }
            },
        }
    }
}

/// A `repr` naming exactly one supported integer type is used as it is: the
/// representation is that type, of its own size, and no deferred error is
/// raised, whatever the variants' discriminants.
pub proof fn lemma_given_repr_is_used(attrs: Seq<Attr>, variants: Seq<VariantInput>, t: IntType)
    requires
        spec_extract_repr(attrs) == Ok::<Option<IntType>, ReprError>(Some(t)),
        t.width != Width::W128,
    ensures
        spec_repr_step(attrs, variants) matches ReprStep::Chosen(c) && c.ty == t
            && c.deferred_error is None,
{
}

/// A deferred error is raised only without a `repr`, and points at the first
/// variant that has an explicit discriminant (the variants being a vector's
/// contents, so that an index fits `usize`).
pub proof fn lemma_deferred_error_only_without_repr(attrs: Seq<Attr>, variants: Seq<VariantInput>)
    requires
        variants.len() <= usize::MAX,
    ensures
        spec_repr_step(attrs, variants) matches ReprStep::Chosen(c) ==> match c.deferred_error {
            Some(i) => {
                &&& spec_extract_repr(attrs) == Ok::<Option<IntType>, ReprError>(None)
                &&& i < variants.len()
                &&& variants[i as int].has_discriminant
                &&& forall|j: int| 0 <= j < i ==> !(#[trigger] variants[j]).has_discriminant
            },
            None => spec_extract_repr(attrs) is Ok && (spec_extract_repr(attrs) == Ok::<
                Option<IntType>,
                ReprError,
            >(None) ==> forall|j: int|
                0 <= j < variants.len() ==> !(#[trigger] variants[j]).has_discriminant),
        },
{
    lemma_first_discriminant_is_first(variants);
}

} // verus!
