//! Reading attributes: the items of `#[name(...)]` lists, and the string values
//! of `name = "..."` items.
use vstd::prelude::*;
use crate::model::{Attr, AttrBody, Delimiter, MetaItem, ident_is};
use crate::text::text_eq;

verus! {

/// The items of one attribute when it is `#[ident(...)]` with round brackets
/// and its contents parse as a list of items; nothing otherwise.
pub open spec fn list_items(attr: Attr, ident: Seq<char>) -> Seq<MetaItem> {
    if ident_is(attr.ident, ident) {
        match attr.body {
            AttrBody::List { delimiter: Delimiter::Paren, args: Some(args) } => args@,
            _ => Seq::empty(),
        }
    } else {
        Seq::empty()
    }
}

/// The items of all `#[ident(...)]` attributes, in order.
pub open spec fn meta_from_lists(attrs: Seq<Attr>, ident: Seq<char>) -> Seq<MetaItem>
    decreases attrs.len(),
{
    if attrs.len() == 0 {
        Seq::empty()
    } else {
        meta_from_lists(attrs.drop_last(), ident) + list_items(attrs.last(), ident)
    }
}

/// Whether an optional identifier is present and equal to `s`.
pub fn ident_matches(ident: &Option<String>, s: &str) -> (r: bool)
    ensures
        r == ident_is(*ident, s@),
{
    match ident {
        Some(i) => text_eq(i.as_str(), s),
        None => false,
    }
}

/// Whether an attribute is a doc comment (`#[doc ...]`), which the generated
/// type carries over.
pub fn is_doc(attr: &Attr) -> (r: bool)
    ensures
        r == ident_is(attr.ident, "doc"@),
{
    ident_matches(&attr.ident, "doc")
}

/// Collects the items of every attribute `#[ident(...)]` written with round
/// brackets whose contents parse as a comma-separated list, in order;
/// attributes whose contents do not parse are skipped.
pub fn extract_meta_from_lists(attrs: &Vec<Attr>, ident: &str) -> (r: Vec<MetaItem>)
    ensures
        r@ == meta_from_lists(attrs@, ident@),
{
    let mut out: Vec<MetaItem> = Vec::new();
    let mut i: usize = 0;
    while i < attrs.len()
        invariant
            i <= attrs@.len(),
            out@ == meta_from_lists(attrs@.take(i as int), ident@),
        decreases attrs@.len() - i,
    {
        let attr = &attrs[i];
        assert(attrs@.take(i + 1).drop_last() =~= attrs@.take(i as int));
        if ident_matches(&attr.ident, ident) {
            match &attr.body {
                AttrBody::List { delimiter: Delimiter::Paren, args: Some(args) } => {
                    let ghost before = out@;
                    let mut j: usize = 0;
                    while j < args.len()
                        invariant
                            j <= args@.len(),
                            out@ == before + args@.take(j as int),
                        decreases args@.len() - j,
                    {
                        out.push(args[j].duplicate());
                        assert(args@.take(j + 1) =~= args@.take(j as int).push(args@[j as int]));
                        j = j + 1;
                    }
                    assert(args@.take(args@.len() as int) =~= args@);
                },
                _ => {
                    assert(out@ =~= out@ + Seq::<MetaItem>::empty());
                },
            }
        } else {
            assert(out@ =~= out@ + Seq::<MetaItem>::empty());
        }
        i = i + 1;
    }
    assert(attrs@.take(attrs@.len() as int) =~= attrs@);
    out
}

} // verus!
