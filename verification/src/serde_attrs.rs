//! What the `serde` attributes say: the serde crate's path, the case
//! convention for all variants, and each variant's accepted names.
use vstd::prelude::*;
use crate::model::{Attr, AttrBody, MetaItem, PanicCause, PanicView, VariantInput, ident_is};
use crate::attrs::{extract_meta_from_lists, ident_matches, meta_from_lists};
use crate::rename::{rename_checked, spec_rename};

verus! {

/// Whether `syn` parses the text as a path (`syn::Path`).
pub uninterp spec fn parses_as_path(text: Seq<char>) -> bool;

/// Calls `syn::parse_str::<syn::Path>` and tells whether it succeeded; the
/// answer is named by `parses_as_path`, a function of the text (the text is
/// lexed by the compiler inside a procedural macro and by `proc_macro2`'s own
/// lexer elsewhere, both after Rust's token grammar). Which texts `syn`
/// accepts as a path is left unsaid.
#[verifier::external_body]
fn path_parses(text: &str) -> (r: bool)
    ensures
        r == parses_as_path(text@),
{
    syn::parse_str::<syn::Path>(text).is_ok()
}

/// The value of a `crate = "..."` item whose literal has no suffix.
pub open spec fn crate_value(m: MetaItem) -> Option<Seq<char>> {
    match m {
        MetaItem::NameValue { ident, text: Some(lit) } => if ident_is(ident, "crate"@)
            && !lit.has_suffix {
            Some(lit.value@)
        } else {
            None
        },
        _ => None,
    }
}

/// The values of all `crate = "..."` items, in order.
pub open spec fn crate_candidates(metas: Seq<MetaItem>) -> Seq<Seq<char>>
    decreases metas.len(),
{
    if metas.len() == 0 {
        Seq::empty()
    } else {
        let rest = crate_candidates(metas.skip(1));
        match crate_value(metas[0]) {
            Some(v) => seq![v] + rest,
            None => rest,
        }
    }
}

/// The first candidate marked as parsing, or `::serde`.
pub open spec fn pick_path(cands: Seq<Seq<char>>, ok: Seq<bool>) -> Seq<char>
    decreases cands.len(),
{
    if cands.len() == 0 || ok.len() == 0 {
        "::serde"@
    } else if ok[0] {
        cands[0]
    } else {
        pick_path(cands.skip(1), ok.skip(1))
    }
}

/// The path of the serde crate that the generated impls name: the first
/// `#[serde(crate = "...")]` value that parses as a path, else `::serde`.
pub open spec fn spec_locate_serde(attrs: Seq<Attr>) -> Seq<char> {
    let cands = crate_candidates(meta_from_lists(attrs, "serde"@));
    pick_path(cands, cands.map_values(|c: Seq<char>| parses_as_path(c)))
}

/// Picks the serde path among candidate texts, given for each whether it
/// parses as a path: the first that does, else `::serde`.
pub fn pick_serde_path(candidates: &Vec<String>, parses: &Vec<bool>) -> (r: String)
    requires
        candidates@.len() == parses@.len(),
    ensures
        r@ == pick_path(candidates.deep_view(), parses@),
{
    let mut i: usize = 0;
    assert(candidates.deep_view().skip(0) =~= candidates.deep_view());
    assert(parses@.skip(0) =~= parses@);
    while i < candidates.len()
        invariant
            i <= candidates@.len(),
            candidates@.len() == parses@.len(),
            pick_path(candidates.deep_view(), parses@) == pick_path(
                candidates.deep_view().skip(i as int),
                parses@.skip(i as int),
            ),
        decreases candidates@.len() - i,
    {
        let ghost cs = candidates.deep_view().skip(i as int);
        let ghost ps = parses@.skip(i as int);
        assert(cs.skip(1) =~= candidates.deep_view().skip(i + 1));
        assert(ps.skip(1) =~= parses@.skip(i + 1));
        if parses[i] {
            return candidates[i].clone();
        }
        i = i + 1;
    }
    "::serde".to_owned()
}

/// Finds the serde crate's path given by `#[serde(crate = "...")]`, or
/// `::serde`.
pub fn locate_serde(attrs: &Vec<Attr>) -> (r: String)
    ensures
        r@ == spec_locate_serde(attrs@),
{
    let metas = extract_meta_from_lists(attrs, "serde");
    let mut candidates: Vec<String> = Vec::new();
    let mut parses: Vec<bool> = Vec::new();
    let mut i: usize = 0;
    assert(metas@.skip(0) =~= metas@);
    assert(candidates.deep_view() + crate_candidates(metas@) =~= crate_candidates(metas@));
    while i < metas.len()
        invariant
            i <= metas@.len(),
            candidates@.len() == parses@.len(),
            crate_candidates(metas@) == candidates.deep_view() + crate_candidates(
                metas@.skip(i as int),
            ),
            parses@ == candidates.deep_view().map_values(|c: Seq<char>| parses_as_path(c)),
        decreases metas@.len() - i,
    {
        let ghost rest = metas@.skip(i as int);
        assert(rest.skip(1) =~= metas@.skip(i + 1));
        let ghost before = candidates.deep_view();
        match &metas[i] {
            MetaItem::NameValue { ident, text: Some(lit) } => {
                if ident_matches(ident, "crate") && !lit.has_suffix {
                    let ok = path_parses(lit.value.as_str());
                    candidates.push(lit.value.clone());
                    parses.push(ok);
                    assert(candidates.deep_view() =~= before.push(lit.value@));
                    assert(before + crate_candidates(rest) =~= candidates.deep_view()
                        + crate_candidates(rest.skip(1)));
                    assert(parses@ =~= candidates.deep_view().map_values(
                        |c: Seq<char>| parses_as_path(c),
                    ));
                }
            },
            _ => {},
        }
        i = i + 1;
    }
    assert(metas@.skip(metas@.len() as int) =~= Seq::<MetaItem>::empty());
    assert(candidates.deep_view() + Seq::<Seq<char>>::empty() =~= candidates.deep_view());
    pick_serde_path(&candidates, &parses)
}

/// The items of an attribute that serde's helper attributes are read from:
/// an outer `#[name(...)]` (any brackets) whose contents parse.
pub open spec fn helper_items(attr: Attr, name: Seq<char>) -> Seq<MetaItem> {
    if attr.outer && ident_is(attr.ident, name) {
        match attr.body {
            AttrBody::List { delimiter: _, args: Some(args) } => args@,
            _ => Seq::empty(),
        }
    } else {
        Seq::empty()
    }
}

/// The string value of a `key = "..."` item.
pub open spec fn keyed_value(m: MetaItem, key: Seq<char>) -> Option<Seq<char>> {
    match m {
        MetaItem::NameValue { ident, text: Some(lit) } => if ident_is(ident, key) {
            Some(lit.value@)
        } else {
            None
        },
        _ => None,
    }
}

/// The first `key = "..."` value among items.
pub open spec fn first_keyed(items: Seq<MetaItem>, key: Seq<char>) -> Option<Seq<char>>
    decreases items.len(),
{
    if items.len() == 0 {
        None
    } else {
        match keyed_value(items[0], key) {
            Some(v) => Some(v),
            None => first_keyed(items.skip(1), key),
        }
    }
}

/// The first `rename_all = "..."` of the first `#[serde(...)]` that has one.
pub open spec fn find_rename_all(attrs: Seq<Attr>) -> Option<Seq<char>>
    decreases attrs.len(),
{
    if attrs.len() == 0 {
        None
    } else {
        match first_keyed(helper_items(attrs[0], "serde"@), "rename_all"@) {
            Some(v) => Some(v),
            None => find_rename_all(attrs.skip(1)),
        }
    }
}

/// The case convention of all variants: the `rename_all` value, else
/// `PascalCase` (names unchanged).
pub open spec fn spec_rename_all(attrs: Seq<Attr>) -> Seq<char> {
    match find_rename_all(attrs) {
        Some(v) => v,
        None => "PascalCase"@,
    }
}

/// The helper items of an attribute, borrowed.
fn helper_args<'a>(attr: &'a Attr, name: &str) -> (r: Option<&'a Vec<MetaItem>>)
    ensures
        match r {
            Some(args) => helper_items(*attr, name@) == args@,
            None => helper_items(*attr, name@) == Seq::<MetaItem>::empty(),
        },
{
    if attr.outer && ident_matches(&attr.ident, name) {
        match &attr.body {
            AttrBody::List { delimiter: _, args: Some(args) } => Some(args),
            _ => None,
        }
    } else {
        None
    }
}

/// The first `key = "..."` value among items.
fn find_keyed(items: &Vec<MetaItem>, key: &str) -> (r: Option<String>)
    ensures
        match r {
            Some(s) => first_keyed(items@, key@) == Some(s@),
            None => first_keyed(items@, key@) is None,
        },
{
    let mut i: usize = 0;
    assert(items@.skip(0) =~= items@);
    while i < items.len()
        invariant
            i <= items@.len(),
            first_keyed(items@, key@) == first_keyed(items@.skip(i as int), key@),
        decreases items@.len() - i,
    {
        assert(items@.skip(i as int).skip(1) =~= items@.skip(i + 1));
        match &items[i] {
            MetaItem::NameValue { ident, text: Some(lit) } => {
                if ident_matches(ident, key) {
                    return Some(lit.value.clone());
                }
            },
            _ => {},
        }
        i = i + 1;
    }
    None
}

/// Finds the case convention for all variants: the first
/// `#[serde(rename_all = "...")]` value, else `PascalCase`.
pub fn rename_all_format(attrs: &Vec<Attr>) -> (r: String)
    ensures
        r@ == spec_rename_all(attrs@),
{
    let mut i: usize = 0;
    assert(attrs@.skip(0) =~= attrs@);
    while i < attrs.len()
        invariant
            i <= attrs@.len(),
            find_rename_all(attrs@) == find_rename_all(attrs@.skip(i as int)),
        decreases attrs@.len() - i,
    {
        assert(attrs@.skip(i as int).skip(1) =~= attrs@.skip(i + 1));
        let found = match helper_args(&attrs[i], "serde") {
            Some(args) => find_keyed(args, "rename_all"),
            None => None,
        };
        if let Some(v) = found {
            return v;
        }
        i = i + 1;
    }
    "PascalCase".to_owned()
}

} // verus!

verus! {

/// Reading the items of one `#[serde(...)]` on a variant, from a current name
/// and the aliases collected so far: each `rename = "..."` makes its value the
/// variant's name, and each `alias = "..."` adds its value to the aliases.
pub open spec fn scan_items(items: Seq<MetaItem>, name: Seq<char>, aliases: Seq<Seq<char>>) -> (
    Seq<char>,
    Seq<Seq<char>>,
)
    decreases items.len(),
{
    if items.len() == 0 {
        (name, aliases)
    } else if keyed_value(items[0], "rename"@) is Some {
        scan_items(items.skip(1), keyed_value(items[0], "rename"@)->0, aliases)
    } else if keyed_value(items[0], "alias"@) is Some {
        scan_items(items.skip(1), name, aliases.push(keyed_value(items[0], "alias"@)->0))
    } else {
        scan_items(items.skip(1), name, aliases)
    }
}

/// Reading all `#[serde(...)]` attributes of a variant, in order, from a
/// current name and the aliases collected so far.
pub open spec fn scan_attrs(attrs: Seq<Attr>, name: Seq<char>, aliases: Seq<Seq<char>>) -> (
    Seq<char>,
    Seq<Seq<char>>,
)
    decreases attrs.len(),
{
    if attrs.len() == 0 {
        (name, aliases)
    } else {
        let (n, a) = scan_items(helper_items(attrs[0], "serde"@), name, aliases);
        scan_attrs(attrs.skip(1), n, a)
    }
}

/// The names a variant is deserialized from: all its aliases in order, then
/// its name, which is its last `rename` value or else its identifier under the
/// case convention `fmt`; or why computing them panics (the convention is
/// applied to every variant first).
pub open spec fn spec_variant_names(fmt: Seq<char>, v: VariantInput) -> Result<
    Seq<Seq<char>>,
    PanicView,
> {
    match spec_rename(fmt, v.name@) {
        Err(p) => Err(p),
        Ok(n0) => {
            let (n, al) = scan_attrs(v.attrs@, n0, Seq::empty());
            Ok(al.push(n))
        },
    }
}

/// The names of all variants, in order, or the first panic.
pub open spec fn spec_all_names(fmt: Seq<char>, vs: Seq<VariantInput>) -> Result<
    Seq<Seq<Seq<char>>>,
    PanicView,
>
    decreases vs.len(),
{
    if vs.len() == 0 {
        Ok(Seq::empty())
    } else {
        match spec_variant_names(fmt, vs[0]) {
            Err(p) => Err(p),
            Ok(ns) => match spec_all_names(fmt, vs.skip(1)) {
                Err(p) => Err(p),
                Ok(rest) => Ok(seq![ns] + rest),
            },
        }
    }
}

/// The names every variant is deserialized from, under the enumeration's
/// `rename_all` convention; or why computing them panics.
pub open spec fn spec_deserialize_names(attrs: Seq<Attr>, vs: Seq<VariantInput>) -> Result<
    Seq<Seq<Seq<char>>>,
    PanicView,
> {
    spec_all_names(spec_rename_all(attrs), vs)
}

/// Reads the items of one `#[serde(...)]` of a variant: renames set the
/// name, aliases are appended.
fn scan_attr_items(items: &Vec<MetaItem>, name: &mut String, aliases: &mut Vec<String>)
    ensures
        scan_items(items@, old(name)@, old(aliases).deep_view()) == (
            final(name)@,
            final(aliases).deep_view(),
        ),
{
    let mut j: usize = 0;
    assert(items@.skip(0) =~= items@);
    while j < items.len()
        invariant
            j <= items@.len(),
            scan_items(items@, old(name)@, old(aliases).deep_view()) == scan_items(
                items@.skip(j as int),
                name@,
                aliases.deep_view(),
            ),
        decreases items@.len() - j,
    {
        assert(items@.skip(j as int).skip(1) =~= items@.skip(j + 1));
        match &items[j] {
            MetaItem::NameValue { ident: key, text: Some(lit) } => {
                if ident_matches(key, "rename") {
                    *name = lit.value.clone();
                } else if ident_matches(key, "alias") {
                    let ghost before = aliases.deep_view();
                    aliases.push(lit.value.clone());
                    assert(aliases.deep_view() =~= before.push(lit.value@));
                }
            },
            _ => {},
        }
        j = j + 1;
    }
    assert(items@.skip(items@.len() as int) =~= Seq::<MetaItem>::empty());
}

/// Reads all attributes of a variant: its final name and its aliases.
fn scan_variant_attrs(attrs: &Vec<Attr>, name: String) -> (r: (String, Vec<String>))
    ensures
        scan_attrs(attrs@, name@, Seq::empty()) == (r.0@, r.1.deep_view()),
{
    let ghost name0 = name@;
    let mut cur = name;
    let mut aliases: Vec<String> = Vec::new();
    let mut i: usize = 0;
    assert(attrs@.skip(0) =~= attrs@);
    assert(aliases.deep_view() =~= Seq::<Seq<char>>::empty());
    while i < attrs.len()
        invariant
            i <= attrs@.len(),
            scan_attrs(attrs@, name0, Seq::empty()) == scan_attrs(
                attrs@.skip(i as int),
                cur@,
                aliases.deep_view(),
            ),
        decreases attrs@.len() - i,
    {
        assert(attrs@.skip(i as int).skip(1) =~= attrs@.skip(i + 1));
        match helper_args(&attrs[i], "serde") {
            Some(args) => {
                scan_attr_items(args, &mut cur, &mut aliases);
            },
            None => {
                proof {
                    assert(helper_items(attrs@[i as int], "serde"@) =~= Seq::<MetaItem>::empty());
                    assert(scan_items(Seq::<MetaItem>::empty(), cur@, aliases.deep_view()) == (
                        cur@,
                        aliases.deep_view(),
                    ));
                }
            },
        }
        i = i + 1;
    }
    assert(attrs@.skip(attrs@.len() as int) =~= Seq::<Attr>::empty());
    (cur, aliases)
}

/// The names one variant is deserialized from, under the case convention
/// `fmt`.
pub fn variant_names(fmt: &str, v: &VariantInput) -> (r: Result<Vec<String>, PanicCause>)
    ensures
        match r {
            Ok(ns) => spec_variant_names(fmt@, *v) == Ok::<Seq<Seq<char>>, PanicView>(
                ns.deep_view(),
            ),
            Err(p) => spec_variant_names(fmt@, *v) == Err::<Seq<Seq<char>>, PanicView>(p@),
        },
{
    let n0 = match rename_checked(fmt, v.name.as_str()) {
        Ok(n) => n,
        Err(p) => {
            return Err(p);
        },
    };
    let (n, al) = scan_variant_attrs(&v.attrs, n0);
    let mut names = al;
    let ghost before = names.deep_view();
    names.push(n);
    assert(names.deep_view() =~= before.push(n@));
    Ok(names)
}

/// Computes the names every variant is deserialized from: for each variant,
/// all its `#[serde(alias = "...")]` values in order, then its name: its last
/// `#[serde(rename = "...")]` value, or else its identifier under the
/// enumeration's `#[serde(rename_all = "...")]` convention (`PascalCase` by
/// default).
pub fn deserialize_names(attrs: &Vec<Attr>, variants: &Vec<VariantInput>) -> (r: Result<
    Vec<Vec<String>>,
    PanicCause,
>)
    ensures
        match r {
            Ok(ns) => spec_deserialize_names(attrs@, variants@) == Ok::<
                Seq<Seq<Seq<char>>>,
                PanicView,
            >(ns.deep_view()),
            Err(p) => spec_deserialize_names(attrs@, variants@) == Err::<
                Seq<Seq<Seq<char>>>,
                PanicView,
            >(p@),
        },
{
    let fmt = rename_all_format(attrs);
    let mut out: Vec<Vec<String>> = Vec::new();
    let mut i: usize = 0;
    assert(variants@.skip(0) =~= variants@);
    while i < variants.len()
        invariant
            i <= variants@.len(),
            spec_deserialize_names(attrs@, variants@) == match spec_all_names(
                fmt@,
                variants@.skip(i as int),
            ) {
                Err(p) => Err(p),
                Ok(rest) => Ok(out.deep_view() + rest),
            },
        decreases variants@.len() - i,
    {
        assert(variants@.skip(i as int).skip(1) =~= variants@.skip(i + 1));
        match variant_names(fmt.as_str(), &variants[i]) {
            Ok(ns) => {
                let ghost before = out.deep_view();
                let ghost nsv = ns.deep_view();
                out.push(ns);
                assert(out.deep_view() =~= before.push(nsv));
                assert forall|rest: Seq<Seq<Seq<char>>>|
                    #![auto]
                    before + (seq![nsv] + rest) =~= out.deep_view() + rest by {}
            },
            Err(p) => {
                return Err(p);
            },
        }
        i = i + 1;
    }
    assert(variants@.skip(variants@.len() as int) =~= Seq::<VariantInput>::empty());
    assert(out.deep_view() + Seq::<Seq<Seq<char>>>::empty() =~= out.deep_view());
    Ok(out)
}

} // verus!

verus! {

/// Every variant is deserialized from at least one name, and the names come
/// variant by variant.
pub proof fn lemma_every_variant_has_a_name(fmt: Seq<char>, vs: Seq<VariantInput>)
    ensures
        spec_all_names(fmt, vs) matches Ok(ns) ==> ns.len() == vs.len() && forall|i: int|
            0 <= i < ns.len() ==> #[trigger] ns[i].len() >= 1,
    decreases vs.len(),
{
    if vs.len() > 0 {
        lemma_every_variant_has_a_name(fmt, vs.skip(1));
        if let Ok(ns) = spec_all_names(fmt, vs) {
            let rest = spec_all_names(fmt, vs.skip(1))->Ok_0;
            assert(ns == seq![spec_variant_names(fmt, vs[0])->Ok_0] + rest);
            assert forall|i: int| 0 <= i < ns.len() implies #[trigger] ns[i].len() >= 1 by {
                if i > 0 {
                    assert(ns[i] == rest[i - 1]);
                }
            }
        }
    }
}

/// A variant without attributes is deserialized from its name under the case
/// convention, and from nothing else.
pub proof fn lemma_names_without_variant_attrs(fmt: Seq<char>, vs: Seq<VariantInput>)
    requires
        forall|i: int| 0 <= i < vs.len() ==> (#[trigger] vs[i]).attrs@.len() == 0,
        forall|i: int| 0 <= i < vs.len() ==> spec_rename(fmt, (#[trigger] vs[i]).name@) is Ok,
    ensures
        spec_all_names(fmt, vs) == Ok::<Seq<Seq<Seq<char>>>, PanicView>(
            Seq::new(vs.len(), |i: int| seq![spec_rename(fmt, vs[i].name@)->Ok_0]),
        ),
    decreases vs.len(),
{
    if vs.len() == 0 {
        assert(Seq::new(0, |i: int| seq![spec_rename(fmt, vs[i].name@)->Ok_0]) =~= Seq::<
            Seq<Seq<char>>,
        >::empty());
    } else {
        let rest = vs.skip(1);
        assert forall|i: int| 0 <= i < rest.len() implies (#[trigger] rest[i]).attrs@.len() == 0
            && spec_rename(fmt, rest[i].name@) is Ok by {
            assert(rest[i] == vs[i + 1]);
        }
        lemma_names_without_variant_attrs(fmt, rest);
        let v = vs[0];
        assert(v.attrs@.len() == 0);
        assert(spec_rename(fmt, v.name@) is Ok);
        let n0 = spec_rename(fmt, v.name@)->Ok_0;
        assert(v.attrs@ =~= Seq::<Attr>::empty());
        assert(scan_attrs(v.attrs@, n0, Seq::empty()) == (n0, Seq::<Seq<char>>::empty()));
        assert(spec_variant_names(fmt, v) == Ok::<Seq<Seq<char>>, PanicView>(seq![n0])) by {
            assert(Seq::<Seq<char>>::empty().push(n0) =~= seq![n0]);
        }
        assert(seq![seq![n0]] + Seq::new(rest.len(), |i: int| seq![spec_rename(fmt, rest[i].name@)->Ok_0])
            =~= Seq::new(vs.len(), |i: int| seq![spec_rename(fmt, vs[i].name@)->Ok_0]));
    }
}

/// Without `rename_all` and without variant attributes, each variant is
/// deserialized from exactly its own name.
pub proof fn lemma_default_names(attrs: Seq<Attr>, vs: Seq<VariantInput>)
    requires
        find_rename_all(attrs) is None,
        forall|i: int| 0 <= i < vs.len() ==> (#[trigger] vs[i]).attrs@.len() == 0,
    ensures
        spec_deserialize_names(attrs, vs) == Ok::<Seq<Seq<Seq<char>>>, PanicView>(
            Seq::new(vs.len(), |i: int| seq![vs[i].name@]),
        ),
{
    assert forall|i: int| 0 <= i < vs.len() implies spec_rename("PascalCase"@, (#[trigger] vs[i]).name@)
        is Ok by {}
    lemma_names_without_variant_attrs("PascalCase"@, vs);
    assert(Seq::new(vs.len(), |i: int| seq![spec_rename("PascalCase"@, vs[i].name@)->Ok_0])
        =~= Seq::new(vs.len(), |i: int| seq![vs[i].name@]));
}

} // verus!

verus! {

/// Reading items keeps the aliases collected so far, in place, and adds the
/// value of every `alias` item.
proof fn lemma_scan_items_aliases(items: Seq<MetaItem>, name: Seq<char>, al: Seq<Seq<char>>)
    ensures
        scan_items(items, name, al).1.len() >= al.len(),
        forall|i: int| 0 <= i < al.len() ==> scan_items(items, name, al).1[i] == al[i],
        forall|k: int|
            0 <= k < items.len() && (#[trigger] keyed_value(items[k], "alias"@)) is Some
                ==> scan_items(items, name, al).1.contains(keyed_value(items[k], "alias"@)->0),
    decreases items.len(),
{
    reveal_strlit("rename");
    reveal_strlit("alias");
    if items.len() > 0 {
        let rest = items.skip(1);
        let m = items[0];
        let r = scan_items(items, name, al);
        if keyed_value(m, "rename"@) is Some {
            let n = keyed_value(m, "rename"@)->0;
            lemma_scan_items_aliases(rest, n, al);
            assert(keyed_value(m, "alias"@) is None) by {
                assert("rename"@.len() != "alias"@.len());
            }
            assert forall|k: int|
                0 <= k < items.len() && (#[trigger] keyed_value(items[k], "alias"@)) is Some
                    implies r.1.contains(keyed_value(items[k], "alias"@)->0) by {
                assert(k > 0);
                assert(items[k] == rest[k - 1]);
            }
        } else if keyed_value(m, "alias"@) is Some {
            let x = keyed_value(m, "alias"@)->0;
            let al2 = al.push(x);
            lemma_scan_items_aliases(rest, name, al2);
            assert(r == scan_items(rest, name, al2));
            assert(al2[al.len() as int] == x);
            assert(r.1[al.len() as int] == x);
            assert forall|k: int|
                0 <= k < items.len() && (#[trigger] keyed_value(items[k], "alias"@)) is Some
                    implies r.1.contains(keyed_value(items[k], "alias"@)->0) by {
                if k == 0 {
                    assert(r.1[al.len() as int] == x);
                } else {
                    assert(items[k] == rest[k - 1]);
                }
            }
            assert forall|i: int| 0 <= i < al.len() implies r.1[i] == al[i] by {
                assert(al2[i] == al[i]);
            }
        } else {
            lemma_scan_items_aliases(rest, name, al);
            assert forall|k: int|
                0 <= k < items.len() && (#[trigger] keyed_value(items[k], "alias"@)) is Some
                    implies r.1.contains(keyed_value(items[k], "alias"@)->0) by {
                assert(k > 0);
                assert(items[k] == rest[k - 1]);
            }
        }
    }
}

/// Reading attributes keeps the aliases collected so far, in place, and adds
/// the value of every `alias` item of every `#[serde(...)]`.
proof fn lemma_scan_attrs_aliases(attrs: Seq<Attr>, name: Seq<char>, al: Seq<Seq<char>>)
    ensures
        scan_attrs(attrs, name, al).1.len() >= al.len(),
        forall|i: int| 0 <= i < al.len() ==> scan_attrs(attrs, name, al).1[i] == al[i],
        forall|a: int, k: int|
            0 <= a < attrs.len() && 0 <= k < helper_items(attrs[a], "serde"@).len() && (
            #[trigger] keyed_value(helper_items(attrs[a], "serde"@)[k], "alias"@)) is Some
                ==> scan_attrs(attrs, name, al).1.contains(
                keyed_value(helper_items(attrs[a], "serde"@)[k], "alias"@)->0,
            ),
    decreases attrs.len(),
{
    if attrs.len() > 0 {
        let rest = attrs.skip(1);
        let items = helper_items(attrs[0], "serde"@);
        let (n, al2) = scan_items(items, name, al);
        lemma_scan_items_aliases(items, name, al);
        lemma_scan_attrs_aliases(rest, n, al2);
        let r = scan_attrs(attrs, name, al);
        assert forall|i: int| 0 <= i < al.len() implies r.1[i] == al[i] by {
            assert(al2[i] == al[i]);
        }
        assert forall|a: int, k: int|
            0 <= a < attrs.len() && 0 <= k < helper_items(attrs[a], "serde"@).len() && (
            #[trigger] keyed_value(helper_items(attrs[a], "serde"@)[k], "alias"@)) is Some
                implies r.1.contains(keyed_value(helper_items(attrs[a], "serde"@)[k], "alias"@)->0) by {
            let x = keyed_value(helper_items(attrs[a], "serde"@)[k], "alias"@)->0;
            if a == 0 {
                assert(al2.contains(x));
                let j = choose|j: int| 0 <= j < al2.len() && al2[j] == x;
                assert(r.1[j] == x);
            } else {
                assert(attrs[a] == rest[a - 1]);
            }
        }
    }
}

/// Every `alias = "..."` of every `#[serde(...)]` on a variant is among the
/// names it is deserialized from, exactly as written.
pub proof fn lemma_every_alias_is_a_name(fmt: Seq<char>, v: VariantInput, a: int, k: int)
    requires
        0 <= a < v.attrs@.len(),
        0 <= k < helper_items(v.attrs@[a], "serde"@).len(),
        keyed_value(helper_items(v.attrs@[a], "serde"@)[k], "alias"@) is Some,
    ensures
        spec_variant_names(fmt, v) matches Ok(ns) ==> ns.contains(
            keyed_value(helper_items(v.attrs@[a], "serde"@)[k], "alias"@)->0,
        ),
{
    if let Ok(n0) = spec_rename(fmt, v.name@) {
        lemma_scan_attrs_aliases(v.attrs@, n0, Seq::empty());
        let (n, al) = scan_attrs(v.attrs@, n0, Seq::empty());
        let x = keyed_value(helper_items(v.attrs@[a], "serde"@)[k], "alias"@)->0;
        assert(al.contains(x));
        let j = choose|j: int| 0 <= j < al.len() && al[j] == x;
        assert(al.push(n)[j] == x);
    }
}

} // verus!
