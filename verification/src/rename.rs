//! The case conventions of serde's `rename_all`, applied to variant names.
use vstd::prelude::*;
use crate::model::{PanicCause, PanicView};
use crate::text::{
    ascii_lowercase, ascii_uppercase, is_ascii_upper, is_uppercase, lower_char, lower_text,
    push_char, upper_char,
    replace_char, replace_chars, text_eq, to_lower, unicode_uppercase, upper_text,
};

verus! {

/// `snake_case` of a name, given for each character whether it is uppercase:
/// every character lowercased (ASCII), with `_` put before each uppercase
/// character other than the first.
pub open spec fn snake_with(v: Seq<char>, upper: Seq<bool>) -> Seq<char>
    decreases v.len(),
{
    if v.len() == 0 {
        Seq::empty()
    } else {
        let prev = snake_with(v.drop_last(), upper);
        let c = v.last();
        if v.len() > 1 && upper[v.len() - 1] {
            prev.push('_').push(lower_char(c))
        } else {
            prev.push(lower_char(c))
        }
    }
}

/// Which characters of a name have the Unicode `Uppercase` property.
pub open spec fn uppercase_flags(v: Seq<char>) -> Seq<bool> {
    v.map_values(|c: char| unicode_uppercase(c))
}

/// `snake_case` of a name.
pub open spec fn snake_text(v: Seq<char>) -> Seq<char> {
    snake_with(v, uppercase_flags(v))
}

/// `camelCase` of a name: its first character lowercased (ASCII). Defined only
/// when that character is a single byte.
pub open spec fn camel_text(v: Seq<char>) -> Seq<char> {
    seq![lower_char(v[0])] + v.skip(1)
}

/// Whether the first character of a name can be cut off as one byte.
pub open spec fn first_char_sliceable(v: Seq<char>) -> bool {
    v.len() > 0 && (v[0] as u32) < 128
}

/// A name converted to the case convention `fmt`, or why the conversion
/// panics: an unknown convention, or `camelCase` of a name whose first
/// character is not one byte.
pub open spec fn spec_rename(fmt: Seq<char>, v: Seq<char>) -> Result<Seq<char>, PanicView> {
    if fmt == "PascalCase"@ {
        Ok(v)
    } else if fmt == "lowercase"@ {
        Ok(lower_text(v))
    } else if fmt == "UPPERCASE"@ {
        Ok(upper_text(v))
    } else if fmt == "camelCase"@ {
        if first_char_sliceable(v) {
            Ok(camel_text(v))
        } else {
            Err(PanicView::FirstCharNotSliceable(v))
        }
    } else if fmt == "snake_case"@ {
        Ok(snake_text(v))
    } else if fmt == "SCREAMING_SNAKE_CASE"@ {
        Ok(upper_text(snake_text(v)))
    } else if fmt == "kebab-case"@ {
        Ok(replace_char(snake_text(v), '_', '-'))
    } else if fmt == "SCREAMING-KEBAB-CASE"@ {
        Ok(replace_char(upper_text(snake_text(v)), '_', '-'))
    } else {
        Err(PanicView::UnknownFormat(fmt))
    }
}

/// Whether converting `v` to the case convention `fmt` succeeds: `fmt` is one
/// of the eight known conventions, and for `camelCase` the name's first
/// character is a single byte.
pub open spec fn rename_defined(fmt: Seq<char>, v: Seq<char>) -> bool {
    ||| fmt == "PascalCase"@
    ||| fmt == "lowercase"@
    ||| fmt == "UPPERCASE"@
    ||| (fmt == "camelCase"@ && first_char_sliceable(v))
    ||| fmt == "snake_case"@
    ||| fmt == "SCREAMING_SNAKE_CASE"@
    ||| fmt == "kebab-case"@
    ||| fmt == "SCREAMING-KEBAB-CASE"@
}

/// `snake_case` of a name, given for each character whether it is uppercase.
pub fn snake_case_with(v: &str, upper: &Vec<bool>) -> (r: String)
    requires
        upper@.len() == v@.len(),
    ensures
        r@ == snake_with(v@, upper@),
{
    let n = v.unicode_len();
    let mut out = String::new();
    let mut i: usize = 0;
    while i < n
        invariant
            n == v@.len(),
            upper@.len() == n,
            i <= n,
            out@ == snake_with(v@.take(i as int), upper@),
        decreases n - i,
    {
        let c = v.get_char(i);
        assert(v@.take(i + 1).drop_last() =~= v@.take(i as int));
        if i > 0 && upper[i] {
            push_char(&mut out, '_');
        }
        push_char(&mut out, to_lower(c));
        i = i + 1;
    }
    assert(v@.take(n as int) =~= v@);
    out
}

/// `snake_case` of a name.
pub fn snake_case(v: &str) -> (r: String)
    ensures
        r@ == snake_text(v@),
{
    let n = v.unicode_len();
    let mut upper: Vec<bool> = Vec::new();
    let mut i: usize = 0;
    while i < n
        invariant
            n == v@.len(),
            i <= n,
            upper@ == uppercase_flags(v@.take(i as int)),
        decreases n - i,
    {
        let c = v.get_char(i);
        upper.push(is_uppercase(c));
        assert(uppercase_flags(v@.take(i + 1)) =~= uppercase_flags(v@.take(i as int)).push(
            unicode_uppercase(c),
        ));
        i = i + 1;
    }
    assert(v@.take(n as int) =~= v@);
    snake_case_with(v, &upper)
}

/// `camelCase` of a name whose first character is a single byte.
fn camel_case(v: &str) -> (r: String)
    requires
        first_char_sliceable(v@),
    ensures
        r@ == camel_text(v@),
{
    let n = v.unicode_len();
    let mut out = String::new();
    push_char(&mut out, to_lower(v.get_char(0)));
    let mut i: usize = 1;
    while i < n
        invariant
            n == v@.len(),
            1 <= i <= n,
            out@ == seq![lower_char(v@[0])] + v@.subrange(1, i as int),
        decreases n - i,
    {
        let c = v.get_char(i);
        push_char(&mut out, c);
        assert(v@.subrange(1, i + 1) =~= v@.subrange(1, i as int).push(c));
        i = i + 1;
    }
    assert(v@.subrange(1, n as int) =~= v@.skip(1));
    out
}

/// Converts a name to a case convention, or reports why the conversion
/// cannot be made.
pub fn rename_checked(fmt: &str, variant: &str) -> (r: Result<String, PanicCause>)
    ensures
        match r {
            Ok(s) => spec_rename(fmt@, variant@) == Ok::<Seq<char>, PanicView>(s@),
            Err(p) => spec_rename(fmt@, variant@) == Err::<Seq<char>, PanicView>(p@),
        },
{
    if text_eq(fmt, "PascalCase") {
        Ok(variant.to_owned())
    } else if text_eq(fmt, "lowercase") {
        Ok(ascii_lowercase(variant))
    } else if text_eq(fmt, "UPPERCASE") {
        Ok(ascii_uppercase(variant))
    } else if text_eq(fmt, "camelCase") {
        let n = variant.unicode_len();
        if n > 0 && (variant.get_char(0) as u32) < 128 {
            Ok(camel_case(variant))
        } else {
            Err(PanicCause::FirstCharNotSliceable(variant.to_owned()))
        }
    } else if text_eq(fmt, "snake_case") {
        Ok(snake_case(variant))
    } else if text_eq(fmt, "SCREAMING_SNAKE_CASE") {
        let snake = snake_case(variant);
        Ok(ascii_uppercase(snake.as_str()))
    } else if text_eq(fmt, "kebab-case") {
        let snake = snake_case(variant);
        Ok(replace_chars(snake.as_str(), '_', '-'))
    } else if text_eq(fmt, "SCREAMING-KEBAB-CASE") {
        let snake = snake_case(variant);
        let upper = ascii_uppercase(snake.as_str());
        Ok(replace_chars(upper.as_str(), '_', '-'))
    } else {
        Err(PanicCause::UnknownFormat(fmt.to_owned()))
    }
}

/// Converts a variant name to the case convention named by `fmt`, one of
/// `PascalCase`, `lowercase`, `UPPERCASE`, `camelCase`, `snake_case`,
/// `SCREAMING_SNAKE_CASE`, `kebab-case` and `SCREAMING-KEBAB-CASE`.
pub fn rename_with(fmt: &str, variant: &str) -> (r: String)
    requires
        rename_defined(fmt@, variant@),
    ensures
        spec_rename(fmt@, variant@) == Ok::<Seq<char>, PanicView>(r@),
{
    match rename_checked(fmt, variant) {
        Ok(s) => s,
        Err(_) => {
            proof {
                lemma_format_names_distinct();
                assert(false);
            }
            String::new()
        },
    }
}

} // verus!

verus! {

/// The ASCII lowercase of a character is never an ASCII capital, and it is
/// `-` only for `-`.
proof fn lemma_lower_char(c: char)
    ensures
        !is_ascii_upper(lower_char(c)),
        lower_char(c) == '-' <==> c == '-',
        lower_char(upper_char(lower_char(c))) == lower_char(c),
{
}

/// No character of a `snake_case` name is an ASCII capital, and it holds a
/// `-` only where the name itself does.
proof fn lemma_snake_chars(v: Seq<char>, upper: Seq<bool>)
    ensures
        forall|i: int|
            0 <= i < snake_with(v, upper).len() ==> !is_ascii_upper(
                #[trigger] snake_with(v, upper)[i],
            ),
        !v.contains('-') ==> !snake_with(v, upper).contains('-'),
    decreases v.len(),
{
    if v.len() > 0 {
        let p = v.drop_last();
        lemma_snake_chars(p, upper);
        lemma_lower_char(v.last());
        let s = snake_with(v, upper);
        let sp = snake_with(p, upper);
        assert forall|i: int| 0 <= i < s.len() implies !is_ascii_upper(#[trigger] s[i]) by {
            if i < sp.len() {
                assert(s[i] == sp[i]);
            }
        }
        if !v.contains('-') {
            assert(!p.contains('-')) by {
                if p.contains('-') {
                    let k = choose|k: int| 0 <= k < p.len() && p[k] == '-';
                    assert(v[k] == '-');
                }
            }
            assert(v.last() != '-') by {
                assert(v[v.len() - 1] == v.last());
            }
            if s.contains('-') {
                let k = choose|k: int| 0 <= k < s.len() && s[k] == '-';
                if k < sp.len() {
                    assert(s[k] == sp[k]);
                }
            }
        }
    }
}

/// The eight case convention names are distinct.
proof fn lemma_format_names_distinct()
    ensures
        "PascalCase"@[0] == 'P',
        "lowercase"@[0] == 'l',
        "UPPERCASE"@[0] == 'U',
        "camelCase"@[0] == 'c',
        "snake_case"@[0] == 's',
        "SCREAMING_SNAKE_CASE"@[0] == 'S',
        "SCREAMING_SNAKE_CASE"@[9] == '_',
        "kebab-case"@[0] == 'k',
        "SCREAMING-KEBAB-CASE"@[0] == 'S',
        "SCREAMING-KEBAB-CASE"@[9] == '-',
        "PascalCase"@.len() == 10,
        "lowercase"@.len() == 9,
        "UPPERCASE"@.len() == 9,
        "camelCase"@.len() == 9,
        "snake_case"@.len() == 10,
        "SCREAMING_SNAKE_CASE"@.len() == 20,
        "kebab-case"@.len() == 10,
        "SCREAMING-KEBAB-CASE"@.len() == 20,
{
    reveal_strlit("PascalCase");
    reveal_strlit("lowercase");
    reveal_strlit("UPPERCASE");
    reveal_strlit("camelCase");
    reveal_strlit("snake_case");
    reveal_strlit("SCREAMING_SNAKE_CASE");
    reveal_strlit("kebab-case");
    reveal_strlit("SCREAMING-KEBAB-CASE");
}

/// `snake_case` output never holds an ASCII capital letter.
pub proof fn lemma_snake_case_has_no_capitals(v: Seq<char>)
    ensures
        spec_rename("snake_case"@, v) matches Ok(s) && forall|i: int|
            0 <= i < s.len() ==> !is_ascii_upper(#[trigger] s[i]),
{
    lemma_format_names_distinct();
    lemma_snake_chars(v, uppercase_flags(v));
}

/// Lowercasing a `SCREAMING_SNAKE_CASE` name gives its `snake_case` name.
pub proof fn lemma_lowercase_of_screaming_snake_case(v: Seq<char>)
    ensures
        spec_rename("SCREAMING_SNAKE_CASE"@, v) matches Ok(screaming) && spec_rename(
            "lowercase"@,
            screaming,
        ) == spec_rename("snake_case"@, v),
{
    lemma_format_names_distinct();
    lemma_snake_chars(v, uppercase_flags(v));
    let s = snake_text(v);
    assert forall|i: int| 0 <= i < s.len() implies #[trigger] lower_char(upper_char(s[i])) == s[i] by {
        assert(!is_ascii_upper(s[i]));
    }
    assert(lower_text(upper_text(s)) =~= s);
}

/// A `kebab-case` name holds no `_`, and for names without `-` (such as every
/// Rust identifier) turning its `-` back into `_` gives the `snake_case` name.
pub proof fn lemma_kebab_case_is_snake_case_with_dashes(v: Seq<char>)
    ensures
        spec_rename("kebab-case"@, v) matches Ok(k) && !k.contains('_') && (!v.contains('-')
            ==> replace_char(k, '-', '_') == snake_text(v)),
{
    lemma_format_names_distinct();
    let s = snake_text(v);
    let k = replace_char(s, '_', '-');
    if k.contains('_') {
        let i = choose|i: int| 0 <= i < k.len() && k[i] == '_';
        assert(false);
    }
    if !v.contains('-') {
        lemma_snake_chars(v, uppercase_flags(v));
        assert forall|i: int| 0 <= i < s.len() implies s[i] != '-' by {
            if s[i] == '-' {
                assert(s.contains('-'));
            }
        }
        assert(replace_char(k, '-', '_') =~= s);
    }
}

/// `PascalCase` leaves names as written.
pub proof fn lemma_pascal_case_is_identity(v: Seq<char>)
    ensures
        spec_rename("PascalCase"@, v) == Ok::<Seq<char>, PanicView>(v),
{
}

} // verus!

verus! {

/// A conversion succeeds exactly when it is defined.
pub proof fn lemma_rename_defined(fmt: Seq<char>, v: Seq<char>)
    ensures
        spec_rename(fmt, v) is Ok <==> rename_defined(fmt, v),
{
    lemma_format_names_distinct();
}

} // verus!

verus! {

/// With no inner character marked uppercase, the `snake_case` walk adds no
/// `_` and only lowercases.
proof fn lemma_snake_with_no_inner_upper(v: Seq<char>, upper: Seq<bool>)
    requires
        forall|i: int| 1 <= i < v.len() ==> !upper[i],
    ensures
        snake_with(v, upper) == lower_text(v),
    decreases v.len(),
{
    if v.len() > 0 {
        let p = v.drop_last();
        lemma_snake_with_no_inner_upper(p, upper);
        assert(lower_text(v) =~= lower_text(p).push(lower_char(v.last())));
    } else {
        assert(lower_text(v) =~= Seq::<char>::empty());
    }
}

/// `snake_case` puts `_` only before characters with the Unicode `Uppercase`
/// property: a name none of whose characters after the first is uppercase
/// (digits, `_`, lowercase letters, ...) becomes its ASCII lowercase, with no
/// `_` added.
pub proof fn lemma_snake_case_only_splits_before_capitals(v: Seq<char>)
    requires
        forall|i: int| 1 <= i < v.len() ==> !unicode_uppercase(#[trigger] v[i]),
    ensures
        spec_rename("snake_case"@, v) == Ok::<Seq<char>, PanicView>(lower_text(v)),
{
    lemma_format_names_distinct();
    let upper = uppercase_flags(v);
    assert forall|i: int| 1 <= i < v.len() implies !upper[i] by {
        assert(upper[i] == unicode_uppercase(v[i]));
    }
    lemma_snake_with_no_inner_upper(v, upper);
}

} // verus!
