use ffi_enum::rename::snake_case_with;
use ffi_enum::text::{ascii_lowercase, ascii_uppercase, replace_chars, text_eq};
use ffi_enum::model::PanicCause;
use ffi_enum::rename::{rename_checked, rename_with, snake_case};

#[test]
fn conventions_of_hello_world() {
    let v = "HelloWorld";
    assert_eq!(rename_with("PascalCase", v), "HelloWorld");
    assert_eq!(rename_with("lowercase", v), "helloworld");
    assert_eq!(rename_with("UPPERCASE", v), "HELLOWORLD");
    assert_eq!(rename_with("camelCase", v), "helloWorld");
    assert_eq!(rename_with("snake_case", v), "hello_world");
    assert_eq!(rename_with("SCREAMING_SNAKE_CASE", v), "HELLO_WORLD");
    assert_eq!(rename_with("kebab-case", v), "hello-world");
    assert_eq!(rename_with("SCREAMING-KEBAB-CASE", v), "HELLO-WORLD");
}

#[test]
fn snake_case_of_cat() {
    assert_eq!(rename_with("snake_case", "Cat"), "cat");
}

#[test]
fn snake_case_marks_unicode_capitals() {
    assert_eq!(snake_case("aÉb"), "a_Éb");
    assert_eq!(snake_case("ÄBc"), "Ä_bc");
    assert_eq!(snake_case("HTTPCode"), "h_t_t_p_code");
    assert_eq!(snake_case(""), "");
}

#[test]
fn lowercase_of_screaming_snake_is_snake() {
    for v in ["HelloWorld", "ABC", "x_Y", "Straße"] {
        let screaming = rename_with("SCREAMING_SNAKE_CASE", v);
        assert_eq!(rename_with("lowercase", &screaming), rename_with("snake_case", v));
    }
}

#[test]
fn kebab_has_no_underscores() {
    let k = rename_with("kebab-case", "Some_Thing");
    assert_eq!(k, "some--thing");
    assert!(!k.contains('_'));
}

#[test]
fn unknown_convention_is_reported() {
    match rename_checked("Title Case", "Cat") {
        Err(PanicCause::UnknownFormat(f)) => assert_eq!(f, "Title Case"),
        other => panic!("unexpected {:?}", other),
    }
}

#[test]
fn camel_case_needs_one_byte_first_char() {
    assert!(matches!(rename_checked("camelCase", "Über"), Err(PanicCause::FirstCharNotSliceable(_))));
    assert!(matches!(rename_checked("camelCase", ""), Err(PanicCause::FirstCharNotSliceable(_))));
    assert_eq!(rename_checked("camelCase", "AÜ").unwrap(), "aÜ");
}

#[test]
fn snake_case_follows_given_flags() {
    assert_eq!(snake_case_with("abc", &vec![true, true, false]), "a_bc");
    assert_eq!(snake_case_with("ABC", &vec![false, false, false]), "abc");
    assert_eq!(snake_case_with("", &vec![]), "");
}

#[test]
fn text_helpers() {
    assert_eq!(ascii_lowercase("AbÇ_1"), "abÇ_1");
    assert_eq!(ascii_uppercase("abç_1"), "ABç_1");
    assert_eq!(replace_chars("a_b_c", '_', '-'), "a-b-c");
    assert!(text_eq("Ünï", "Ünï"));
    assert!(!text_eq("ab", "abc"));
    assert!(!text_eq("ab", "aB"));
}
