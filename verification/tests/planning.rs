use ffi_enum::expand::{conversions_for, expand, ExpandStep};
use ffi_enum::attrs::{extract_meta_from_lists, is_doc};
use ffi_enum::expand::{delegate, first_panic, handle, Delegation, HandleError};
use ffi_enum::infallible;
use ffi_enum::model::{
    Attr, AttrBody, Delimiter, EnumInput, IntType, MetaItem, PanicCause, StrLit, VariantInput,
    Width,
};
use ffi_enum::repr::{extract_repr, int_type_of_name, parse_repr, ReprError};
use ffi_enum::serde_attrs::{deserialize_names, locate_serde, pick_serde_path, rename_all_format};

fn path(name: &str) -> MetaItem {
    MetaItem::Path { ident: Some(name.to_string()), last: name.to_string() }
}

fn long_path(segments: &[&str]) -> MetaItem {
    MetaItem::Path { ident: None, last: segments.last().unwrap().to_string() }
}

fn name_value(name: &str, value: &str) -> MetaItem {
    MetaItem::NameValue {
        ident: Some(name.to_string()),
        text: Some(StrLit { value: value.to_string(), has_suffix: false }),
    }
}

fn list(name: &str, items: Vec<MetaItem>) -> Attr {
    Attr {
        outer: true,
        ident: Some(name.to_string()),
        body: AttrBody::List { delimiter: Delimiter::Paren, args: Some(items) },
    }
}

fn variant(name: &str, attrs: Vec<Attr>) -> VariantInput {
    VariantInput { name: name.to_string(), has_fields: false, has_discriminant: false, attrs }
}

fn names(v: &[&str]) -> Vec<String> {
    v.iter().map(|s| s.to_string()).collect()
}

#[test]
fn infallible_by_width() {
    assert!(infallible(Some(1), Some(1)));
    assert!(infallible(Some(1), Some(8)));
    assert!(!infallible(Some(8), Some(4)));
    assert!(infallible(Some(2), None));
    assert!(!infallible(Some(4), None));
    assert!(infallible(None, Some(8)));
    assert!(infallible(None, Some(16)));
    assert!(!infallible(None, Some(4)));
    assert!(infallible(None, None));
}

#[test]
fn integer_type_names() {
    assert_eq!(int_type_of_name("i16"), Some(IntType { signed: true, width: Width::W16 }));
    assert_eq!(int_type_of_name("usize"), Some(IntType { signed: false, width: Width::Size }));
    assert_eq!(int_type_of_name("u128"), Some(IntType { signed: false, width: Width::W128 }));
    assert_eq!(int_type_of_name("u7"), None);
    assert_eq!(int_type_of_name("f32"), None);
    assert_eq!(int_type_of_name("C"), None);
    assert_eq!(int_type_of_name(""), None);
    for n in ["i8", "i16", "i32", "i64", "i128", "isize", "u8", "u16", "u32", "u64", "u128", "usize"] {
        assert_eq!(int_type_of_name(n).unwrap().name(), n);
    }
}

#[test]
fn meta_from_paren_lists_only() {
    let attrs = vec![
        list("repr", vec![path("C")]),
        Attr {
            outer: true,
            ident: Some("repr".to_string()),
            body: AttrBody::List { delimiter: Delimiter::Bracket, args: Some(vec![path("u8")]) },
        },
        Attr {
            outer: true,
            ident: Some("repr".to_string()),
            body: AttrBody::List { delimiter: Delimiter::Paren, args: None },
        },
        list("derive", vec![path("Debug")]),
        list("repr", vec![path("i16"), path("align")]),
    ];
    let metas = extract_meta_from_lists(&attrs, "repr");
    assert_eq!(metas.len(), 3);
    assert!(matches!(&metas[0], MetaItem::Path { ident: Some(s), .. } if s == "C"));
    assert!(matches!(&metas[1], MetaItem::Path { ident: Some(s), .. } if s == "i16"));
    assert!(matches!(&metas[2], MetaItem::Path { ident: Some(s), .. } if s == "align"));
}

#[test]
fn repr_from_attribute() {
    let attrs = vec![list("repr", vec![path("C"), path("i16")])];
    assert_eq!(extract_repr(&attrs), Ok(Some(IntType { signed: true, width: Width::W16 })));
    assert_eq!(extract_repr(&vec![]), Ok(None));
    let dup = vec![list("repr", vec![path("u8")]), list("repr", vec![path("u16")])];
    assert_eq!(extract_repr(&dup), Err(ReprError::DuplicateRepr));
    let vs = vec![variant("Cat", vec![]), variant("Dog", vec![])];
    let c = parse_repr(&attrs, &vs).unwrap();
    assert_eq!(c.ty, IntType { signed: true, width: Width::W16 });
    assert_eq!(c.size, Some(2));
    assert_eq!(c.deferred_error, None);
    let c = parse_repr(&vec![list("repr", vec![path("isize")])], &vs).unwrap();
    assert_eq!(c.size, None);
    assert_eq!(parse_repr(&dup, &vs), Err(ReprError::DuplicateRepr));
}

#[test]
fn repr_inferred_from_variant_count() {
    let few: Vec<VariantInput> = (0..255).map(|i| variant(&format!("V{}", i), vec![])).collect();
    let c = parse_repr(&vec![], &few).unwrap();
    assert_eq!(c.ty, IntType { signed: false, width: Width::W8 });
    assert_eq!(c.size, Some(1));
    let more: Vec<VariantInput> = (0..256).map(|i| variant(&format!("V{}", i), vec![])).collect();
    let c = parse_repr(&vec![], &more).unwrap();
    assert_eq!(c.ty, IntType { signed: false, width: Width::W16 });
    assert_eq!(c.size, Some(2));
    let mut vs = vec![variant("A", vec![]), variant("B", vec![]), variant("C", vec![])];
    vs[1].has_discriminant = true;
    vs[2].has_discriminant = true;
    let c = parse_repr(&vec![], &vs).unwrap();
    assert_eq!(c.ty, IntType { signed: false, width: Width::W64 });
    assert_eq!(c.size, Some(8));
    assert_eq!(c.deferred_error, Some(1));
}

#[test]
fn serde_crate_path() {
    assert_eq!(locate_serde(&vec![]), "::serde");
    let attrs = vec![list("serde", vec![name_value("rename_all", "snake_case"), name_value("crate", "my::serde")])];
    assert_eq!(locate_serde(&attrs), "my::serde");
    let bad = vec![list("serde", vec![name_value("crate", "not a path!"), name_value("crate", "other")])];
    assert_eq!(locate_serde(&bad), "other");
    let suffixed = vec![list(
        "serde",
        vec![MetaItem::NameValue {
            ident: Some("crate".to_string()),
            text: Some(StrLit { value: "x".to_string(), has_suffix: true }),
        }],
    )];
    assert_eq!(locate_serde(&suffixed), "::serde");
    assert_eq!(pick_serde_path(&names(&["a", "b", "c"]), &vec![false, true, true]), "b");
    assert_eq!(pick_serde_path(&names(&["a"]), &vec![false]), "::serde");
}

#[test]
fn rename_all_from_serde_attributes() {
    assert_eq!(rename_all_format(&vec![]), "PascalCase");
    let attrs = vec![
        list("serde", vec![name_value("crate", "x")]),
        list("serde", vec![name_value("rename_all", "kebab-case"), name_value("rename_all", "lowercase")]),
        list("serde", vec![name_value("rename_all", "UPPERCASE")]),
    ];
    assert_eq!(rename_all_format(&attrs), "kebab-case");
    let inner = vec![Attr {
        outer: false,
        ident: Some("serde".to_string()),
        body: AttrBody::List { delimiter: Delimiter::Paren, args: Some(vec![name_value("rename_all", "lowercase")]) },
    }];
    assert_eq!(rename_all_format(&inner), "PascalCase");
}

#[test]
fn deserialize_names_snake_case() {
    let attrs = vec![list("serde", vec![name_value("rename_all", "snake_case")])];
    let vs = vec![variant("Cat", vec![]), variant("Dog", vec![])];
    let ns = deserialize_names(&attrs, &vs).unwrap();
    assert_eq!(ns, vec![names(&["cat"]), names(&["dog"])]);
}

#[test]
fn deserialize_names_default_to_variant_names() {
    let attrs = vec![list("serde", vec![name_value("crate", "x")])];
    let vs = vec![variant("Cat", vec![]), variant("HotDog", vec![])];
    let ns = deserialize_names(&attrs, &vs).unwrap();
    assert_eq!(ns, vec![names(&["Cat"]), names(&["HotDog"])]);
}

#[test]
fn infallible_composes() {
    let widths = [Some(1), Some(2), Some(4), Some(8), Some(16), None];
    for a in widths {
        assert!(infallible(a, a));
        for b in widths {
            for c in widths {
                if infallible(a, b) && infallible(b, c) {
                    assert!(infallible(a, c));
                }
            }
        }
    }
}

#[test]
fn doc_attributes() {
    let doc = Attr { outer: true, ident: Some("doc".to_string()), body: AttrBody::NameValue };
    assert!(is_doc(&doc));
    assert!(!is_doc(&list("serde", vec![])));
}

#[test]
fn deserialize_names_with_alias() {
    let attrs = vec![list("serde", vec![name_value("rename_all", "snake_case")])];
    let vs = vec![
        variant("Cat", vec![list("serde", vec![name_value("alias", "kitty")]), list("error", vec![])]),
        variant("Dog", vec![]),
    ];
    let ns = deserialize_names(&attrs, &vs).unwrap();
    assert_eq!(ns, vec![names(&["kitty", "cat"]), names(&["dog"])]);
}

#[test]
fn deserialize_names_every_alias_and_rename() {
    let vs = vec![variant(
        "HotDog",
        vec![
            list("serde", vec![name_value("alias", "a"), name_value("alias", "b")]),
            list("serde", vec![name_value("rename", "kebab-case"), name_value("alias", "c")]),
            list("serde", vec![name_value("alias", "d"), name_value("rename", "sausage")]),
        ],
    )];
    let ns = deserialize_names(&vec![], &vs).unwrap();
    assert_eq!(ns, vec![names(&["a", "b", "c", "d", "sausage"])]);
}

#[test]
fn deserialize_names_rename_is_literal() {
    let attrs = vec![list("serde", vec![name_value("rename_all", "snake_case")])];
    let vs = vec![
        variant("Cat", vec![list("serde", vec![name_value("rename", "kitty")])]),
        variant("HotDog", vec![]),
    ];
    let ns = deserialize_names(&attrs, &vs).unwrap();
    assert_eq!(ns, vec![names(&["kitty"]), names(&["hot_dog"])]);
}

#[test]
fn deserialize_names_unknown_rename_all() {
    let attrs = vec![list("serde", vec![name_value("rename_all", "Title Case")])];
    match deserialize_names(&attrs, &vec![variant("Cat", vec![])]) {
        Err(PanicCause::UnknownFormat(f)) => assert_eq!(f, "Title Case"),
        other => panic!("unexpected {:?}", other),
    }
    assert!(deserialize_names(&attrs, &vec![]).unwrap().is_empty());
}

#[test]
fn delegated_traits() {
    assert_eq!(delegate(&path("Debug")), Some(Delegation::Debug));
    assert_eq!(delegate(&path("Display")), Some(Delegation::Display));
    assert_eq!(delegate(&path("Error")), Some(Delegation::Error));
    assert_eq!(delegate(&path("Hash")), Some(Delegation::Hash));
    assert_eq!(delegate(&path("FromStr")), Some(Delegation::FromStr));
    assert_eq!(delegate(&path("Serialize")), Some(Delegation::Serialize));
    assert_eq!(delegate(&path("Deserialize")), Some(Delegation::Deserialize));
    assert_eq!(delegate(&path("Clone")), None);
    assert_eq!(delegate(&long_path(&["serde", "Serialize"])), Some(Delegation::Serialize));
    assert_eq!(delegate(&long_path(&["core", "fmt", "Debug"])), Some(Delegation::Debug));
    assert_eq!(delegate(&long_path(&["thiserror", "Error"])), Some(Delegation::Error));
    assert_eq!(delegate(&long_path(&["core", "clone", "Clone"])), None);
    assert_eq!(delegate(&name_value("Debug", "x")), None);
}

fn animal() -> EnumInput {
    EnumInput {
        name: "Animal".to_string(),
        attrs: vec![
            list("derive", vec![path("Debug"), path("Serialize"), path("Deserialize"), path("Clone")]),
            list("serde", vec![name_value("rename_all", "snake_case")]),
        ],
        variants: vec![variant("Cat", vec![]), variant("Dog", vec![])],
    }
}

#[test]
fn handle_animal() {
    let e = handle(&animal()).unwrap();
    assert_eq!(e.repr.ty, IntType { signed: false, width: Width::W8 });
    assert_eq!(e.repr.size, Some(1));
    assert_eq!(e.delegations, vec![Delegation::Debug, Delegation::Serialize, Delegation::Deserialize]);
    assert_eq!(e.serde_path, Some("::serde".to_string()));
    assert_eq!(e.variant_names, Some(vec![names(&["cat"]), names(&["dog"])]));
    assert_eq!(e.conversions.len(), 6);
    for c in &e.conversions {
        assert!(c.into_int_infallible);
        assert_eq!(c.from_int_infallible, c.width == Width::W8);
    }
}

#[test]
fn handle_repr_i16() {
    let mut input = animal();
    input.attrs.push(list("repr", vec![path("i16")]));
    let e = handle(&input).unwrap();
    assert_eq!(e.repr.ty, IntType { signed: true, width: Width::W16 });
    let size = e.conversions.iter().find(|c| c.width == Width::Size).unwrap();
    assert!(size.into_int_infallible);
    assert!(!size.from_int_infallible);
    let w8 = e.conversions.iter().find(|c| c.width == Width::W8).unwrap();
    assert!(!w8.into_int_infallible);
    assert!(w8.from_int_infallible);
}

#[test]
fn handle_with_derive_paths() {
    let mut input = animal();
    input.attrs[0] = list("derive", vec![long_path(&["serde", "Serialize"]), long_path(&["serde", "Deserialize"])]);
    let e = handle(&input).unwrap();
    assert_eq!(e.delegations, vec![Delegation::Serialize, Delegation::Deserialize]);
    assert_eq!(e.variant_names, Some(vec![names(&["cat"]), names(&["dog"])]));
    assert_eq!(ffi_enum::expand::unknown_name(), "<Unknown>");
}

#[test]
fn handle_without_serde() {
    let input = EnumInput {
        name: "E".to_string(),
        attrs: vec![list("derive", vec![path("Hash")])],
        variants: vec![variant("A", vec![])],
    };
    let e = handle(&input).unwrap();
    assert_eq!(e.delegations, vec![Delegation::Hash]);
    assert_eq!(e.serde_path, None);
    assert_eq!(e.variant_names, None);
}

#[test]
fn handle_rejections() {
    let mut input = animal();
    input.variants[1].has_fields = true;
    input.attrs.push(list("repr", vec![path("u8"), path("u16")]));
    assert_eq!(handle(&input).unwrap_err(), HandleError::FieldsNotAllowed(1));
    input.variants[1].has_fields = false;
    assert_eq!(handle(&input).unwrap_err(), HandleError::DuplicateRepr);
}

#[test]
fn panics_reported() {
    let mut input = animal();
    assert!(first_panic(&input).is_none());
    input.attrs.push(list("repr", vec![path("u128")]));
    assert!(matches!(first_panic(&input), Some(PanicCause::UnsupportedRepr(t)) if t.width == Width::W128));
    let mut input = animal();
    input.attrs[1] = list("serde", vec![name_value("rename_all", "camelCase")]);
    input.variants[0].name = "Äpfel".to_string();
    assert!(matches!(first_panic(&input), Some(PanicCause::FirstCharNotSliceable(n)) if n == "Äpfel"));
}

#[test]
fn conversions_for_each_width() {
    let cs = conversions_for(Some(4));
    let widths: Vec<Width> = cs.iter().map(|c| c.width).collect();
    assert_eq!(widths, vec![Width::W8, Width::W16, Width::W32, Width::W64, Width::W128, Width::Size]);
    let into: Vec<bool> = cs.iter().map(|c| c.into_int_infallible).collect();
    let from: Vec<bool> = cs.iter().map(|c| c.from_int_infallible).collect();
    assert_eq!(into, vec![false, false, true, true, true, false]);
    assert_eq!(from, vec![true, true, true, false, false, false]);
    let cs = conversions_for(None);
    let into: Vec<bool> = cs.iter().map(|c| c.into_int_infallible).collect();
    let from: Vec<bool> = cs.iter().map(|c| c.from_int_infallible).collect();
    assert_eq!(into, vec![false, false, false, true, true, true]);
    assert_eq!(from, vec![true, true, false, false, false, true]);
}

#[test]
fn expand_reports_every_outcome() {
    assert!(matches!(expand(&animal()), ExpandStep::Expanded(_)));
    let mut input = animal();
    input.variants[0].has_fields = true;
    assert!(matches!(expand(&input), ExpandStep::Rejected(HandleError::FieldsNotAllowed(0))));
    let mut input = animal();
    input.attrs.push(list("repr", vec![path("i128")]));
    assert!(matches!(expand(&input), ExpandStep::Panics(PanicCause::UnsupportedRepr(_))));
}
