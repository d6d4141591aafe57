use enum_from_impler::create_enum_from_impls;
use enum_from_impler::emit::render;
use enum_from_impler::markers::{classify_attr, has_blanket, shape_of};
use enum_from_impler::model::{
    ArgForm, AttrForm, DeclBody, Declaration, EnumVariant, FieldsForm, Fragment, GenError, Marker,
    RawAttr, RawVariant, Shape, TargetType,
};
use enum_from_impler::resolve::{generate, payload_type, resolve_variant};
use enum_from_impler::syntax::read_declaration;

fn expand(src: &str) -> Result<Vec<String>, GenError> {
    let input = syn::parse_str::<syn::DeriveInput>(src).expect("declaration should parse");
    create_enum_from_impls(&read_declaration(&input))
}

fn bare() -> RawAttr {
    RawAttr { ident: Some("impl_from".to_string()), form: AttrForm::Path }
}

fn with_type(t: &str) -> RawAttr {
    RawAttr { ident: Some("impl_from".to_string()), form: AttrForm::List(vec![ArgForm::Path(t.to_string())]) }
}

fn other(name: &str) -> RawAttr {
    RawAttr { ident: Some(name.to_string()), form: AttrForm::Path }
}

fn variant(name: &str, attrs: Vec<RawAttr>, fields: FieldsForm) -> RawVariant {
    RawVariant { name: name.to_string(), attrs, fields }
}

fn one(t: &str) -> FieldsForm {
    FieldsForm::Unnamed(vec![t.to_string()])
}

fn decl(name: &str, attrs: Vec<RawAttr>, variants: Vec<RawVariant>) -> Declaration {
    Declaration { name: name.to_string(), attrs, body: DeclBody::Enum(variants) }
}

#[test]
fn blanket_value_scenario() {
    let d = decl(
        "Value",
        vec![bare()],
        vec![
            variant("Int", vec![], one("i64")),
            variant("Str", vec![], one("String")),
            variant("Empty", vec![], FieldsForm::Unit),
        ],
    );
    assert_eq!(
        create_enum_from_impls(&d).unwrap(),
        vec![
            "impl From<i64> for Value { fn from(v: i64) -> Self { Self::Int(v) } }".to_string(),
            "impl From<String> for Value { fn from(v: String) -> Self { Self::Str(v) } }".to_string(),
        ]
    );
}

#[test]
fn blanket_value_scenario_from_source() {
    let r = expand("#[impl_from] enum Value { Int(i64), Str(String), Empty }").unwrap();
    assert_eq!(
        r,
        vec![
            "impl From<i64> for Value { fn from(v: i64) -> Self { Self::Int(v) } }".to_string(),
            "impl From<String> for Value { fn from(v: String) -> Self { Self::Str(v) } }".to_string(),
        ]
    );
}

#[test]
fn bare_marker_on_unit_variant_gives_nothing() {
    let r = expand("enum Event { #[impl_from] Tick }").unwrap();
    assert!(r.is_empty());
}

#[test]
fn override_names_the_source_type() {
    let r = expand("enum Wrapper { #[impl_from(OtherType)] Custom(RawType) }").unwrap();
    assert_eq!(
        r,
        vec!["impl From<OtherType> for Wrapper { fn from(v: OtherType) -> Self { Self::Custom(v) } }"
            .to_string()]
    );
}

#[test]
fn several_fields_with_bare_marker_is_fatal() {
    assert_eq!(
        expand("enum Bad { #[impl_from] Multi(i64, i64) }"),
        Err(GenError::UnsupportedVariantShape)
    );
}

#[test]
fn no_markers_gives_nothing() {
    let r = expand("enum Plain { A(i64), B(String), C }").unwrap();
    assert!(r.is_empty());
}

#[test]
fn expansion_is_repeatable() {
    let src = "#[impl_from] enum Value { Int(i64), #[impl_from(Other)] Str(String), Empty }";
    let a = expand(src);
    let b = expand(src);
    assert_eq!(a, b);
    assert_eq!(a.unwrap().len(), 2);
}

#[test]
fn override_before_bare_wins() {
    let d = decl(
        "W",
        vec![],
        vec![variant("V", vec![with_type("Other"), bare()], one("Own"))],
    );
    assert_eq!(
        create_enum_from_impls(&d).unwrap(),
        vec!["impl From<Other> for W { fn from(v: Other) -> Self { Self::V(v) } }".to_string()]
    );
}

#[test]
fn bare_before_override_uses_payload() {
    let d = decl(
        "W",
        vec![],
        vec![variant("V", vec![bare(), with_type("Other")], one("Own"))],
    );
    assert_eq!(
        create_enum_from_impls(&d).unwrap(),
        vec!["impl From<Own> for W { fn from(v: Own) -> Self { Self::V(v) } }".to_string()]
    );
}

#[test]
fn blanket_skips_unit_and_uses_payload() {
    let t = TargetType {
        name: "T".to_string(),
        impl_all: true,
        variants: vec![
            EnumVariant { name: "U".to_string(), shape: Shape::NoPayload, markers: vec![] },
            EnumVariant {
                name: "P".to_string(),
                shape: Shape::SinglePayload("u8".to_string()),
                markers: vec![Marker::Unrecognized],
            },
        ],
    };
    let fs = generate(&t).unwrap();
    assert_eq!(fs.len(), 1);
    assert_eq!(fs[0].variant, "P");
    assert_eq!(fs[0].foreign, "u8");
    assert!(fs[0].wraps);
}

#[test]
fn opt_out_without_blanket() {
    let v = EnumVariant {
        name: "P".to_string(),
        shape: Shape::SinglePayload("u8".to_string()),
        markers: vec![Marker::Unrecognized],
    };
    assert_eq!(resolve_variant(false, &v), Ok(None));
    assert_eq!(resolve_variant(true, &v), Ok(Some("u8".to_string())));
}

#[test]
fn fragments_follow_variant_order() {
    let r = expand(
        "enum E { #[impl_from] C(u8), D(u16), #[impl_from] A(u32), #[impl_from(X)] B }",
    )
    .unwrap();
    assert_eq!(
        r,
        vec![
            "impl From<u8> for E { fn from(v: u8) -> Self { Self::C(v) } }".to_string(),
            "impl From<u32> for E { fn from(v: u32) -> Self { Self::A(v) } }".to_string(),
            "impl From<X> for E { fn from(_: X) -> Self { Self::B } }".to_string(),
        ]
    );
}

#[test]
fn unsupported_shape_is_fatal_on_every_path() {
    assert_eq!(
        expand("#[impl_from] enum E { A(u8), M(u8, u8) }"),
        Err(GenError::UnsupportedVariantShape)
    );
    assert_eq!(
        expand("enum E { #[impl_from(X)] M(u8, u8) }"),
        Err(GenError::UnsupportedVariantShape)
    );
    assert_eq!(
        expand("enum E { #[impl_from] N { a: u8 } }"),
        Err(GenError::UnsupportedVariantShape)
    );
    assert_eq!(expand("enum E { M(u8, u8) }"), Ok(vec![]));
}

#[test]
fn not_an_enum_is_fatal() {
    assert_eq!(expand("#[impl_from] struct S(u8);"), Err(GenError::NotAnEnum));
    let d = Declaration { name: "S".to_string(), attrs: vec![], body: DeclBody::NotEnum };
    assert_eq!(create_enum_from_impls(&d), Err(GenError::NotAnEnum));
}

#[test]
fn payload_of_unit_is_missing() {
    assert_eq!(payload_type(&Shape::NoPayload), Err(GenError::MissingPayloadType));
    assert_eq!(payload_type(&Shape::Unsupported), Err(GenError::UnsupportedVariantShape));
    assert_eq!(payload_type(&Shape::SinglePayload("u8".to_string())), Ok("u8".to_string()));
}

#[test]
fn struct_is_read_as_no_enum() {
    let input = syn::parse_str::<syn::DeriveInput>("#[impl_from] struct S(u8);").unwrap();
    let d = read_declaration(&input);
    assert_eq!(d.name, "S");
    assert_eq!(d.attrs.len(), 1);
    assert!(matches!(d.body, DeclBody::NotEnum));
}

#[test]
fn attributes_of_other_names_are_ignored() {
    assert!(matches!(classify_attr(&other("derive")), Marker::Unrecognized));
    assert!(matches!(classify_attr(&bare()), Marker::Bare));
    match classify_attr(&with_type("a::B")) {
        Marker::Override(t) => assert_eq!(t, "a::B"),
        _ => panic!("expected an override"),
    }
    let empty_list = RawAttr { ident: Some("impl_from".to_string()), form: AttrForm::List(vec![]) };
    assert!(matches!(classify_attr(&empty_list), Marker::Unrecognized));
    let lit_first = RawAttr {
        ident: Some("impl_from".to_string()),
        form: AttrForm::List(vec![ArgForm::Lit, ArgForm::Path("X".to_string())]),
    };
    assert!(matches!(classify_attr(&lit_first), Marker::Unrecognized));
    let path_first = RawAttr {
        ident: Some("impl_from".to_string()),
        form: AttrForm::List(vec![ArgForm::Path("X".to_string()), ArgForm::Lit]),
    };
    match classify_attr(&path_first) {
        Marker::Override(t) => assert_eq!(t, "X"),
        _ => panic!("expected an override"),
    }
    let other_name = RawAttr {
        ident: Some("other".to_string()),
        form: AttrForm::List(vec![ArgForm::Path("X".to_string())]),
    };
    assert!(matches!(classify_attr(&other_name), Marker::Unrecognized));
    let name_value = RawAttr { ident: Some("impl_from".to_string()), form: AttrForm::Other };
    assert!(matches!(classify_attr(&name_value), Marker::Unrecognized));
    assert!(!has_blanket(&vec![other("derive"), with_type("X")]));
    assert!(has_blanket(&vec![other("derive"), bare()]));
}

#[test]
fn unknown_attribute_before_marker_is_skipped() {
    let r = expand("enum E { #[doc = \"x\"] #[other] #[impl_from] A(u8) }").unwrap();
    assert_eq!(r, vec!["impl From<u8> for E { fn from(v: u8) -> Self { Self::A(v) } }".to_string()]);
}

#[test]
fn override_with_path_type_is_read() {
    let r = expand("enum E { #[impl_from(std::string::String)] A(Name) }").unwrap();
    assert_eq!(r.len(), 1);
    assert!(r[0].starts_with("impl From<std :: string :: String> for E"));
}

#[test]
fn shapes_are_classified() {
    assert!(matches!(shape_of(&FieldsForm::Unit), Shape::NoPayload));
    assert!(matches!(shape_of(&FieldsForm::Named), Shape::Unsupported));
    assert!(matches!(shape_of(&FieldsForm::Unnamed(vec![])), Shape::Unsupported));
    assert!(matches!(
        shape_of(&FieldsForm::Unnamed(vec!["a".to_string(), "b".to_string()])),
        Shape::Unsupported
    ));
    match shape_of(&one("Vec<u8>")) {
        Shape::SinglePayload(t) => assert_eq!(t, "Vec<u8>"),
        _ => panic!("expected one payload"),
    }
}

#[test]
fn unit_fragment_discards_value() {
    let f = Fragment {
        target: "E".to_string(),
        variant: "Tick".to_string(),
        foreign: "()".to_string(),
        wraps: false,
    };
    assert_eq!(render(&f), "impl From<()> for E { fn from(_: ()) -> Self { Self::Tick } }");
}

#[test]
fn payload_type_text_comes_from_source() {
    let r = expand("#[impl_from] enum E { A(Vec<u8>) }").unwrap();
    assert_eq!(
        r,
        vec!["impl From<Vec < u8 >> for E { fn from(v: Vec < u8 >) -> Self { Self::A(v) } }".to_string()]
    );
}

#[test]
fn marker_without_path_argument_is_skipped() {
    let r = expand(
        "enum E { #[impl_from(\"x\")] #[impl_from(k = 1)] #[impl_from()] #[impl_from(OtherT, Extra)] A(u8) }",
    )
    .unwrap();
    assert_eq!(r, vec!["impl From<OtherT> for E { fn from(v: OtherT) -> Self { Self::A(v) } }".to_string()]);
}

#[test]
fn nested_or_literal_arguments_fall_through_to_bare() {
    let r = expand("enum E { #[impl_from(inner(X))] #[impl_from(1)] #[impl_from] A(u8) }").unwrap();
    assert_eq!(r, vec!["impl From<u8> for E { fn from(v: u8) -> Self { Self::A(v) } }".to_string()]);
}

#[test]
fn enum_is_read_with_variants_and_attributes() {
    let input = syn::parse_str::<syn::DeriveInput>(
        "#[impl_from] enum E { #[doc = \"d\"] #[impl_from(a::B, 1)] A(u8), C, N { x: u8 }, T(u8, u16) }",
    )
    .unwrap();
    let d = read_declaration(&input);
    assert_eq!(d.name, "E");
    assert!(matches!(d.attrs[0].form, AttrForm::Path));
    assert_eq!(d.attrs[0].ident.as_deref(), Some("impl_from"));
    let vs = match d.body {
        DeclBody::Enum(vs) => vs,
        DeclBody::NotEnum => panic!("expected an enum"),
    };
    assert_eq!(vs.len(), 4);
    assert_eq!(vs[0].name, "A");
    assert_eq!(vs[0].attrs.len(), 2);
    assert!(matches!(vs[0].attrs[0].form, AttrForm::Other));
    match &vs[0].attrs[1].form {
        AttrForm::List(args) => {
            assert_eq!(args.len(), 2);
            assert!(matches!(&args[0], ArgForm::Path(t) if t == "a :: B"));
            assert!(matches!(args[1], ArgForm::Lit));
        }
        _ => panic!("expected a list"),
    }
    assert!(matches!(&vs[0].fields, FieldsForm::Unnamed(ts) if ts.len() == 1 && ts[0] == "u8"));
    assert!(matches!(vs[1].fields, FieldsForm::Unit));
    assert!(matches!(vs[2].fields, FieldsForm::Named));
    assert!(matches!(&vs[3].fields, FieldsForm::Unnamed(ts) if ts.len() == 2));
}
