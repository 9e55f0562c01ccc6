use uri_display::formatter::FormatError;
use uri_display::shape::{
    analyze, Body, Decl, DiagnosticKind, Fields, GenericKind, GenericParam, Layout, Loc, Shape,
    VariantDecl, Warning,
};
use uri_display::tokens::Seperator;
use uri_display::value::{render, Field, Value};

fn loc(line: usize) -> Loc {
    Loc { line, column: 1 }
}

fn named(names: &[&str]) -> Fields {
    Fields::Named(names.iter().map(|n| n.to_string()).collect())
}

fn decl(name: &str, body: Body) -> Decl {
    Decl { name: name.to_string(), generics: vec![], body, loc: loc(1) }
}

fn variant(name: &str, fields: Fields, line: usize) -> VariantDecl {
    VariantDecl { name: name.to_string(), fields, loc: loc(line) }
}

fn param(name: &str, kind: GenericKind, line: usize) -> GenericParam {
    GenericParam { name: name.to_string(), kind, loc: loc(line) }
}

#[test]
fn named_struct_is_accepted() {
    let a = analyze(&decl("Person", Body::Struct(named(&["name", "age"])))).unwrap();
    assert_eq!(a.name, "Person");
    assert_eq!(a.shape, Shape::Struct(Layout::Named(vec!["name".to_string(), "age".to_string()])));
    assert_eq!(a.warning, None);
    assert!(a.bounded.is_empty());
}

#[test]
fn single_unnamed_field_is_a_wrapper() {
    let a = analyze(&decl("BigInt", Body::Struct(Fields::Unnamed(1)))).unwrap();
    assert_eq!(a.shape, Shape::Struct(Layout::Wrapper));
}

#[test]
fn empty_named_struct_is_rejected() {
    let e = analyze(&decl("Empty", Body::Struct(named(&[])))).unwrap_err();
    assert_eq!(e.kind, DiagnosticKind::NoFields);
    assert_eq!(e.loc, loc(1));
}

#[test]
fn empty_tuple_struct_is_rejected() {
    let e = analyze(&decl("Empty", Body::Struct(Fields::Unnamed(0)))).unwrap_err();
    assert_eq!(e.kind, DiagnosticKind::NoFields);
}

#[test]
fn unit_struct_is_rejected() {
    let e = analyze(&decl("Unit", Body::Struct(Fields::Unit))).unwrap_err();
    assert_eq!(e.kind, DiagnosticKind::NullaryVariant);
}

#[test]
fn two_unnamed_fields_are_rejected() {
    let e = analyze(&decl("Pair", Body::Struct(Fields::Unnamed(2)))).unwrap_err();
    assert_eq!(e.kind, DiagnosticKind::TooManyUnnamedFields);
}

#[test]
fn first_bad_variant_is_reported_where_it_stands() {
    let body = Body::Enum(vec![
        variant("Ok", named(&["a"]), 2),
        variant("Nothing", Fields::Unit, 3),
        variant("Pair", Fields::Unnamed(2), 4),
    ]);
    let e = analyze(&decl("E", body)).unwrap_err();
    assert_eq!(e.kind, DiagnosticKind::NullaryVariant);
    assert_eq!(e.loc, loc(3));
}

#[test]
fn tuple_variant_with_many_fields_is_rejected() {
    let body = Body::Enum(vec![variant("Pair", Fields::Unnamed(3), 5)]);
    let e = analyze(&decl("E", body)).unwrap_err();
    assert_eq!(e.kind, DiagnosticKind::TooManyUnnamedFields);
    assert_eq!(e.loc, loc(5));
}

#[test]
fn const_generic_is_rejected_before_the_body() {
    let mut d = decl("Buf", Body::Struct(Fields::Unit));
    d.generics = vec![param("'a", GenericKind::Lifetime, 7), param("N", GenericKind::Const, 8)];
    let e = analyze(&d).unwrap_err();
    assert_eq!(e.kind, DiagnosticKind::UnsupportedGenericKind);
    assert_eq!(e.loc, loc(8));
}

#[test]
fn type_parameters_get_the_rendering_bound() {
    let mut d = decl("Holder", Body::Struct(named(&["a", "b"])));
    d.generics = vec![
        param("'a", GenericKind::Lifetime, 1),
        param("T", GenericKind::Type, 1),
        param("U", GenericKind::Type, 1),
    ];
    let a = analyze(&d).unwrap();
    assert_eq!(a.bounded, vec!["T".to_string(), "U".to_string()]);
}

#[test]
fn enum_without_variants_warns() {
    let a = analyze(&decl("Never", Body::Enum(vec![]))).unwrap();
    assert_eq!(a.warning, Some(Warning::EmptyVariantSet(loc(1))));
    assert_eq!(a.shape, Shape::Enum(vec![]));
}

#[test]
fn messages_are_readable() {
    assert_eq!(DiagnosticKind::NoFields.message(), "no fields to render");
    assert!(!DiagnosticKind::NullaryVariant.message().is_empty());
    assert!(!DiagnosticKind::TooManyUnnamedFields.message().is_empty());
    assert!(!DiagnosticKind::UnsupportedGenericKind.message().is_empty());
}

fn shape_decl() -> Decl {
    decl(
        "Shape",
        Body::Enum(vec![
            variant("Circle", named(&["r"]), 2),
            variant("Sphere", named(&["radius", "center"]), 3),
            variant("Tagged", Fields::Unnamed(1), 4),
        ]),
    )
}

fn complex(re: i64, im: i64) -> Value {
    Value::Pieces(vec![Value::Int(re), Value::Raw("+".to_string()), Value::Int(im)])
}

fn big_int(n: i64) -> Value {
    let big = analyze(&decl("BigInt", Body::Struct(Fields::Unnamed(1)))).unwrap();
    big.shape.value_of(0, vec![Value::Int(n)]).unwrap()
}

#[test]
fn sphere_arm_renders_its_fields() {
    let a = analyze(&shape_decl()).unwrap();
    let sphere = a.shape.value_of(1, vec![complex(1, 2), big_int(3)]).unwrap();
    assert_eq!(render(&sphere).unwrap(), "radius=1+2&center=3");
}

#[test]
fn only_the_active_arm_counts() {
    let a = analyze(&shape_decl()).unwrap();
    let other = analyze(&decl(
        "Other",
        Body::Enum(vec![
            variant("Square", named(&["side", "x", "y"]), 2),
            variant("Sphere", named(&["radius", "center"]), 3),
        ]),
    ))
    .unwrap();
    let v1 = a.shape.value_of(1, vec![Value::Int(1), Value::Int(2)]).unwrap();
    let v2 = other.shape.value_of(1, vec![Value::Int(1), Value::Int(2)]).unwrap();
    assert_eq!(render(&v1).unwrap(), "radius=1&center=2");
    assert_eq!(render(&v1).unwrap(), render(&v2).unwrap());
    let circle = a.shape.value_of(0, vec![Value::Int(5)]).unwrap();
    assert_eq!(render(&circle).unwrap(), "r=5");
    let tagged = a.shape.value_of(2, vec![Value::Text("a b".to_string())]).unwrap();
    assert_eq!(render(&tagged).unwrap(), "a%20b");
}

#[test]
fn value_of_checks_arm_and_arity() {
    let a = analyze(&shape_decl()).unwrap();
    assert!(a.shape.value_of(3, vec![Value::Int(1)]).is_none());
    assert!(a.shape.value_of(1, vec![Value::Int(1)]).is_none());
    assert!(a.shape.value_of(2, vec![]).is_none());
    let person = analyze(&decl("Person", Body::Struct(named(&["name", "age"])))).unwrap();
    assert!(person.shape.value_of(1, vec![Value::Int(1), Value::Int(2)]).is_none());
    let v = person
        .shape
        .value_of(0, vec![Value::Text("john smith".to_string()), Value::Int(5)])
        .unwrap();
    assert_eq!(render(&v).unwrap(), "name=john%20smith&age=5");
}

#[test]
fn nested_declared_records() {
    let animal = analyze(&decl("Animal", Body::Struct(named(&["name", "color"])))).unwrap();
    let owner = analyze(&decl("Owner", Body::Struct(named(&["pet"])))).unwrap();
    let pet = animal
        .shape
        .value_of(0, vec![Value::Text("clifford".to_string()), Value::Text("red".to_string())])
        .unwrap();
    let v = owner.shape.value_of(0, vec![pet]).unwrap();
    assert_eq!(render(&v).unwrap(), "pet.name=clifford&pet.color=red");
    let manual = Value::Record(vec![Field {
        name: "pet".to_string(),
        value: Value::Record(vec![
            Field { name: "name".to_string(), value: Value::Text("clifford".to_string()) },
            Field { name: "color".to_string(), value: Value::Text("red".to_string()) },
        ]),
    }]);
    assert_eq!(render(&manual), Ok::<String, FormatError>("pet.name=clifford&pet.color=red".to_string()));
}

#[test]
fn separators_name_their_tokens() {
    assert_eq!(Seperator::Comma.symbol(), ',');
    assert_eq!(Seperator::Pipe.symbol(), '|');
    assert_eq!(Seperator::Semi.symbol(), ';');
}
