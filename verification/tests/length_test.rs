use serde_valid::field::Field;
use serde_valid::syntax::{
    Attribute, Ident, Lit, LitValue, Meta, MetaList, MetaNameValue, NestedMeta, Path, Span,
};
use serde_valid::types::{GenericArgument, PathArguments, PathSegment, Type, TypePath};
use serde_valid::validation::value::{Object, ObjectField, Value};
use serde_valid::{extract_field_validators, Errors, Validate};

fn span() -> Span {
    Span { start: 0, end: 0 }
}

fn path(name: &str) -> Path {
    Path { segments: vec![name.to_string()], span: span() }
}

#[allow(dead_code)]
fn integer(value: i128) -> Lit {
    Lit { value: LitValue::Int(value), span: span() }
}

#[allow(dead_code)]
fn string(value: &str) -> Lit {
    Lit { value: LitValue::Str(value.to_string()), span: span() }
}

#[allow(dead_code)]
fn name_value(name: &str, lit: Lit) -> NestedMeta {
    NestedMeta::Meta(Meta::NameValue(MetaNameValue { path: path(name), lit, span: span() }))
}

#[allow(dead_code)]
fn list(name: &str, nested: Vec<NestedMeta>) -> NestedMeta {
    NestedMeta::Meta(Meta::List(MetaList { path: path(name), nested, span: span() }))
}

#[allow(dead_code)]
fn flag(name: &str) -> NestedMeta {
    NestedMeta::Meta(Meta::Path(path(name)))
}

/// `#[validate(..)]` with the given items.
#[allow(dead_code)]
fn validate(nested: Vec<NestedMeta>) -> Attribute {
    Attribute {
        path: path("validate"),
        meta: Ok(Meta::List(MetaList { path: path("validate"), nested, span: span() })),
        span: span(),
    }
}

/// The bare `#[validate]`.
#[allow(dead_code)]
fn validate_nested() -> Attribute {
    Attribute { path: path("validate"), meta: Ok(Meta::Path(path("validate"))), span: span() }
}

#[allow(dead_code)]
fn named(name: &str) -> Type {
    Type::Path(TypePath {
        qself: false,
        segments: vec![PathSegment { ident: name.to_string(), arguments: PathArguments::Absent }],
        span: span(),
    })
}

#[allow(dead_code)]
fn generic(name: &str, argument: Type) -> Type {
    Type::Path(TypePath {
        qself: false,
        segments: vec![PathSegment {
            ident: name.to_string(),
            arguments: PathArguments::AngleBracketed(vec![GenericArgument::Type(argument)]),
        }],
        span: span(),
    })
}

#[allow(dead_code)]
fn some(value: Value) -> Value {
    Value::Opt(Some(Box::new(value)))
}

#[allow(dead_code)]
fn text(value: &str) -> Value {
    Value::Text(value.to_string())
}

/// The field `name` of type `ty` with its declarations and its value.
#[allow(dead_code)]
fn object_field(name: &str, ty: &Type, attributes: Vec<Attribute>, value: Value) -> ObjectField {
    let field = Field {
        name: name.to_string(),
        ident: Ident { name: name.to_string(), span: span() },
        ty,
    };
    let validators =
        extract_field_validators(&field, &attributes).expect("the declarations compile");
    ObjectField { name: name.to_string(), validators, value }
}

/// A struct with the one field `val`.
#[allow(dead_code)]
fn test_struct(ty: &Type, attributes: Vec<Attribute>, value: Value) -> Object {
    Object { fields: vec![object_field("val", ty, attributes, value)], custom: vec![], new_type: false }
}

/// Validates a struct with the one field `val`.
#[allow(dead_code)]
fn check(ty: &Type, attributes: Vec<Attribute>, value: Value) -> Result<(), Errors> {
    test_struct(ty, attributes, value).validate()
}

use serde_valid::types::TypeReference;
use serde_valid::{MaxLengthErrorParams, MinLengthErrorParams, ValidateMaxLength, ValidateMinLength};
use std::borrow::Cow;

/// `std::path::<name>`.
fn std_path(name: &str) -> Type {
    Type::Path(TypePath {
        qself: false,
        segments: vec![
            PathSegment { ident: "std".to_string(), arguments: PathArguments::Absent },
            PathSegment { ident: "path".to_string(), arguments: PathArguments::Absent },
            PathSegment { ident: name.to_string(), arguments: PathArguments::Absent },
        ],
        span: span(),
    })
}

#[test]
fn length_string_type() {
    let result = check(
        &named("String"),
        vec![
            validate(vec![name_value("min_length", integer(4))]),
            validate(vec![name_value("max_length", integer(4))]),
        ],
        text("test"),
    );
    assert!(result.is_ok());
}

#[test]
fn length_str_type() {
    let result = check(
        &Type::Reference(TypeReference { elem: Box::new(named("str")), span: span() }),
        vec![
            validate(vec![name_value("min_length", integer(4))]),
            validate(vec![name_value("max_length", integer(4))]),
        ],
        text("test"),
    );
    assert!(result.is_ok());
}

#[test]
fn length_cow_str_type() {
    let result = check(
        &named("Cow"),
        vec![
            validate(vec![name_value("min_length", integer(4))]),
            validate(vec![name_value("max_length", integer(4))]),
        ],
        text(&Cow::from("test")),
    );
    assert!(result.is_ok());
}

#[test]
fn length_path_type() {
    let result = check(
        &Type::Reference(TypeReference { elem: Box::new(std_path("Path")), span: span() }),
        vec![
            validate(vec![name_value("min_length", integer(13))]),
            validate(vec![name_value("max_length", integer(13))]),
        ],
        text(&std::path::Path::new("./foo/bar.txt").to_string_lossy()),
    );
    assert!(result.is_ok());
}

#[test]
fn length_path_buf_type() {
    let result = check(
        &std_path("PathBuf"),
        vec![
            validate(vec![name_value("min_length", integer(13))]),
            validate(vec![name_value("max_length", integer(13))]),
        ],
        text(&std::path::PathBuf::from("./foo/bar.txt").to_string_lossy()),
    );
    assert!(result.is_ok());
}

#[test]
fn length_min_length_is_ok() {
    let result = check(
        &named("String"),
        vec![
            validate(vec![name_value("min_length", integer(0))]),
            validate(vec![name_value("max_length", integer(10))]),
        ],
        Value::Text(String::new()),
    );
    assert!(result.is_ok());
}

#[test]
fn length_min_length_is_err() {
    let result = check(
        &named("String"),
        vec![
            validate(vec![name_value("min_length", integer(1))]),
            validate(vec![name_value("max_length", integer(10))]),
        ],
        Value::Text(String::new()),
    );
    assert!(result.is_err());
}

#[test]
fn length_max_length_is_ok() {
    let result = check(
        &named("String"),
        vec![
            validate(vec![name_value("min_length", integer(0))]),
            validate(vec![name_value("max_length", integer(5))]),
        ],
        Value::Text(String::from("abcde")),
    );
    assert!(result.is_ok());
}

#[test]
fn length_max_length_is_err() {
    let result = check(
        &named("String"),
        vec![
            validate(vec![name_value("min_length", integer(1))]),
            validate(vec![name_value("max_length", integer(3))]),
        ],
        Value::Text(String::from("abcd")),
    );
    assert!(result.is_err());
}

#[test]
fn length_vec_type_is_ok() {
    let result = check(
        &generic("Vec", named("String")),
        vec![
            validate(vec![name_value("min_length", integer(0))]),
            validate(vec![name_value("min_length", integer(0))]),
        ],
        Value::List(vec![text("abcd"), text("efg")]),
    );
    assert!(result.is_ok());
}

#[test]
fn length_nested_vec_type_is_ok() {
    let result = check(
        &generic("Vec", generic("Vec", named("String"))),
        vec![
            validate(vec![name_value("min_length", integer(0))]),
            validate(vec![name_value("max_length", integer(3))]),
        ],
        Value::List(vec![
            Value::List(vec![text(""), text("1")]),
            Value::List(vec![text("12"), text("123")]),
        ]),
    );
    assert!(result.is_ok());
}

#[test]
fn length_option_type_is_ok() {
    let result = check(
        &generic("Option", named("String")),
        vec![
            validate(vec![name_value("min_length", integer(0))]),
            validate(vec![name_value("max_length", integer(5))]),
        ],
        some(text("abcd")),
    );
    assert!(result.is_ok());
}

#[test]
fn length_nested_option_type_is_ok() {
    let result = check(
        &generic("Option", generic("Option", named("String"))),
        vec![
            validate(vec![name_value("min_length", integer(0))]),
            validate(vec![name_value("max_length", integer(5))]),
        ],
        some(some(text("abcd"))),
    );
    assert!(result.is_ok());
}

#[test]
fn length_vec_optional_type_is_ok() {
    let result = check(
        &generic("Vec", generic("Option", named("String"))),
        vec![
            validate(vec![name_value("min_length", integer(0))]),
            validate(vec![name_value("max_length", integer(5))]),
        ],
        Value::List(vec![some(text("abc")), some(text("abcde")), Value::Opt(None)]),
    );
    assert!(result.is_ok());
}

#[test]
fn length_trait() {
    struct MyType(String);

    impl ValidateMaxLength for MyType {
        fn validate_max_length(&self, max_length: usize) -> Result<(), MaxLengthErrorParams> {
            self.0.validate_max_length(max_length)
        }
    }

    impl ValidateMinLength for MyType {
        fn validate_min_length(&self, min_length: usize) -> Result<(), MinLengthErrorParams> {
            self.0.validate_min_length(min_length)
        }
    }

    let val = MyType(String::from("😍👺🙋🏽👨‍🎤👨‍👩‍👧‍👦"));

    assert!(val.validate_min_length(5).is_ok());
    assert!(val.validate_max_length(5).is_ok());
}
