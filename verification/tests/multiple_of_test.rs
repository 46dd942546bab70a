use serde_valid::field::Field;
use serde_valid::syntax::{
    Attribute, Ident, Lit, LitValue, Meta, MetaList, MetaNameValue, NestedMeta, Path, Span,
};
use serde_valid::types::{GenericArgument, PathArguments, PathSegment, Type, TypePath};
use serde_valid::validation::value::{Object, ObjectField, Value};
use serde_valid::{extract_field_validators, Errors, Validate};

fn span() -> Span {
    Span { start: 0, end: 0 }
}

fn path(name: &str) -> Path {
    Path { segments: vec![name.to_string()], span: span() }
}

#[allow(dead_code)]
fn integer(value: i128) -> Lit {
    Lit { value: LitValue::Int(value), span: span() }
}

#[allow(dead_code)]
fn string(value: &str) -> Lit {
    Lit { value: LitValue::Str(value.to_string()), span: span() }
}

#[allow(dead_code)]
fn name_value(name: &str, lit: Lit) -> NestedMeta {
    NestedMeta::Meta(Meta::NameValue(MetaNameValue { path: path(name), lit, span: span() }))
}

#[allow(dead_code)]
fn list(name: &str, nested: Vec<NestedMeta>) -> NestedMeta {
    NestedMeta::Meta(Meta::List(MetaList { path: path(name), nested, span: span() }))
}

#[allow(dead_code)]
fn flag(name: &str) -> NestedMeta {
    NestedMeta::Meta(Meta::Path(path(name)))
}

/// `#[validate(..)]` with the given items.
#[allow(dead_code)]
fn validate(nested: Vec<NestedMeta>) -> Attribute {
    Attribute {
        path: path("validate"),
        meta: Ok(Meta::List(MetaList { path: path("validate"), nested, span: span() })),
        span: span(),
    }
}

/// The bare `#[validate]`.
#[allow(dead_code)]
fn validate_nested() -> Attribute {
    Attribute { path: path("validate"), meta: Ok(Meta::Path(path("validate"))), span: span() }
}

#[allow(dead_code)]
fn named(name: &str) -> Type {
    Type::Path(TypePath {
        qself: false,
        segments: vec![PathSegment { ident: name.to_string(), arguments: PathArguments::Absent }],
        span: span(),
    })
}

#[allow(dead_code)]
fn generic(name: &str, argument: Type) -> Type {
    Type::Path(TypePath {
        qself: false,
        segments: vec![PathSegment {
            ident: name.to_string(),
            arguments: PathArguments::AngleBracketed(vec![GenericArgument::Type(argument)]),
        }],
        span: span(),
    })
}

#[allow(dead_code)]
fn some(value: Value) -> Value {
    Value::Opt(Some(Box::new(value)))
}

#[allow(dead_code)]
fn text(value: &str) -> Value {
    Value::Text(value.to_string())
}

/// The field `name` of type `ty` with its declarations and its value.
#[allow(dead_code)]
fn object_field(name: &str, ty: &Type, attributes: Vec<Attribute>, value: Value) -> ObjectField {
    let field = Field {
        name: name.to_string(),
        ident: Ident { name: name.to_string(), span: span() },
        ty,
    };
    let validators =
        extract_field_validators(&field, &attributes).expect("the declarations compile");
    ObjectField { name: name.to_string(), validators, value }
}

/// A struct with the one field `val`.
#[allow(dead_code)]
fn test_struct(ty: &Type, attributes: Vec<Attribute>, value: Value) -> Object {
    Object { fields: vec![object_field("val", ty, attributes, value)], custom: vec![], new_type: false }
}

/// Validates a struct with the one field `val`.
#[allow(dead_code)]
fn check(ty: &Type, attributes: Vec<Attribute>, value: Value) -> Result<(), Errors> {
    test_struct(ty, attributes, value).validate()
}

use serde_valid::{MultipleOfErrorParams, ValidateMultipleOf};

#[test]
fn multiple_of_integer_is_ok() {
    let result = check(
        &named("i32"),
        vec![validate(vec![name_value("multiple_of", integer(5))])],
        Value::Int(15),
    );
    assert!(result.is_ok());
}

#[test]
fn multiple_of_integer_is_err() {
    let result = check(
        &named("i32"),
        vec![validate(vec![name_value("multiple_of", integer(3))])],
        Value::Int(16),
    );
    assert!(result.is_err());
}

#[test]
fn multiple_of_vec_type_is_ok() {
    let result = check(
        &generic("Vec", named("i32")),
        vec![validate(vec![name_value("multiple_of", integer(4))])],
        Value::List(vec![Value::Int(12), Value::Int(16)]),
    );
    assert!(result.is_ok());
}

#[test]
fn multiple_of_nested_vec_type_is_ok() {
    let result = check(
        &generic("Vec", generic("Vec", named("i32"))),
        vec![validate(vec![name_value("multiple_of", integer(4))])],
        Value::List(vec![
            Value::List(vec![Value::Int(4), Value::Int(8)]),
            Value::List(vec![Value::Int(12), Value::Int(16)]),
        ]),
    );
    assert!(result.is_ok());
}

#[test]
fn multiple_of_optional_type_is_ok() {
    let result = check(
        &generic("Option", named("i32")),
        vec![validate(vec![name_value("multiple_of", integer(4))])],
        some(Value::Int(12)),
    );
    assert!(result.is_ok());
}

#[test]
fn multiple_of_nested_optional_type_is_ok() {
    let result = check(
        &generic("Option", generic("Option", named("i32"))),
        vec![validate(vec![name_value("multiple_of", integer(4))])],
        some(some(Value::Int(12))),
    );
    assert!(result.is_ok());
}

#[test]
fn multiple_of_vec_optional_type_is_ok() {
    let result = check(
        &generic("Vec", generic("Option", named("i32"))),
        vec![validate(vec![name_value("multiple_of", integer(4))])],
        Value::List(vec![some(Value::Int(4)), some(Value::Int(8)), Value::Opt(None)]),
    );
    assert!(result.is_ok());
}

#[test]
fn multiple_of_trait() {
    struct MyType(i32);

    impl ValidateMultipleOf<i32> for MyType {
        fn validate_multiple_of(&self, multiple_of: i32) -> Result<(), MultipleOfErrorParams> {
            self.0.validate_multiple_of(multiple_of)
        }
    }

    let val = MyType(10);

    assert!(val.validate_multiple_of(5).is_ok());
}

#[test]
fn test_validate_numeric_multiple_of_integer_is_true() {
    assert!(ValidateMultipleOf::validate_multiple_of(&10, 5).is_ok());
}

#[test]
fn test_validate_numeric_multiple_of_integer_is_false() {
    assert!(ValidateMultipleOf::validate_multiple_of(&10, 3).is_err());
}
