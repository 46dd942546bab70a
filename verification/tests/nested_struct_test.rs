use serde_valid::field::Field;
use serde_valid::syntax::{
    Attribute, Ident, Lit, LitValue, Meta, MetaList, MetaNameValue, NestedMeta, Path, Span,
};
use serde_valid::types::{GenericArgument, PathArguments, PathSegment, Type, TypePath};
use serde_valid::validation::value::{Object, ObjectField, Value};
use serde_valid::{extract_field_validators, Errors, Validate};

fn span() -> Span {
    Span { start: 0, end: 0 }
}

fn path(name: &str) -> Path {
    Path { segments: vec![name.to_string()], span: span() }
}

#[allow(dead_code)]
fn integer(value: i128) -> Lit {
    Lit { value: LitValue::Int(value), span: span() }
}

#[allow(dead_code)]
fn string(value: &str) -> Lit {
    Lit { value: LitValue::Str(value.to_string()), span: span() }
}

#[allow(dead_code)]
fn name_value(name: &str, lit: Lit) -> NestedMeta {
    NestedMeta::Meta(Meta::NameValue(MetaNameValue { path: path(name), lit, span: span() }))
}

#[allow(dead_code)]
fn list(name: &str, nested: Vec<NestedMeta>) -> NestedMeta {
    NestedMeta::Meta(Meta::List(MetaList { path: path(name), nested, span: span() }))
}

#[allow(dead_code)]
fn flag(name: &str) -> NestedMeta {
    NestedMeta::Meta(Meta::Path(path(name)))
}

/// `#[validate(..)]` with the given items.
#[allow(dead_code)]
fn validate(nested: Vec<NestedMeta>) -> Attribute {
    Attribute {
        path: path("validate"),
        meta: Ok(Meta::List(MetaList { path: path("validate"), nested, span: span() })),
        span: span(),
    }
}

/// The bare `#[validate]`.
#[allow(dead_code)]
fn validate_nested() -> Attribute {
    Attribute { path: path("validate"), meta: Ok(Meta::Path(path("validate"))), span: span() }
}

#[allow(dead_code)]
fn named(name: &str) -> Type {
    Type::Path(TypePath {
        qself: false,
        segments: vec![PathSegment { ident: name.to_string(), arguments: PathArguments::Absent }],
        span: span(),
    })
}

#[allow(dead_code)]
fn generic(name: &str, argument: Type) -> Type {
    Type::Path(TypePath {
        qself: false,
        segments: vec![PathSegment {
            ident: name.to_string(),
            arguments: PathArguments::AngleBracketed(vec![GenericArgument::Type(argument)]),
        }],
        span: span(),
    })
}

#[allow(dead_code)]
fn some(value: Value) -> Value {
    Value::Opt(Some(Box::new(value)))
}

#[allow(dead_code)]
fn text(value: &str) -> Value {
    Value::Text(value.to_string())
}

/// The field `name` of type `ty` with its declarations and its value.
#[allow(dead_code)]
fn object_field(name: &str, ty: &Type, attributes: Vec<Attribute>, value: Value) -> ObjectField {
    let field = Field {
        name: name.to_string(),
        ident: Ident { name: name.to_string(), span: span() },
        ty,
    };
    let validators =
        extract_field_validators(&field, &attributes).expect("the declarations compile");
    ObjectField { name: name.to_string(), validators, value }
}

/// A struct with the one field `val`.
#[allow(dead_code)]
fn test_struct(ty: &Type, attributes: Vec<Attribute>, value: Value) -> Object {
    Object { fields: vec![object_field("val", ty, attributes, value)], custom: vec![], new_type: false }
}

/// Validates a struct with the one field `val`.
#[allow(dead_code)]
fn check(ty: &Type, attributes: Vec<Attribute>, value: Value) -> Result<(), Errors> {
    test_struct(ty, attributes, value).validate()
}

/// `TestInnerStruct { inner_val }` with `min_items = 4` and `max_items = 4` on its field.
fn inner_struct(inner_val: Vec<i128>) -> Value {
    Value::Object(Object {
        fields: vec![object_field(
            "inner_val",
            &generic("Vec", named("i32")),
            vec![
                validate(vec![name_value("min_items", integer(4))]),
                validate(vec![name_value("max_items", integer(4))]),
            ],
            Value::List(inner_val.into_iter().map(Value::Int).collect()),
        )],
        custom: vec![],
        new_type: false,
    })
}

#[test]
fn nested_validate() {
    let s = test_struct(
        &named("TestInnerStruct"),
        vec![validate_nested()],
        inner_struct(vec![1, 2, 3, 4]),
    );
    assert!(s.validate().is_ok());
}

#[test]
fn nested_validate_vec_type() {
    let s = test_struct(
        &generic("Vec", named("TestInnerStruct")),
        vec![
            validate_nested(),
            validate(vec![name_value("min_items", integer(2))]),
            validate(vec![name_value("max_items", integer(2))]),
        ],
        Value::List(vec![inner_struct(vec![1, 2, 3, 4]), inner_struct(vec![5, 6, 7, 8])]),
    );
    assert!(s.validate().is_ok());
}

#[test]
fn nested_validate_option_type() {
    let s = test_struct(
        &generic("Option", named("TestInnerStruct")),
        vec![validate_nested()],
        some(inner_struct(vec![1, 2, 3, 4])),
    );
    assert!(s.validate().is_ok());
}

use serde_valid::validation::error::Error;

/// The violations as a structured record: a list of messages for a scalar,
/// the own messages and the items by index for a sequence, the fields by
/// name for an object.
fn record(errors: &Errors) -> serde_json::Value {
    let list = |errors: &Vec<Error>| {
        serde_json::Value::Array(
            errors
                .iter()
                .map(|error| match error {
                    Error::Violation(violation) => {
                        serde_json::Value::String(violation.message().expect("a text"))
                    }
                    Error::Nested(nested) => record(nested),
                    Error::Custom(text) => serde_json::Value::String(text.clone()),
                })
                .collect(),
        )
    };
    match errors {
        Errors::NewType(errors) => list(errors),
        Errors::Array(array) => {
            let mut items = serde_json::Map::new();
            for item in &array.items {
                items.insert(item.index.to_string(), record(&item.errors));
            }
            let mut map = serde_json::Map::new();
            map.insert("errors".to_string(), list(&array.errors));
            map.insert("items".to_string(), serde_json::Value::Object(items));
            serde_json::Value::Object(map)
        }
        Errors::Object(object) => {
            let mut map = serde_json::Map::new();
            for field in &object.fields {
                map.insert(field.name.clone(), record(&field.errors));
            }
            serde_json::Value::Object(map)
        }
    }
}

/// A struct or a variant whose fields are `i32` with `maximum = 0`.
fn fields_struct(fields: Vec<(&str, i128)>, new_type: bool) -> Value {
    Value::Object(Object {
        fields: fields
            .into_iter()
            .map(|(name, value)| {
                object_field(
                    name,
                    &named("i32"),
                    vec![validate(vec![name_value("maximum", integer(0))])],
                    Value::Int(value),
                )
            })
            .collect(),
        custom: vec![],
        new_type,
    })
}

fn messages(texts: &[&str]) -> serde_json::Value {
    serde_json::Value::Array(
        texts.iter().map(|text| serde_json::Value::String(text.to_string())).collect(),
    )
}

fn object_of(fields: Vec<(&str, serde_json::Value)>) -> serde_json::Value {
    serde_json::Value::Object(
        fields.into_iter().map(|(name, value)| (name.to_string(), value)).collect(),
    )
}

#[test]
fn nested_validate_err_message() {
    let nested = |name: &str, ty: &str, value: Value| {
        object_field(name, &named(ty), vec![validate_nested()], value)
    };
    let s = Object {
        fields: vec![
            nested(
                "named_fields_struct",
                "StructNamedFields",
                fields_struct(vec![("val", 5)], false),
            ),
            nested(
                "unnamed_fields_struct",
                "StructUnnamedFields",
                fields_struct(vec![("0", 5), ("1", 5)], false),
            ),
            nested(
                "single_unnamed_fields_struct",
                "StructSingleUnnamedFields",
                fields_struct(vec![("0", 5)], true),
            ),
            nested("named_fields_enum", "EnumNamedFields", fields_struct(vec![("val", 5)], false)),
            nested(
                "unnamed_fields_enum",
                "EnumUnnamedFields",
                fields_struct(vec![("0", 5), ("1", 5)], false),
            ),
            nested(
                "single_unnamed_fields_enum",
                "EnumSingleUnnamedFields",
                fields_struct(vec![("0", 5)], true),
            ),
        ],
        custom: vec![],
        new_type: false,
    };

    let too_large = || messages(&["the number must be `<= 0`."]);
    assert_eq!(
        record(&s.validate().unwrap_err()),
        object_of(vec![
            (
                "named_fields_struct",
                serde_json::Value::Array(vec![object_of(vec![("val", too_large())])])
            ),
            (
                "unnamed_fields_struct",
                serde_json::Value::Array(vec![object_of(vec![
                    ("0", too_large()),
                    ("1", too_large())
                ])])
            ),
            ("single_unnamed_fields_struct", too_large()),
            (
                "named_fields_enum",
                serde_json::Value::Array(vec![object_of(vec![("val", too_large())])])
            ),
            (
                "unnamed_fields_enum",
                serde_json::Value::Array(vec![object_of(vec![
                    ("0", too_large()),
                    ("1", too_large())
                ])])
            ),
            ("single_unnamed_fields_enum", too_large()),
        ])
    );
}
