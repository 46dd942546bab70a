use serde_valid::field::Field;
use serde_valid::syntax::{
    Attribute, Ident, Lit, LitValue, Meta, MetaList, MetaNameValue, NestedMeta, Path, Span,
};
use serde_valid::types::{GenericArgument, PathArguments, PathSegment, Type, TypePath};
use serde_valid::validation::value::{Object, ObjectField, Value};
use serde_valid::{extract_field_validators, Errors, Validate};

fn span() -> Span {
    Span { start: 0, end: 0 }
}

fn path(name: &str) -> Path {
    Path { segments: vec![name.to_string()], span: span() }
}

#[allow(dead_code)]
fn integer(value: i128) -> Lit {
    Lit { value: LitValue::Int(value), span: span() }
}

#[allow(dead_code)]
fn string(value: &str) -> Lit {
    Lit { value: LitValue::Str(value.to_string()), span: span() }
}

#[allow(dead_code)]
fn name_value(name: &str, lit: Lit) -> NestedMeta {
    NestedMeta::Meta(Meta::NameValue(MetaNameValue { path: path(name), lit, span: span() }))
}

#[allow(dead_code)]
fn list(name: &str, nested: Vec<NestedMeta>) -> NestedMeta {
    NestedMeta::Meta(Meta::List(MetaList { path: path(name), nested, span: span() }))
}

#[allow(dead_code)]
fn flag(name: &str) -> NestedMeta {
    NestedMeta::Meta(Meta::Path(path(name)))
}

/// `#[validate(..)]` with the given items.
#[allow(dead_code)]
fn validate(nested: Vec<NestedMeta>) -> Attribute {
    Attribute {
        path: path("validate"),
        meta: Ok(Meta::List(MetaList { path: path("validate"), nested, span: span() })),
        span: span(),
    }
}

/// The bare `#[validate]`.
#[allow(dead_code)]
fn validate_nested() -> Attribute {
    Attribute { path: path("validate"), meta: Ok(Meta::Path(path("validate"))), span: span() }
}

#[allow(dead_code)]
fn named(name: &str) -> Type {
    Type::Path(TypePath {
        qself: false,
        segments: vec![PathSegment { ident: name.to_string(), arguments: PathArguments::Absent }],
        span: span(),
    })
}

#[allow(dead_code)]
fn generic(name: &str, argument: Type) -> Type {
    Type::Path(TypePath {
        qself: false,
        segments: vec![PathSegment {
            ident: name.to_string(),
            arguments: PathArguments::AngleBracketed(vec![GenericArgument::Type(argument)]),
        }],
        span: span(),
    })
}

#[allow(dead_code)]
fn some(value: Value) -> Value {
    Value::Opt(Some(Box::new(value)))
}

#[allow(dead_code)]
fn text(value: &str) -> Value {
    Value::Text(value.to_string())
}

/// The field `name` of type `ty` with its declarations and its value.
#[allow(dead_code)]
fn object_field(name: &str, ty: &Type, attributes: Vec<Attribute>, value: Value) -> ObjectField {
    let field = Field {
        name: name.to_string(),
        ident: Ident { name: name.to_string(), span: span() },
        ty,
    };
    let validators =
        extract_field_validators(&field, &attributes).expect("the declarations compile");
    ObjectField { name: name.to_string(), validators, value }
}

/// A struct with the one field `val`.
#[allow(dead_code)]
fn test_struct(ty: &Type, attributes: Vec<Attribute>, value: Value) -> Object {
    Object { fields: vec![object_field("val", ty, attributes, value)], custom: vec![], new_type: false }
}

/// Validates a struct with the one field `val`.
#[allow(dead_code)]
fn check(ty: &Type, attributes: Vec<Attribute>, value: Value) -> Result<(), Errors> {
    test_struct(ty, attributes, value).validate()
}

use serde_valid::validation::apply::{apply, validate_field};
use serde_valid::validation::error::{ArrayErrors, Error, FieldErrors, ItemErrors, ObjectErrors};
use serde_valid::validation::params::{Params, Violation};
use serde_valid::validator::{Check, Constraint, Message, Validator};
use serde_valid::{
    EnumerateErrorParams, MaxItemsErrorParams, MaxLengthErrorParams, MinItemsErrorParams,
    MinLengthErrorParams, MultipleOfErrorParams, PatternErrorParams,
};

fn violation(params: Params) -> Error {
    Error::Violation(Violation { params, message: Message::Default })
}

fn messages(errors: &[Error]) -> Vec<String> {
    errors
        .iter()
        .map(|error| match error {
            Error::Violation(violation) => violation.message().expect("a text"),
            Error::Custom(text) => text.clone(),
            Error::Nested(_) => panic!("a nested tree"),
        })
        .collect()
}

/// The errors of the field `val` of an object that failed.
fn field_errors(result: Result<(), Errors>) -> Errors {
    match result.unwrap_err() {
        Errors::Object(ObjectErrors { mut fields }) => {
            assert_eq!(fields.len(), 1);
            let FieldErrors { name, errors } = fields.remove(0);
            assert_eq!(name, "val");
            errors
        }
        other => panic!("not the tree of an object: {:?}", other),
    }
}

fn leaf(constraint: Constraint) -> Validator {
    Validator::Normal(Check {
        name: "val".to_string(),
        ident: Ident { name: "val".to_string(), span: span() },
        constraint,
        message: Message::Default,
    })
}

fn range(items: Vec<NestedMeta>) -> Vec<Attribute> {
    vec![validate(vec![list("range", items)])]
}

#[test]
fn an_inclusive_range_accepts_its_bounds_and_reports_the_maximum_above_it() {
    let declared = || {
        range(vec![name_value("minimum", integer(0)), name_value("maximum", integer(10))])
    };
    assert!(check(&named("i32"), declared(), Value::Int(10)).is_ok());
    assert!(check(&named("i32"), declared(), Value::Int(0)).is_ok());
    let errors = field_errors(check(&named("i32"), declared(), Value::Int(11)));
    assert_eq!(errors, Errors::NewType(vec![violation(Params::Maximum(10))]));
    let errors = field_errors(check(&named("i32"), declared(), Value::Int(-1)));
    assert_eq!(errors, Errors::NewType(vec![violation(Params::Minimum(0))]));
}

#[test]
fn a_single_bound_holds_at_exactly_its_boundary() {
    let bound = |name: &str| vec![validate(vec![name_value(name, integer(7))])];
    for (name, below, at, above) in [
        ("minimum", false, true, true),
        ("exclusive_minimum", false, false, true),
        ("maximum", true, true, false),
        ("exclusive_maximum", true, false, false),
    ] {
        assert_eq!(check(&named("i64"), bound(name), Value::Int(6)).is_ok(), below, "{}", name);
        assert_eq!(check(&named("i64"), bound(name), Value::Int(7)).is_ok(), at, "{}", name);
        assert_eq!(check(&named("i64"), bound(name), Value::Int(8)).is_ok(), above, "{}", name);
    }
}

#[test]
fn item_counts_and_a_range_stack_on_a_nested_sequence() {
    let ty = generic("Vec", generic("Vec", named("i32")));
    let declared = || {
        vec![
            validate(vec![name_value("min_items", integer(0))]),
            validate(vec![name_value("max_items", integer(4))]),
            validate(vec![list(
                "range",
                vec![name_value("minimum", integer(0)), name_value("maximum", integer(20))],
            )]),
        ]
    };
    let value = |rows: Vec<Vec<i128>>| {
        Value::List(
            rows.into_iter()
                .map(|row| Value::List(row.into_iter().map(Value::Int).collect()))
                .collect(),
        )
    };
    assert!(check(&ty, declared(), value(vec![vec![4, 8], vec![12, 16]])).is_ok());
    let errors = field_errors(check(
        &ty,
        declared(),
        value(vec![vec![4], vec![21, 8, -1], vec![], vec![0], vec![30]]),
    ));
    assert_eq!(
        errors,
        Errors::Array(ArrayErrors {
            errors: vec![violation(Params::MaxItems(MaxItemsErrorParams { max_items: 4 }))],
            items: vec![
                ItemErrors {
                    index: 1,
                    errors: Errors::Array(ArrayErrors {
                        errors: vec![],
                        items: vec![
                            ItemErrors {
                                index: 0,
                                errors: Errors::NewType(vec![violation(Params::Maximum(20))])
                            },
                            ItemErrors {
                                index: 2,
                                errors: Errors::NewType(vec![violation(Params::Minimum(0))])
                            },
                        ],
                    })
                },
                ItemErrors {
                    index: 4,
                    errors: Errors::Array(ArrayErrors {
                        errors: vec![],
                        items: vec![ItemErrors {
                            index: 0,
                            errors: Errors::NewType(vec![violation(Params::Maximum(20))])
                        }],
                    })
                },
            ],
        })
    );
}

#[test]
fn two_failing_length_bounds_give_two_messages_in_the_order_of_the_declarations() {
    let errors = field_errors(check(
        &named("String"),
        vec![
            validate(vec![name_value("min_length", integer(5))]),
            validate(vec![name_value("max_length", integer(3))]),
        ],
        text("test"),
    ));
    match errors {
        Errors::NewType(errors) => assert_eq!(
            messages(&errors),
            vec![
                "the length of the value must be `>= 5`.",
                "the length of the value must be `<= 3`.",
            ]
        ),
        other => panic!("not a list: {:?}", other),
    }
}

#[test]
fn a_literal_overrides_the_default_message_and_a_function_defers_it() {
    let errors = field_errors(check(
        &named("String"),
        vec![
            validate(vec![
                name_value("min_length", integer(5)),
                name_value("message", string("this is min custom message.")),
            ]),
            validate(vec![
                name_value("max_length", integer(3)),
                list("message_fn", vec![flag("custom_max_error_message")]),
            ]),
        ],
        text("test"),
    ));
    match errors {
        Errors::NewType(errors) => {
            assert_eq!(messages(&errors[..1]), vec!["this is min custom message."]);
            match &errors[1] {
                Error::Violation(found) => {
                    assert_eq!(found.message(), None);
                    assert_eq!(
                        found.params,
                        Params::MaxLength(MaxLengthErrorParams { max_length: 3 })
                    );
                    assert_eq!(found.message, Message::Function(path("custom_max_error_message")));
                }
                other => panic!("not a violation: {:?}", other),
            }
        }
        other => panic!("not a list: {:?}", other),
    }
}

#[test]
fn a_sequence_of_n_items_is_valid_exactly_within_its_item_counts() {
    let ty = generic("Vec", named("i32"));
    let items = |n: usize| Value::List((0..n).map(|i| Value::Int(i as i128)).collect());
    for n in 0..7 {
        let both = vec![
            validate(vec![name_value("min_items", integer(2))]),
            validate(vec![name_value("max_items", integer(4))]),
        ];
        assert_eq!(check(&ty, both, items(n)).is_ok(), 2 <= n && n <= 4);
        let min_only = vec![validate(vec![name_value("min_items", integer(2))])];
        assert_eq!(check(&ty, min_only, items(n)).is_ok(), 2 <= n);
        let max_only = vec![validate(vec![name_value("max_items", integer(4))])];
        assert_eq!(check(&ty, max_only, items(n)).is_ok(), n <= 4);
    }
    let errors = field_errors(check(
        &ty,
        vec![validate(vec![name_value("min_items", integer(2))])],
        items(1),
    ));
    assert_eq!(
        errors,
        Errors::NewType(vec![violation(Params::MinItems(MinItemsErrorParams { min_items: 2 }))])
    );
}

#[test]
fn a_sequence_of_optional_values_reports_by_index_and_presence() {
    let validator = Validator::Array(Box::new(Validator::Option(Box::new(leaf(
        Constraint::MultipleOf(serde_valid::validator::Number::Int(4)),
    )))));
    let inner = leaf(Constraint::MultipleOf(serde_valid::validator::Number::Int(4)));
    for (x, y) in [(4, 8), (5, 8), (4, 9), (5, 9)] {
        let found = apply(
            &validator,
            &Value::List(vec![some(Value::Int(x)), Value::Opt(None), some(Value::Int(y))]),
        );
        let mut items = vec![];
        let at_0 = apply(&inner, &Value::Int(x));
        if !at_0.is_empty() {
            items.push(ItemErrors { index: 0, errors: at_0 });
        }
        let at_2 = apply(&inner, &Value::Int(y));
        if !at_2.is_empty() {
            items.push(ItemErrors { index: 2, errors: at_2 });
        }
        assert_eq!(found, Errors::Array(ArrayErrors { errors: vec![], items }));
    }
    let found = apply(
        &validator,
        &Value::List(vec![some(Value::Int(5)), Value::Opt(None), some(Value::Int(8))]),
    );
    assert_eq!(
        found,
        Errors::Array(ArrayErrors {
            errors: vec![],
            items: vec![ItemErrors {
                index: 0,
                errors: Errors::NewType(vec![violation(Params::MultipleOf(
                    MultipleOfErrorParams::new(4)
                ))])
            }],
        })
    );
}

#[test]
fn a_multiple_is_told_for_every_sign() {
    let multiple = |value: i128, divisor: i128| {
        apply(
            &leaf(Constraint::MultipleOf(serde_valid::validator::Number::Int(divisor))),
            &Value::Int(value),
        )
        .is_empty()
    };
    assert!(multiple(15, 5));
    assert!(multiple(-15, 5));
    assert!(multiple(15, -5));
    assert!(multiple(-15, -5));
    assert!(multiple(0, 5));
    assert!(!multiple(16, 5));
    assert!(!multiple(-16, 5));
    assert!(!multiple(16, -5));
    assert!(multiple(i128::MIN, -1));
    assert!(multiple(i128::MIN, 2));
    assert!(!multiple(i128::MAX, 2));
    assert!(multiple(0, 0));
    assert!(!multiple(1, 0));
}

#[test]
fn a_pattern_is_held_against_a_text() {
    let declared = || vec![validate(vec![name_value("pattern", string(r"^\d{4}-\d{2}-\d{2}$"))])];
    assert!(check(&named("String"), declared(), text("2020-09-10")).is_ok());
    let errors = field_errors(check(&named("String"), declared(), text("2020/09/10")));
    assert_eq!(
        errors,
        Errors::NewType(vec![violation(Params::Pattern(PatternErrorParams {
            pattern: r"^\d{4}-\d{2}-\d{2}$".to_string()
        }))])
    );
    match errors {
        Errors::NewType(errors) => assert_eq!(
            messages(&errors),
            vec![r#"the value must match the pattern of "^\d{4}-\d{2}-\d{2}$"."#]
        ),
        other => panic!("not a list: {:?}", other),
    }
    // A pattern that does not compile matches nothing.
    let broken = leaf(Constraint::Pattern("foo(bar".to_string()));
    assert!(!apply(&broken, &text("foo(bar")).is_empty());
}

#[test]
fn the_parameters_of_a_pattern_hold_the_string_it_was_compiled_from() {
    let regex = regex::Regex::new(r"foo\w+bar").unwrap();
    assert_eq!(PatternErrorParams::new(&regex).pattern, r"foo\w+bar");
}

#[test]
fn a_value_is_held_against_the_members_of_an_enumeration() {
    let numbers = || {
        vec![validate(vec![list(
            "enumerate",
            vec![
                NestedMeta::Lit(integer(1)),
                NestedMeta::Lit(integer(2)),
                NestedMeta::Lit(integer(3)),
            ],
        )])]
    };
    assert!(check(&named("i32"), numbers(), Value::Int(2)).is_ok());
    let errors = field_errors(check(&named("i32"), numbers(), Value::Int(4)));
    match errors {
        Errors::NewType(errors) => {
            assert_eq!(messages(&errors), vec!["the value must be in [1, 2, 3]."])
        }
        other => panic!("not a list: {:?}", other),
    }
    let texts = || {
        vec![validate(vec![list(
            "enumerate",
            vec![NestedMeta::Lit(string("a")), NestedMeta::Lit(string("b"))],
        )])]
    };
    assert!(check(&named("String"), texts(), text("b")).is_ok());
    assert!(check(&named("String"), texts(), text("c")).is_err());
}

#[test]
fn the_default_message_of_an_enumeration_writes_every_kind_of_literal() {
    let params = EnumerateErrorParams::new(&[
        LitValue::Int(-3),
        LitValue::Str("a b".to_string()),
        LitValue::Bool(true),
        LitValue::Char('x'),
        LitValue::Float("1.5".to_string()),
    ]);
    assert_eq!(
        serde_valid::ToDefaultMessage::to_default_message(&params),
        "the value must be in [-3, a b, true, x, 1.5]."
    );
    let one = EnumerateErrorParams::new(&[LitValue::Int(0)]);
    assert_eq!(
        serde_valid::ToDefaultMessage::to_default_message(&one),
        "the value must be in [0]."
    );
}

#[test]
fn equal_items_are_reported_by_their_indices() {
    let ty = generic("Vec", named("i32"));
    let declared = || vec![validate(vec![flag("unique_items")])];
    let items = |values: &[i128]| Value::List(values.iter().map(|i| Value::Int(*i)).collect());
    assert!(check(&ty, declared(), items(&[1, 2, 3])).is_ok());
    assert!(check(&ty, declared(), items(&[])).is_ok());
    let errors = field_errors(check(&ty, declared(), items(&[1, 2, 3, 2, 1])));
    assert_eq!(
        errors,
        Errors::NewType(vec![violation(Params::UniqueItems { first: 1, second: 3 })])
    );
    match errors {
        Errors::NewType(errors) => assert_eq!(messages(&errors), vec!["items must be unique."]),
        other => panic!("not a list: {:?}", other),
    }
}

#[test]
fn a_value_of_another_kind_than_declared_is_a_mismatch() {
    let errors = apply(&leaf(Constraint::MinLength(1)), &Value::Int(3));
    assert_eq!(errors, Errors::NewType(vec![violation(Params::Mismatch)]));
    let errors = apply(&Validator::Array(Box::new(leaf(Constraint::MinLength(1)))), &text("a"));
    assert_eq!(errors, Errors::NewType(vec![violation(Params::Mismatch)]));
    let errors = apply(&Validator::Option(Box::new(leaf(Constraint::MinLength(1)))), &text("a"));
    assert_eq!(errors, Errors::NewType(vec![violation(Params::Mismatch)]));
    let errors = apply(&leaf(Constraint::Nested), &text("a"));
    assert_eq!(errors, Errors::NewType(vec![violation(Params::Mismatch)]));
    assert_eq!(
        serde_valid::ToDefaultMessage::to_default_message(&Params::Mismatch),
        "the value is not of the declared type."
    );
}

#[test]
fn an_absent_value_is_valid() {
    let validator = Validator::Option(Box::new(leaf(Constraint::MinLength(100))));
    assert!(apply(&validator, &Value::Opt(None)).is_empty());
    assert!(!apply(&validator, &some(text("short"))).is_empty());
}

/// `Inner { val: i32 }` with `maximum = 0` on its field.
fn inner(value: i128, new_type: bool) -> Value {
    Value::Object(Object {
        fields: vec![object_field(
            if new_type { "0" } else { "val" },
            &named("i32"),
            vec![validate(vec![name_value("maximum", integer(0))])],
            Value::Int(value),
        )],
        custom: vec![],
        new_type,
    })
}

#[test]
fn the_violations_of_a_nested_object_keep_their_structure() {
    let errors = field_errors(check(&named("Inner"), vec![validate_nested()], inner(5, false)));
    assert_eq!(
        errors,
        Errors::NewType(vec![Error::Nested(Errors::Object(ObjectErrors {
            fields: vec![FieldErrors {
                name: "val".to_string(),
                errors: Errors::NewType(vec![violation(Params::Maximum(0))])
            }]
        }))])
    );
    assert!(check(&named("Inner"), vec![validate_nested()], inner(0, false)).is_ok());
}

#[test]
fn the_violations_of_a_nested_new_type_are_those_of_its_field() {
    let errors = field_errors(check(&named("Inner"), vec![validate_nested()], inner(5, true)));
    assert_eq!(errors, Errors::NewType(vec![violation(Params::Maximum(0))]));
    match errors {
        Errors::NewType(errors) => {
            assert_eq!(messages(&errors), vec!["the number must be `<= 0`."])
        }
        other => panic!("not a list: {:?}", other),
    }
}

#[test]
fn nested_objects_in_a_sequence_report_under_their_index() {
    let errors = field_errors(check(
        &generic("Vec", named("Inner")),
        vec![validate_nested(), validate(vec![name_value("min_items", integer(3))])],
        Value::List(vec![inner(0, false), inner(5, true)]),
    ));
    assert_eq!(
        errors,
        Errors::Array(ArrayErrors {
            errors: vec![violation(Params::MinItems(MinItemsErrorParams { min_items: 3 }))],
            items: vec![ItemErrors {
                index: 1,
                errors: Errors::NewType(vec![violation(Params::Maximum(0))])
            }],
        })
    );
}

#[test]
fn what_the_custom_rules_reported_stands_beside_the_fields() {
    let object = Object {
        fields: vec![
            object_field(
                "a",
                &named("i32"),
                vec![validate(vec![name_value("maximum", integer(0))])],
                Value::Int(1),
            ),
            object_field(
                "b",
                &named("i32"),
                vec![validate(vec![name_value("maximum", integer(0))])],
                Value::Int(0),
            ),
        ],
        custom: vec!["a and b must differ.".to_string()],
        new_type: false,
    };
    assert_eq!(
        object.validate(),
        Err(Errors::Object(ObjectErrors {
            fields: vec![
                FieldErrors {
                    name: "a".to_string(),
                    errors: Errors::NewType(vec![violation(Params::Maximum(0))])
                },
                FieldErrors {
                    name: "@rules".to_string(),
                    errors: Errors::NewType(vec![Error::Custom("a and b must differ.".to_string())])
                },
            ]
        }))
    );
    let new_type = Object {
        fields: vec![object_field(
            "0",
            &named("i32"),
            vec![validate(vec![name_value("maximum", integer(0))])],
            Value::Int(1),
        )],
        custom: vec!["odd.".to_string()],
        new_type: true,
    };
    assert_eq!(
        new_type.validate(),
        Err(Errors::NewType(vec![
            violation(Params::Maximum(0)),
            Error::Custom("odd.".to_string())
        ]))
    );
}

#[test]
fn every_declaration_on_a_field_is_applied() {
    let field = object_field(
        "val",
        &generic("Vec", named("String")),
        vec![
            validate(vec![name_value("min_length", integer(2))]),
            validate(vec![name_value("max_items", integer(1))]),
            validate(vec![name_value("max_length", integer(3))]),
        ],
        Value::List(vec![text("a"), text("abcd")]),
    );
    assert_eq!(
        validate_field(&field),
        Errors::Array(ArrayErrors {
            errors: vec![violation(Params::MaxItems(MaxItemsErrorParams { max_items: 1 }))],
            items: vec![
                ItemErrors {
                    index: 0,
                    errors: Errors::NewType(vec![violation(Params::MinLength(
                        MinLengthErrorParams { min_length: 2 }
                    ))])
                },
                ItemErrors {
                    index: 1,
                    errors: Errors::NewType(vec![violation(Params::MaxLength(
                        MaxLengthErrorParams { max_length: 3 }
                    ))])
                },
            ],
        })
    );
}

#[test]
fn a_length_counts_characters_as_a_reader_sees_them() {
    let declared = || {
        vec![
            validate(vec![name_value("min_length", integer(2))]),
            validate(vec![name_value("max_length", integer(2))]),
        ]
    };
    // "e" with a combining acute accent, then a flag of two regional indicators.
    assert!(check(&named("String"), declared(), text("e\u{301}🇷🇺")).is_ok());
    assert!(check(&named("String"), declared(), text("abc")).is_err());
}
