use serde_valid::diagnostic::{Diagnostic, DiagnosticKind, MetaClass};
use serde_valid::field::Field;
use serde_valid::syntax::{
    Attribute, Ident, Lit, LitValue, Meta, MetaList, MetaNameValue, NestedMeta, Path, Span,
};
use serde_valid::types::{GenericArgument, PathArguments, PathSegment, Type, TypeArray, TypePath};
use serde_valid::validator::{Bound, Check, Constraint, Message, Number, Validator};
use serde_valid::{extract_field_validators, extract_message_fn_tokens, extract_meta_validator};

fn at(start: usize) -> Span {
    Span { start, end: start + 1 }
}

fn path(name: &str, start: usize) -> Path {
    Path { segments: vec![name.to_string()], span: at(start) }
}

fn integer(value: i128, start: usize) -> Lit {
    Lit { value: LitValue::Int(value), span: at(start) }
}

fn string(value: &str, start: usize) -> Lit {
    Lit { value: LitValue::Str(value.to_string()), span: at(start) }
}

fn float(value: &str, start: usize) -> Lit {
    Lit { value: LitValue::Float(value.to_string()), span: at(start) }
}

fn name_value(name: &str, lit: Lit, start: usize) -> NestedMeta {
    NestedMeta::Meta(Meta::NameValue(MetaNameValue { path: path(name, start), lit, span: at(start) }))
}

fn list(name: &str, nested: Vec<NestedMeta>, start: usize) -> NestedMeta {
    NestedMeta::Meta(Meta::List(MetaList { path: path(name, start), nested, span: at(start) }))
}

fn flag(name: &str, start: usize) -> NestedMeta {
    NestedMeta::Meta(Meta::Path(path(name, start)))
}

fn validate(nested: Vec<NestedMeta>) -> Attribute {
    Attribute {
        path: path("validate", 100),
        meta: Ok(Meta::List(MetaList { path: path("validate", 100), nested, span: at(100) })),
        span: at(100),
    }
}

fn named(name: &str) -> Type {
    Type::Path(TypePath {
        qself: false,
        segments: vec![PathSegment { ident: name.to_string(), arguments: PathArguments::Absent }],
        span: at(200),
    })
}

fn generic(name: &str, argument: Type) -> Type {
    Type::Path(TypePath {
        qself: false,
        segments: vec![PathSegment {
            ident: name.to_string(),
            arguments: PathArguments::AngleBracketed(vec![GenericArgument::Type(argument)]),
        }],
        span: at(200),
    })
}

fn field(ty: &Type) -> Field<'_> {
    Field { name: "val".to_string(), ident: Ident { name: "val".to_string(), span: at(300) }, ty }
}

fn compile(ty: &Type, nested: Vec<NestedMeta>) -> Result<Validator, Vec<Diagnostic>> {
    extract_meta_validator(&field(ty), &validate(nested))
}

fn diagnostics(ty: &Type, nested: Vec<NestedMeta>) -> Vec<Diagnostic> {
    compile(ty, nested).unwrap_err()
}

fn check(ident: &str, constraint: Constraint) -> Check {
    Check {
        name: "val".to_string(),
        ident: Ident { name: ident.to_string(), span: at(300) },
        constraint,
        message: Message::Default,
    }
}

fn maximum(value: i128) -> Constraint {
    Constraint::Range {
        minimum: None,
        maximum: Some(Bound { value: Number::Int(value), exclusive: false }),
    }
}

#[test]
fn a_scalar_field_compiles_to_one_check() {
    assert_eq!(
        compile(&named("i32"), vec![name_value("maximum", integer(10, 1), 0)]),
        Ok(Validator::Normal(check("val", maximum(10))))
    );
}

#[test]
fn every_container_layer_becomes_one_layer_of_the_validator() {
    let ty = generic("Vec", generic("Option", generic("Vec", named("i32"))));
    assert_eq!(
        compile(&ty, vec![name_value("maximum", integer(10, 1), 0)]),
        Ok(Validator::Array(Box::new(Validator::Option(Box::new(Validator::Array(Box::new(
            Validator::Normal(check("__elem_elem_val", maximum(10)))
        )))))))
    );
}

#[test]
fn a_doubly_nested_sequence_compiles_to_two_array_layers() {
    let ty = generic("Vec", generic("Vec", named("i32")));
    assert_eq!(
        compile(&ty, vec![name_value("multiple_of", integer(4, 1), 0)]),
        Ok(Validator::Array(Box::new(Validator::Array(Box::new(Validator::Normal(check(
            "__elem_elem_val",
            Constraint::MultipleOf(Number::Int(4))
        )))))))
    );
}

#[test]
fn a_fixed_size_array_is_a_sequence() {
    let ty = Type::Array(TypeArray { elem: Box::new(named("u8")), span: at(200) });
    assert_eq!(
        compile(&ty, vec![name_value("minimum", integer(1, 1), 0)]),
        Ok(Validator::Array(Box::new(Validator::Normal(check(
            "__elem_val",
            Constraint::Range {
                minimum: Some(Bound { value: Number::Int(1), exclusive: false }),
                maximum: None,
            }
        )))))
    );
}

#[test]
fn item_counts_are_held_against_the_sequence_itself() {
    let ty = generic("Option", generic("Vec", generic("Vec", named("i32"))));
    assert_eq!(
        compile(&ty, vec![name_value("max_items", integer(4, 1), 0)]),
        Ok(Validator::Option(Box::new(Validator::Normal(check("val", Constraint::MaxItems(4))))))
    );
    assert_eq!(
        compile(&ty, vec![flag("unique_items", 0)]),
        Ok(Validator::Option(Box::new(Validator::Normal(check("val", Constraint::UniqueItems)))))
    );
}

#[test]
fn the_bare_attribute_hands_the_value_to_its_own_validation() {
    let attribute = Attribute {
        path: path("validate", 100),
        meta: Ok(Meta::Path(path("validate", 100))),
        span: at(100),
    };
    let ty = generic("Vec", named("Inner"));
    assert_eq!(
        extract_meta_validator(&field(&ty), &attribute),
        Ok(Validator::Array(Box::new(Validator::Normal(check("__elem_val", Constraint::Nested)))))
    );
}

#[test]
fn range_takes_each_end_once_inclusive_or_exclusive() {
    assert_eq!(
        compile(
            &named("i64"),
            vec![list(
                "range",
                vec![
                    name_value("exclusive_minimum", integer(-5, 2), 1),
                    name_value("maximum", integer(10, 4), 3),
                ],
                0
            )]
        ),
        Ok(Validator::Normal(check(
            "val",
            Constraint::Range {
                minimum: Some(Bound { value: Number::Int(-5), exclusive: true }),
                maximum: Some(Bound { value: Number::Int(10), exclusive: false }),
            }
        )))
    );
    assert_eq!(
        diagnostics(&named("i64"), vec![list("range", vec![], 0)]),
        vec![Diagnostic { kind: DiagnosticKind::RangeNeedBound, span: at(0) }]
    );
    assert_eq!(
        diagnostics(
            &named("i64"),
            vec![list(
                "range",
                vec![
                    name_value("minimum", integer(0, 2), 1),
                    name_value("exclusive_minimum", integer(1, 4), 3),
                ],
                0
            )]
        ),
        vec![Diagnostic {
            kind: DiagnosticKind::RangeBoundRepeated("exclusive_minimum".to_string()),
            span: at(3)
        }]
    );
    assert_eq!(
        diagnostics(
            &named("i64"),
            vec![list("range", vec![name_value("least", integer(0, 2), 1)], 0)]
        ),
        vec![Diagnostic {
            kind: DiagnosticKind::UnknownMeta {
                label: "least".to_string(),
                candidates: vec![
                    "minimum".to_string(),
                    "maximum".to_string(),
                    "exclusive_minimum".to_string(),
                    "exclusive_maximum".to_string(),
                ],
            },
            span: at(1)
        }]
    );
}

#[test]
fn an_unknown_constraint_lists_the_names_of_its_class() {
    let found = diagnostics(&named("i32"), vec![name_value("maximun", integer(1, 1), 0)]);
    assert_eq!(found.len(), 1);
    assert_eq!(found[0].span, at(0));
    assert_eq!(
        found[0].message(),
        "unknown constraint `maximun`: expected one of minimum, maximum, exclusive_minimum, \
         exclusive_maximum, min_length, max_length, min_items, max_items, multiple_of, pattern."
    );
    let found = diagnostics(&named("i32"), vec![flag("unique", 0)]);
    assert_eq!(
        found[0].kind,
        DiagnosticKind::UnknownMeta {
            label: "unique".to_string(),
            candidates: vec!["unique_items".to_string()]
        }
    );
    let found = diagnostics(&named("i32"), vec![list("ranges", vec![], 0)]);
    assert_eq!(found[0].message(), "unknown constraint `ranges`: expected one of range, enumerate.");
}

#[test]
fn a_known_name_in_the_wrong_class_names_the_class_it_belongs_to() {
    let found = diagnostics(&named("i32"), vec![name_value("unique_items", integer(1, 1), 0)]);
    assert_eq!(
        found,
        vec![Diagnostic {
            kind: DiagnosticKind::ClassMismatch {
                label: "unique_items".to_string(),
                expected: MetaClass::Path
            },
            span: at(0)
        }]
    );
    assert_eq!(
        found[0].message(),
        "`unique_items` must be written as the bare flag `unique_items`."
    );
    let found = diagnostics(&named("i32"), vec![flag("range", 0)]);
    assert_eq!(found[0].message(), "`range` must be written as `range(...)`.");
    let found = diagnostics(&named("i32"), vec![list("multiple_of", vec![], 0)]);
    assert_eq!(found[0].message(), "`multiple_of` must be written as `multiple_of = ...`.");
}

#[test]
fn an_attribute_without_a_constraint_does_not_compile() {
    assert_eq!(
        diagnostics(&named("i32"), vec![]),
        vec![Diagnostic { kind: DiagnosticKind::AttributeRequired, span: at(100) }]
    );
    assert_eq!(
        diagnostics(&named("i32"), vec![NestedMeta::Lit(integer(3, 0))]),
        vec![Diagnostic { kind: DiagnosticKind::LiteralMetaItem, span: at(0) }]
    );
    let attribute = Attribute {
        path: path("validate", 100),
        meta: Ok(Meta::NameValue(MetaNameValue {
            path: path("validate", 100),
            lit: integer(3, 101),
            span: at(100),
        })),
        span: at(100),
    };
    assert_eq!(
        extract_meta_validator(&field(&named("i32")), &attribute),
        Err(vec![Diagnostic { kind: DiagnosticKind::MetaNameValueItem, span: at(100) }])
    );
    let attribute =
        Attribute { path: path("validate", 100), meta: Err("bad".to_string()), span: at(100) };
    assert_eq!(
        extract_meta_validator(&field(&named("i32")), &attribute),
        Err(vec![Diagnostic {
            kind: DiagnosticKind::AttributeParse("bad".to_string()),
            span: at(100)
        }])
    );
}

#[test]
fn numeric_constraints_need_a_numeric_field_of_the_kind_of_the_literal() {
    let found = diagnostics(&named("String"), vec![name_value("maximum", integer(1, 1), 0)]);
    assert_eq!(
        found,
        vec![Diagnostic {
            kind: DiagnosticKind::TypeMismatch {
                constraint: "maximum".to_string(),
                ty: "String".to_string()
            },
            span: at(200)
        }]
    );
    assert_eq!(
        found[0].message(),
        "`maximum` cannot be held against a value of type `String`."
    );
    let found = diagnostics(
        &generic("Vec", named("bool")),
        vec![name_value("multiple_of", integer(2, 1), 0)],
    );
    assert_eq!(
        found[0].kind,
        DiagnosticKind::TypeMismatch {
            constraint: "multiple_of".to_string(),
            ty: "bool".to_string()
        }
    );
    // An integer bound on a floating-point field, and the other way round.
    assert!(compile(&named("f64"), vec![name_value("minimum", integer(1, 1), 0)]).is_err());
    assert!(compile(&named("i32"), vec![name_value("minimum", float("0.5", 1), 0)]).is_err());
    assert_eq!(
        compile(&named("f32"), vec![name_value("minimum", float("0.5", 1), 0)]),
        Ok(Validator::Normal(check(
            "val",
            Constraint::Range {
                minimum: Some(Bound { value: Number::Float("0.5".to_string()), exclusive: false }),
                maximum: None,
            }
        )))
    );
    assert_eq!(
        diagnostics(&named("i32"), vec![name_value("maximum", string("1", 1), 0)]),
        vec![Diagnostic { kind: DiagnosticKind::NumericLiteralExpected, span: at(1) }]
    );
}

#[test]
fn a_divisor_of_zero_does_not_compile() {
    assert_eq!(
        diagnostics(&named("i32"), vec![name_value("multiple_of", integer(0, 1), 0)]),
        vec![Diagnostic { kind: DiagnosticKind::ZeroDivisor, span: at(1) }]
    );
    for zero in ["0.0", "0.", "0e5", "00.000f32", "0_0.0"] {
        assert_eq!(
            diagnostics(&named("f32"), vec![name_value("multiple_of", float(zero, 1), 0)]),
            vec![Diagnostic { kind: DiagnosticKind::ZeroDivisor, span: at(1) }]
        );
    }
    for not_zero in ["0.5", "1e0", "0.01f64"] {
        assert!(
            compile(&named("f32"), vec![name_value("multiple_of", float(not_zero, 1), 0)]).is_ok()
        );
    }
}

#[test]
fn length_constraints_need_a_text_field_and_a_count() {
    assert_eq!(
        diagnostics(&named("i32"), vec![name_value("min_length", integer(1, 1), 0)]),
        vec![Diagnostic {
            kind: DiagnosticKind::TypeMismatch {
                constraint: "min_length".to_string(),
                ty: "i32".to_string()
            },
            span: at(200)
        }]
    );
    assert_eq!(
        diagnostics(&named("String"), vec![name_value("max_length", integer(-1, 1), 0)]),
        vec![Diagnostic { kind: DiagnosticKind::CountLiteralExpected, span: at(1) }]
    );
    assert_eq!(
        diagnostics(&named("String"), vec![name_value("max_items", integer(1, 1), 0)]),
        vec![Diagnostic {
            kind: DiagnosticKind::TypeMismatch {
                constraint: "max_items".to_string(),
                ty: "String".to_string()
            },
            span: at(200)
        }]
    );
    assert_eq!(
        diagnostics(&named("String"), vec![name_value("pattern", integer(1, 1), 0)]),
        vec![Diagnostic { kind: DiagnosticKind::StrLiteralExpected, span: at(1) }]
    );
}

#[test]
fn enumerate_reports_everything_that_is_wrong_with_its_items() {
    assert_eq!(
        compile(
            &named("i32"),
            vec![list(
                "enumerate",
                vec![NestedMeta::Lit(integer(1, 1)), NestedMeta::Lit(integer(2, 2))],
                0
            )]
        ),
        Ok(Validator::Normal(check(
            "val",
            Constraint::Enumerate(vec![LitValue::Int(1), LitValue::Int(2)])
        )))
    );
    assert_eq!(
        diagnostics(&named("i32"), vec![list("enumerate", vec![], 0)]),
        vec![Diagnostic { kind: DiagnosticKind::EnumerateNeedItem, span: at(0) }]
    );
    assert_eq!(
        diagnostics(
            &named("i32"),
            vec![list(
                "enumerate",
                vec![flag("a", 1), NestedMeta::Lit(integer(2, 2)), flag("b", 3)],
                0
            )]
        ),
        vec![
            Diagnostic { kind: DiagnosticKind::LiteralOnly, span: at(1) },
            Diagnostic { kind: DiagnosticKind::LiteralOnly, span: at(3) },
        ]
    );
}

#[test]
fn a_message_override_is_the_second_item() {
    let compiled = compile(
        &named("String"),
        vec![
            name_value("min_length", integer(5, 1), 0),
            name_value("message", string("this is min custom message.", 3), 2),
        ],
    );
    assert_eq!(
        compiled,
        Ok(Validator::Normal(Check {
            message: Message::Literal("this is min custom message.".to_string()),
            ..check("val", Constraint::MinLength(5))
        }))
    );
    let compiled = compile(
        &named("String"),
        vec![
            name_value("max_length", integer(3, 1), 0),
            list("message_fn", vec![flag("custom_max_error_message", 3)], 2),
        ],
    );
    assert_eq!(
        compiled,
        Ok(Validator::Normal(Check {
            message: Message::Function(path("custom_max_error_message", 3)),
            ..check("val", Constraint::MaxLength(3))
        }))
    );
}

#[test]
fn what_is_wrong_with_the_override_and_with_the_constraint_is_reported_together() {
    assert_eq!(
        diagnostics(
            &named("String"),
            vec![
                name_value("max_length", string("3", 1), 0),
                name_value("message", integer(1, 3), 2),
                flag("surplus", 4),
            ]
        ),
        vec![
            Diagnostic { kind: DiagnosticKind::StrLiteralExpected, span: at(3) },
            Diagnostic { kind: DiagnosticKind::TooManyItems, span: at(4) },
            Diagnostic { kind: DiagnosticKind::CountLiteralExpected, span: at(1) },
        ]
    );
}

#[test]
fn malformed_overrides_are_told_apart() {
    let error = |nested: NestedMeta| extract_message_fn_tokens(&nested).unwrap_err();
    assert_eq!(
        error(list("message_fn", vec![], 0)),
        Diagnostic { kind: DiagnosticKind::MessageFnName, span: at(0) }
    );
    assert_eq!(
        error(list("message_fn", vec![NestedMeta::Lit(string("f", 1))], 0)),
        Diagnostic { kind: DiagnosticKind::MessageFnName, span: at(1) }
    );
    assert_eq!(
        error(list("message_fn", vec![flag("f", 1), flag("g", 2), flag("h", 5)], 0)),
        Diagnostic { kind: DiagnosticKind::MessageFnTail, span: Span { start: 2, end: 6 } }
    );
    assert_eq!(
        error(name_value("message", integer(1, 1), 0)),
        Diagnostic { kind: DiagnosticKind::StrLiteralExpected, span: at(1) }
    );
    assert_eq!(
        error(name_value("message_fn", string("f", 1), 0)),
        Diagnostic {
            kind: DiagnosticKind::ClassMismatch {
                label: "message_fn".to_string(),
                expected: MetaClass::List
            },
            span: at(0)
        }
    );
    assert_eq!(
        error(list("message", vec![], 0)),
        Diagnostic {
            kind: DiagnosticKind::ClassMismatch {
                label: "message".to_string(),
                expected: MetaClass::NameValue
            },
            span: at(0)
        }
    );
    assert_eq!(
        error(flag("message", 0)),
        Diagnostic {
            kind: DiagnosticKind::ClassMismatch {
                label: "message".to_string(),
                expected: MetaClass::NameValue
            },
            span: at(0)
        }
    );
    assert_eq!(
        error(flag("massage", 0)),
        Diagnostic {
            kind: DiagnosticKind::UnknownMeta {
                label: "massage".to_string(),
                candidates: vec!["message".to_string(), "message_fn".to_string()]
            },
            span: at(0)
        }
    );
    assert_eq!(
        error(NestedMeta::Lit(string("text", 0))),
        Diagnostic { kind: DiagnosticKind::LiteralNotSupport, span: at(0) }
    );
}

#[test]
fn a_vec_without_angle_brackets_does_not_compile() {
    let ty = Type::Path(TypePath {
        qself: false,
        segments: vec![PathSegment { ident: "Vec".to_string(), arguments: PathArguments::Absent }],
        span: at(200),
    });
    let found = diagnostics(&ty, vec![name_value("maximum", integer(1, 1), 0)]);
    assert_eq!(found, vec![Diagnostic { kind: DiagnosticKind::VecNotAngleBracketed, span: at(200) }]);
    assert_eq!(found[0].message(), "`Vec` must be angle bracketed (=`Vec<*>`).");
}

#[test]
fn the_declarations_of_a_field_compile_in_order_or_fail_together() {
    let ty = named("String");
    let attributes = vec![
        validate(vec![name_value("min_length", integer(5, 1), 0)]),
        validate(vec![name_value("max_length", integer(3, 1), 0)]),
    ];
    assert_eq!(
        extract_field_validators(&field(&ty), &attributes),
        Ok(vec![
            Validator::Normal(check("val", Constraint::MinLength(5))),
            Validator::Normal(check("val", Constraint::MaxLength(3))),
        ])
    );
    let attributes = vec![
        validate(vec![name_value("min_length", string("5", 1), 0)]),
        validate(vec![name_value("max_length", integer(3, 1), 0)]),
        validate(vec![name_value("maximum", integer(3, 11), 10)]),
    ];
    assert_eq!(
        extract_field_validators(&field(&ty), &attributes)
            .unwrap_err()
            .iter()
            .map(|diagnostic| diagnostic.span)
            .collect::<Vec<_>>(),
        vec![at(1), at(200)]
    );
}
