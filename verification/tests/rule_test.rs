use serde_valid::collect_rules_from_unnamed_struct;
use serde_valid::compile::rule::{Rule, Rules};
use serde_valid::diagnostic::{Diagnostic, DiagnosticKind};
use serde_valid::syntax::{
    Attribute, Lit, LitValue, Meta, MetaList, MetaNameValue, NestedMeta, Path, Span,
};

fn at(start: usize) -> Span {
    Span { start, end: start + 1 }
}

fn path(name: &str, start: usize) -> Path {
    Path { segments: vec![name.to_string()], span: at(start) }
}

fn index(value: i128, start: usize) -> NestedMeta {
    NestedMeta::Lit(Lit { value: LitValue::Int(value), span: at(start) })
}

fn call(function: &str, start: usize, args: Vec<NestedMeta>) -> NestedMeta {
    NestedMeta::Meta(Meta::List(MetaList {
        path: path(function, start),
        nested: args,
        span: at(start),
    }))
}

/// `#[rule(..)]` with the given items.
fn rule(start: usize, nested: Vec<NestedMeta>) -> Attribute {
    Attribute {
        path: path("rule", start),
        meta: Ok(Meta::List(MetaList { path: path("rule", start), nested, span: at(start) })),
        span: at(start),
    }
}

fn kinds(diagnostics: &[Diagnostic]) -> Vec<&DiagnosticKind> {
    diagnostics.iter().map(|diagnostic| &diagnostic.kind).collect()
}

#[test]
fn a_rule_binds_its_function_to_the_fields_in_the_order_listed() {
    let attributes = vec![rule(0, vec![call("sample_rule", 1, vec![index(1, 2), index(0, 3)])])];
    assert_eq!(
        collect_rules_from_unnamed_struct(&attributes, 2),
        Ok(Rules {
            fields: vec![1, 0],
            rules: vec![Rule { function: path("sample_rule", 1), args: vec![1, 0] }],
        })
    );
}

#[test]
fn two_rules_may_claim_different_fields() {
    let attributes = vec![
        rule(0, vec![call("first", 1, vec![index(0, 2)])]),
        rule(10, vec![call("second", 11, vec![index(2, 12), index(1, 13)])]),
    ];
    let rules = collect_rules_from_unnamed_struct(&attributes, 3).unwrap();
    assert_eq!(rules.fields, vec![0, 2, 1]);
    assert_eq!(rules.rules.len(), 2);
    assert_eq!(rules.rules[1].args, vec![2, 1]);
}

#[test]
fn two_rules_that_claim_one_field_do_not_compile() {
    let attributes = vec![
        rule(0, vec![call("first", 1, vec![index(0, 2), index(1, 3)])]),
        rule(10, vec![call("second", 11, vec![index(1, 12)])]),
    ];
    let diagnostics = collect_rules_from_unnamed_struct(&attributes, 2).unwrap_err();
    assert_eq!(
        diagnostics,
        vec![Diagnostic { kind: DiagnosticKind::RuleFieldClaimedTwice(1), span: at(12) }]
    );
    assert_eq!(diagnostics[0].message(), "the field `1` is already claimed by a rule.");
}

#[test]
fn one_rule_that_names_a_field_twice_does_not_compile() {
    let attributes = vec![rule(0, vec![call("first", 1, vec![index(0, 2), index(0, 3)])])];
    let diagnostics = collect_rules_from_unnamed_struct(&attributes, 2).unwrap_err();
    assert_eq!(kinds(&diagnostics), vec![&DiagnosticKind::RuleFieldClaimedTwice(0)]);
}

#[test]
fn an_index_outside_the_struct_does_not_compile() {
    let attributes = vec![rule(0, vec![call("first", 1, vec![index(2, 2), index(-1, 3)])])];
    let diagnostics = collect_rules_from_unnamed_struct(&attributes, 2).unwrap_err();
    assert_eq!(
        kinds(&diagnostics),
        vec![&DiagnosticKind::RuleIndexOutOfRange(2), &DiagnosticKind::RuleIndexOutOfRange(-1)]
    );
    assert_eq!(diagnostics[1].message(), "the index `-1` names no field.");
}

#[test]
fn everything_that_is_wrong_with_the_rules_is_reported() {
    let attributes = vec![
        // no function call
        rule(0, vec![]),
        // two function calls, and the first has no argument
        rule(10, vec![call("first", 11, vec![]), call("second", 12, vec![index(0, 13)])]),
        // an argument that is no index
        rule(
            20,
            vec![call(
                "third",
                21,
                vec![NestedMeta::Lit(Lit { value: LitValue::Str("0".to_string()), span: at(22) })],
            )],
        ),
        // a flag, a literal and a `name = value` where a call is expected
        rule(30, vec![NestedMeta::Meta(Meta::Path(path("flag", 31)))]),
        rule(40, vec![index(0, 41)]),
        rule(
            50,
            vec![NestedMeta::Meta(Meta::NameValue(MetaNameValue {
                path: path("name", 51),
                lit: Lit { value: LitValue::Int(0), span: at(52) },
                span: at(51),
            }))],
        ),
    ];
    let diagnostics = collect_rules_from_unnamed_struct(&attributes, 1).unwrap_err();
    assert_eq!(
        diagnostics,
        vec![
            Diagnostic { kind: DiagnosticKind::RuleNeedFunction, span: at(0) },
            Diagnostic { kind: DiagnosticKind::RuleAllowSingleFunction, span: at(12) },
            Diagnostic { kind: DiagnosticKind::RuleNeedArguments, span: at(11) },
            Diagnostic { kind: DiagnosticKind::RuleAllowIndexArguments, span: at(22) },
            Diagnostic { kind: DiagnosticKind::MetaPathNotSupport, span: at(31) },
            Diagnostic { kind: DiagnosticKind::LiteralNotSupport, span: at(41) },
            Diagnostic { kind: DiagnosticKind::MetaNameValueNotSupport, span: at(51) },
        ]
    );
}

#[test]
fn a_rule_attribute_that_is_no_list_or_could_not_be_read_does_not_compile() {
    let attributes = vec![
        Attribute { path: path("rule", 0), meta: Ok(Meta::Path(path("rule", 0))), span: at(0) },
        Attribute { path: path("rule", 10), meta: Err("unexpected token".to_string()), span: at(10) },
    ];
    let diagnostics = collect_rules_from_unnamed_struct(&attributes, 1).unwrap_err();
    assert_eq!(
        diagnostics,
        vec![
            Diagnostic { kind: DiagnosticKind::RuleNeedFunction, span: at(0) },
            Diagnostic {
                kind: DiagnosticKind::AttributeParse("unexpected token".to_string()),
                span: at(10)
            },
        ]
    );
    assert_eq!(diagnostics[1].message(), "could not read the attribute: unexpected token");
}

#[test]
fn a_declaration_that_is_neither_a_constraint_nor_a_rule_does_not_compile() {
    let attributes = vec![
        Attribute {
            path: path("validate", 0),
            meta: Ok(Meta::Path(path("validate", 0))),
            span: at(0),
        },
        Attribute { path: path("other", 10), meta: Ok(Meta::Path(path("other", 10))), span: at(10) },
    ];
    let diagnostics = collect_rules_from_unnamed_struct(&attributes, 1).unwrap_err();
    assert_eq!(
        diagnostics,
        vec![Diagnostic { kind: DiagnosticKind::ExpectedConstraintOrRule, span: at(10) }]
    );
    assert_eq!(diagnostics[0].message(), "expected a constraint or `rule(fn(...))`");
}

#[test]
fn a_struct_without_rules_claims_nothing() {
    assert_eq!(
        collect_rules_from_unnamed_struct(&vec![], 3),
        Ok(Rules { fields: vec![], rules: vec![] })
    );
}

use serde_valid::validation::apply::rule_arguments;
use serde_valid::validation::value::{Object, ObjectField, Value};

fn unnamed(values: Vec<i128>) -> Object {
    Object {
        fields: values
            .into_iter()
            .enumerate()
            .map(|(index, value)| ObjectField {
                name: index.to_string(),
                validators: vec![],
                value: Value::Int(value),
            })
            .collect(),
        custom: vec![],
        new_type: false,
    }
}

#[test]
fn a_rule_is_called_with_the_values_of_its_fields_in_the_order_listed() {
    let object = unnamed(vec![10, 20, 30]);
    let rule = Rule { function: path("sample_rule", 0), args: vec![2, 0] };
    assert_eq!(rule_arguments(&rule, &object), Some(vec![&Value::Int(30), &Value::Int(10)]));
    let none = Rule { function: path("sample_rule", 0), args: vec![] };
    assert_eq!(rule_arguments(&none, &object), Some(vec![]));
    let outside = Rule { function: path("sample_rule", 0), args: vec![0, 3] };
    assert_eq!(rule_arguments(&outside, &object), None);
}
