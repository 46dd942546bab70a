use serde_valid::syntax::{Path, Span};
use serde_valid::validation::error::{
    ArrayErrors, Error, Errors, FieldErrors, ItemErrors, ObjectErrors,
};
use serde_valid::validation::params::{Params, Violation};
use serde_valid::validation::record::{Call, Entry, Record};
use serde_valid::validator::Message;
use serde_valid::MaxItemsErrorParams;

fn violation(params: Params, message: Message) -> Error {
    Error::Violation(Violation { params, message })
}

fn text(value: &str) -> Record {
    Record::Text(value.to_string())
}

fn entry(key: &str, value: Record) -> Entry {
    Entry { key: key.to_string(), value }
}

#[test]
fn a_list_of_violations_is_written_as_the_list_of_their_messages() {
    let errors = Errors::NewType(vec![
        violation(Params::Maximum(0), Message::Default),
        violation(Params::Maximum(0), Message::Literal("too \"large\"".to_string())),
        Error::Custom("custom\nrule".to_string()),
    ]);
    assert_eq!(
        errors.to_record(),
        Record::List(vec![
            text("the number must be `<= 0`."),
            text("too \"large\""),
            text("custom\nrule"),
        ])
    );
    assert_eq!(
        errors.to_json(),
        Some(r#"["the number must be `<= 0`.","too \"large\"","custom\nrule"]"#.to_string())
    );
    assert_eq!(Errors::NewType(vec![]).to_json(), Some("[]".to_string()));
}

#[test]
fn the_violations_of_a_sequence_are_written_with_its_items_by_index() {
    let errors = Errors::Array(ArrayErrors {
        errors: vec![violation(
            Params::MaxItems(MaxItemsErrorParams { max_items: 1 }),
            Message::Default,
        )],
        items: vec![
            ItemErrors {
                index: 0,
                errors: Errors::NewType(vec![violation(Params::Minimum(5), Message::Default)]),
            },
            ItemErrors {
                index: 12,
                errors: Errors::Array(ArrayErrors { errors: vec![], items: vec![] }),
            },
        ],
    });
    assert_eq!(
        errors.to_record(),
        Record::Object(vec![
            entry("errors", Record::List(vec![text("the length of the items must be `<= 1`.")])),
            entry(
                "items",
                Record::Object(vec![
                    entry("0", Record::List(vec![text("the number must be `>= 5`.")])),
                    entry(
                        "12",
                        Record::Object(vec![
                            entry("errors", Record::List(vec![])),
                            entry("items", Record::Object(vec![])),
                        ])
                    ),
                ])
            ),
        ])
    );
    assert_eq!(
        errors.to_json().unwrap(),
        concat_all(&[
            r#"{"errors":["the length of the items must be `<= 1`."],"#,
            r#""items":{"0":["the number must be `>= 5`."],"12":{"errors":[],"items":{}}}}"#,
        ])
    );
}

fn concat_all(parts: &[&str]) -> String {
    parts.iter().map(|part| part.to_string()).collect()
}

#[test]
fn the_violations_of_an_object_are_written_by_field() {
    let errors = Errors::Object(ObjectErrors {
        fields: vec![
            FieldErrors {
                name: "val".to_string(),
                errors: Errors::NewType(vec![Error::Nested(Errors::Object(ObjectErrors {
                    fields: vec![FieldErrors {
                        name: "inner \"val\"".to_string(),
                        errors: Errors::NewType(vec![violation(
                            Params::Maximum(0),
                            Message::Default,
                        )]),
                    }],
                }))]),
            },
            FieldErrors {
                name: "@rules".to_string(),
                errors: Errors::NewType(vec![Error::Custom("odd.".to_string())]),
            },
        ],
    });
    assert_eq!(
        errors.to_json().unwrap(),
        r#"{"val":[{"inner \"val\"":["the number must be `<= 0`."]}],"@rules":["odd."]}"#
    );
    let written: serde_json::Value = serde_json::from_str(&errors.to_json().unwrap()).unwrap();
    assert_eq!(written["val"][0]["inner \"val\""][0], "the number must be `<= 0`.");
    assert_eq!(Errors::Object(ObjectErrors { fields: vec![] }).to_json().unwrap(), "{}");
}

#[test]
fn a_message_function_is_owed_by_the_caller() {
    let function = Path {
        segments: vec!["messages".to_string(), "too_large".to_string()],
        span: Span { start: 0, end: 1 },
    };
    let errors = Errors::NewType(vec![
        violation(Params::Maximum(0), Message::Default),
        violation(Params::Maximum(0), Message::Function(function.clone())),
    ]);
    let record = errors.to_record();
    assert_eq!(
        record,
        Record::List(vec![
            text("the number must be `<= 0`."),
            Record::Call(Call { function, params: Params::Maximum(0) }),
        ])
    );
    assert_eq!(record.to_json(), None);
    assert_eq!(errors.to_json(), None);
    // Once the caller has written the message, the record has a text.
    let resolved = match record {
        Record::List(items) => Record::List(
            items
                .into_iter()
                .map(|item| match item {
                    Record::Call(_) => text("this is custom message."),
                    other => other,
                })
                .collect(),
        ),
        other => other,
    };
    assert_eq!(
        resolved.to_json().unwrap(),
        r#"["the number must be `<= 0`.","this is custom message."]"#
    );
}
