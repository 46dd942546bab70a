use serde_valid::validation::value::{values_equal, Object, ObjectField, Value};
use serde_valid::{Error, Errors};

#[test]
fn a_deserialize_error_is_told_from_validation_errors() {
    let error: Error<String> = Error::DeserializeError("unexpected end of input".to_string());
    assert!(error.is_deserialize_error());
    assert!(!error.is_validation_errors());
    assert_eq!(error.as_deserialize_error(), Some(&"unexpected end of input".to_string()));
    assert_eq!(error.as_validation_errors(), None);
}

#[test]
fn validation_errors_are_told_from_a_deserialize_error() {
    let error: Error<String> = Error::ValidationError(Errors::NewType(vec![]));
    assert!(!error.is_deserialize_error());
    assert!(error.is_validation_errors());
    assert_eq!(error.as_deserialize_error(), None);
    assert_eq!(error.as_validation_errors(), Some(&Errors::NewType(vec![])));
}

fn object(values: Vec<Value>, name: &str) -> Value {
    Value::Object(Object {
        fields: values
            .into_iter()
            .map(|value| ObjectField { name: name.to_string(), validators: vec![], value })
            .collect(),
        custom: vec![],
        new_type: false,
    })
}

#[test]
fn values_are_equal_by_what_they_hold() {
    let some = |value: Value| Value::Opt(Some(Box::new(value)));
    assert!(values_equal(&Value::Int(3), &Value::Int(3)));
    assert!(!values_equal(&Value::Int(3), &Value::Int(4)));
    assert!(!values_equal(&Value::Int(3), &Value::Text("3".to_string())));
    assert!(values_equal(&Value::Text("a".to_string()), &Value::Text("a".to_string())));
    assert!(values_equal(
        &Value::List(vec![Value::Int(1), some(Value::Int(2))]),
        &Value::List(vec![Value::Int(1), some(Value::Int(2))])
    ));
    assert!(!values_equal(
        &Value::List(vec![Value::Int(1), some(Value::Int(2))]),
        &Value::List(vec![Value::Int(1), some(Value::Int(3))])
    ));
    assert!(!values_equal(
        &Value::List(vec![Value::Int(1)]),
        &Value::List(vec![Value::Int(1), Value::Int(1)])
    ));
    assert!(values_equal(&Value::Opt(None), &Value::Opt(None)));
    assert!(!values_equal(&Value::Opt(None), &some(Value::Int(0))));
    assert!(values_equal(
        &object(vec![Value::Int(1), Value::Int(2)], "a"),
        &object(vec![Value::Int(1), Value::Int(2)], "b")
    ));
    assert!(!values_equal(
        &object(vec![Value::Int(1), Value::Int(2)], "a"),
        &object(vec![Value::Int(2), Value::Int(1)], "a")
    ));
}
