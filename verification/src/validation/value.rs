//! The values that validators are applied to.

use vstd::prelude::*;
use crate::validator::{Validator, ValidatorView};

verus! {

/// A value.
#[derive(Debug, PartialEq, Eq)]
pub enum Value {
    /// A value of an integer type.
    Int(i128),
    /// A value of a type that holds text.
    Text(String),
    /// A sequence.
    List(Vec<Value>),
    /// An optional value.
    Opt(Option<Box<Value>>),
    /// A value of a type that carries declarations of its own.
    Object(Object),
}

/// One field of an object: its value, and what its declarations compiled to.
#[derive(Debug, PartialEq, Eq)]
pub struct ObjectField {
    pub name: String,
    pub validators: Vec<Validator>,
    pub value: Value,
}

/// A value with the declarations of its type.
#[derive(Debug, PartialEq, Eq)]
pub struct Object {
    pub fields: Vec<ObjectField>,
    /// What the custom rules of the type reported for this value, in the
    /// order of the rules: one text for each rule that failed.
    pub custom: Vec<String>,
    /// Whether violations are reported as those of the one field, without
    /// its name: the way of a struct that wraps a single unnamed field.
    pub new_type: bool,
}

pub ghost enum ValueView {
    Int(int),
    Text(Seq<char>),
    List(Seq<ValueView>),
    Opt(Option<Box<ValueView>>),
    Object(ObjectView),
}

pub ghost struct ObjectFieldView {
    pub name: Seq<char>,
    pub validators: Seq<ValidatorView>,
    pub value: ValueView,
}

pub ghost struct ObjectView {
    pub fields: Seq<ObjectFieldView>,
    pub custom: Seq<Seq<char>>,
    pub new_type: bool,
}

/// The views of a vector of validators.
pub open spec fn validator_views(validators: Seq<Validator>) -> Seq<ValidatorView> {
    Seq::new(validators.len(), |i: int| validators[i]@)
}

/// The mathematical value of a value.
pub open spec fn value_view(value: Value) -> ValueView
    decreases value,
{
    match value {
        Value::Int(i) => ValueView::Int(i as int),
        Value::Text(text) => ValueView::Text(text@),
        Value::List(items) => ValueView::List(
            Seq::new(
                items@.len(),
                |i: int|
                    if 0 <= i < items@.len() {
                        value_view(items@[i])
                    } else {
                        ValueView::Int(0)
                    },
            ),
        ),
        Value::Opt(Some(inner)) => ValueView::Opt(Some(Box::new(value_view(*inner)))),
        Value::Opt(None) => ValueView::Opt(None),
        Value::Object(object) => ValueView::Object(
            ObjectView {
                fields: Seq::new(
                    object.fields@.len(),
                    |i: int|
                        if 0 <= i < object.fields@.len() {
                            ObjectFieldView {
                                name: object.fields@[i].name@,
                                validators: validator_views(object.fields@[i].validators@),
                                value: value_view(object.fields@[i].value),
                            }
                        } else {
                            ObjectFieldView {
                                name: Seq::empty(),
                                validators: Seq::empty(),
                                value: ValueView::Int(0),
                            }
                        },
                ),
                custom: crate::text::views(object.custom@),
                new_type: object.new_type,
            },
        ),
    }
}

impl View for Value {
    type V = ValueView;

    open spec fn view(&self) -> ValueView {
        value_view(*self)
    }
}

impl View for ObjectField {
    type V = ObjectFieldView;

    open spec fn view(&self) -> ObjectFieldView {
        ObjectFieldView {
            name: self.name@,
            validators: validator_views(self.validators@),
            value: self.value@,
        }
    }
}

/// The views of the fields of an object.
pub open spec fn object_field_views(fields: Seq<ObjectField>) -> Seq<ObjectFieldView> {
    Seq::new(fields.len(), |i: int| fields[i]@)
}

impl View for Object {
    type V = ObjectView;

    open spec fn view(&self) -> ObjectView {
        ObjectView {
            fields: object_field_views(self.fields@),
            custom: crate::text::views(self.custom@),
            new_type: self.new_type,
        }
    }
}

/// The views of a vector of values.
pub open spec fn value_views(values: Seq<Value>) -> Seq<ValueView> {
    Seq::new(values.len(), |i: int| values[i]@)
}

/// The view of a value, by its kind.
pub proof fn lemma_value_view(value: Value)
    ensures
        value@ == (match value {
            Value::Int(i) => ValueView::Int(i as int),
            Value::Text(text) => ValueView::Text(text@),
            Value::List(items) => ValueView::List(value_views(items@)),
            Value::Opt(Some(inner)) => ValueView::Opt(Some(Box::new((*inner)@))),
            Value::Opt(None) => ValueView::Opt(None),
            Value::Object(object) => ValueView::Object(object@),
        }),
{
    match value {
        Value::List(items) => {
            assert(value@->List_0 =~= value_views(items@));
        },
        Value::Object(object) => {
            assert(value@->Object_0.fields =~= object@.fields);
        },
        _ => {},
    }
}

/// Whether two values are equal as values: integers and texts by what
/// they hold, sequences item by item, optional values by what they wrap,
/// and objects by the values of their fields, in order.
pub open spec fn same_value(a: ValueView, b: ValueView) -> bool
    decreases a,
{
    match (a, b) {
        (ValueView::Int(i), ValueView::Int(j)) => i == j,
        (ValueView::Text(s), ValueView::Text(t)) => s == t,
        (ValueView::List(xs), ValueView::List(ys)) => xs.len() == ys.len() && forall|i: int|
            0 <= i < xs.len() ==> same_value(#[trigger] xs[i], ys[i]),
        (ValueView::Opt(Some(x)), ValueView::Opt(Some(y))) => same_value(*x, *y),
        (ValueView::Opt(None), ValueView::Opt(None)) => true,
        (ValueView::Object(x), ValueView::Object(y)) => x.fields.len() == y.fields.len()
            && forall|i: int|
            0 <= i < x.fields.len() ==> same_value((#[trigger] x.fields[i]).value, y.fields[i].value),
        _ => false,
    }
}

/// Whether two values are equal as values.
pub fn values_equal(a: &Value, b: &Value) -> (same: bool)
    ensures
        same == same_value(a@, b@),
    decreases a@,
{
    proof {
        lemma_value_view(*a);
        lemma_value_view(*b);
    }
    match (a, b) {
        (Value::Int(i), Value::Int(j)) => *i == *j,
        (Value::Text(s), Value::Text(t)) => crate::text::str_eq(s.as_str(), t.as_str()),
        (Value::List(xs), Value::List(ys)) => {
            if xs.len() != ys.len() {
                return false;
            }
            let ghost x_views = value_views(xs@);
            let ghost y_views = value_views(ys@);
            let mut i: usize = 0;
            while i < xs.len()
                invariant
                    i <= xs.len(),
                    xs.len() == ys.len(),
                    x_views == value_views(xs@),
                    y_views == value_views(ys@),
                    a@ == ValueView::List(x_views),
                    b@ == ValueView::List(y_views),
                    forall|j: int| 0 <= j < i ==> same_value(#[trigger] x_views[j], y_views[j]),
                decreases xs.len() - i,
            {
                proof {
                    assert(decreases_to!(a@ => a@->List_0));
                    assert(decreases_to!(x_views => x_views[i as int]));
                    assert(xs@[i as int]@ == x_views[i as int]);
                    assert(ys@[i as int]@ == y_views[i as int]);
                }
                if !values_equal(&xs[i], &ys[i]) {
                    assert(!same_value(x_views[i as int], y_views[i as int]));
                    return false;
                }
                i = i + 1;
            }
            true
        },
        (Value::Opt(Some(x)), Value::Opt(Some(y))) => {
            proof {
                assert(decreases_to!(a@ => a@->Opt_0));
                assert(decreases_to!(a@->Opt_0 => a@->Opt_0->Some_0));
                assert(*a@->Opt_0->Some_0 == (**x)@);
            }
            values_equal(x, y)
        },
        (Value::Opt(None), Value::Opt(None)) => true,
        (Value::Object(x), Value::Object(y)) => {
            if x.fields.len() != y.fields.len() {
                return false;
            }
            let ghost x_views = object_field_views(x.fields@);
            let ghost y_views = object_field_views(y.fields@);
            let mut i: usize = 0;
            while i < x.fields.len()
                invariant
                    i <= x.fields.len(),
                    x.fields.len() == y.fields.len(),
                    x_views == object_field_views(x.fields@),
                    y_views == object_field_views(y.fields@),
                    a@ == ValueView::Object((*x)@),
                    b@ == ValueView::Object((*y)@),
                    (*x)@.fields == x_views,
                    (*y)@.fields == y_views,
                    forall|j: int|
                        0 <= j < i ==> same_value((#[trigger] x_views[j]).value, y_views[j].value),
                decreases x.fields.len() - i,
            {
                proof {
                    assert(decreases_to!(a@ => a@->Object_0));
                    assert(decreases_to!(a@->Object_0 => a@->Object_0.fields));
                    assert(decreases_to!(x_views => x_views[i as int]));
                    assert(decreases_to!(x_views[i as int] => x_views[i as int].value));
                    assert(x.fields@[i as int]@ == x_views[i as int]);
                    assert(y.fields@[i as int]@ == y_views[i as int]);
                }
                if !values_equal(&x.fields[i].value, &y.fields[i].value) {
                    assert(!same_value(x_views[i as int].value, y_views[i as int].value));
                    return false;
                }
                i = i + 1;
            }
            true
        },
        _ => false,
    }
}

} // verus!
