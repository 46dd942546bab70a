//! Applying validators to values.
//!
//! Every declared constraint is held against the value, and every
//! violation is reported: nothing stops at the first one.

use vstd::prelude::*;
use crate::syntax::{LitValue, LitValueView};
use crate::validation::error::{
    error_views,
    item_views,
    lemma_array_shaped_mergeable,
    lemma_errors_view,
    merge_view,
    ArrayErrors,
    Error,
    ErrorView,
    Errors,
    ErrorsView,
    FieldErrors,
    FieldErrorsView,
    ItemErrors,
    ItemErrorsView,
    ObjectErrors,
};
use crate::validation::array::{ValidateMaxItems, ValidateMinItems};
use crate::validation::numeric::{is_multiple_of, ValidateMultipleOf};
use crate::validation::params::{
    EnumerateErrorParams,
    Params,
    ParamsView,
    Violation,
    ViolationView,
};
use crate::validation::string::{
    regex_is_match,
    regex_new,
    regex_of,
    ValidateMaxLength,
    ValidateMinLength,
    ValidatePattern,
};
use crate::validation::value::{
    lemma_value_view,
    same_value,
    value_views,
    values_equal,
    Object,
    ObjectField,
    ObjectFieldView,
    ObjectView,
    Value,
    ValueView,
};
use crate::validator::{
    lit_value_views,
    Bound,
    BoundView,
    CheckView,
    Constraint,
    ConstraintView,
    Message,
    MessageView,
    Number,
    NumberView,
    Validator,
    ValidatorView,
};

verus! {

/// The name under which an object reports what its custom rules found.
pub open spec fn rules_key() -> Seq<char> {
    "@rules"@
}

/// What a lower bound finds wrong with `value`.
pub open spec fn minimum_violation(bound: BoundView, value: int) -> Option<ParamsView> {
    match bound.value {
        NumberView::Int(minimum) => if bound.exclusive {
            if value > minimum {
                None
            } else {
                Some(ParamsView::ExclusiveMinimum(minimum))
            }
        } else {
            if value >= minimum {
                None
            } else {
                Some(ParamsView::Minimum(minimum))
            }
        },
        NumberView::Float(_) => Some(ParamsView::Mismatch),
    }
}

/// What an upper bound finds wrong with `value`.
pub open spec fn maximum_violation(bound: BoundView, value: int) -> Option<ParamsView> {
    match bound.value {
        NumberView::Int(maximum) => if bound.exclusive {
            if value < maximum {
                None
            } else {
                Some(ParamsView::ExclusiveMaximum(maximum))
            }
        } else {
            if value <= maximum {
                None
            } else {
                Some(ParamsView::Maximum(maximum))
            }
        },
        NumberView::Float(_) => Some(ParamsView::Mismatch),
    }
}

/// What a range finds wrong with `value`: what its minimum finds, else what its maximum finds.
pub open spec fn range_violation(
    minimum: Option<BoundView>,
    maximum: Option<BoundView>,
    value: int,
) -> Option<ParamsView> {
    let below = match minimum {
        Some(bound) => minimum_violation(bound, value),
        None => None,
    };
    if below is Some {
        below
    } else {
        match maximum {
            Some(bound) => maximum_violation(bound, value),
            None => None,
        }
    }
}

/// Whether a value equals a literal: an integer the integer it writes, a
/// text the string it writes.
pub open spec fn literal_matches(literal: LitValueView, value: ValueView) -> bool {
    match (literal, value) {
        (LitValueView::Int(i), ValueView::Int(j)) => i == j,
        (LitValueView::Str(s), ValueView::Text(t)) => s == t,
        _ => false,
    }
}

/// Whether a value equals one of the literals.
pub open spec fn is_member(members: Seq<LitValueView>, value: ValueView) -> bool {
    exists|i: int| 0 <= i < members.len() && literal_matches(#[trigger] members[i], value)
}

/// The first of the first `count` items that equals the item at `index`.
pub open spec fn first_equal(items: Seq<ValueView>, index: int, count: nat) -> Option<nat>
    decreases count,
{
    if count == 0 || count > items.len() || !(0 <= index < items.len()) {
        None
    } else {
        match first_equal(items, index, (count - 1) as nat) {
            Some(found) => Some(found),
            None => if same_value(items[count - 1], items[index]) {
                Some((count - 1) as nat)
            } else {
                None
            },
        }
    }
}

/// The first pair of equal items among the first `count` items: the pair
/// whose later item comes first, and of those the one whose earlier item
/// comes first.
pub open spec fn first_duplicate(items: Seq<ValueView>, count: nat) -> Option<(nat, nat)>
    decreases count,
{
    if count == 0 || count > items.len() {
        None
    } else {
        match first_duplicate(items, (count - 1) as nat) {
            Some(pair) => Some(pair),
            None => match first_equal(items, count - 1, (count - 1) as nat) {
                Some(earlier) => Some((earlier, (count - 1) as nat)),
                None => None,
            },
        }
    }
}

/// Whether a text matches a pattern: the pattern compiles, and the regular
/// expression it compiles to matches somewhere in the text.
pub open spec fn pattern_accepts(pattern: Seq<char>, text: Seq<char>) -> bool {
    match regex_of(pattern) {
        Some(regex) => regex_is_match(regex, text),
        None => false,
    }
}

/// What a constraint finds wrong with a value: nothing, or the parameters
/// of the violation. A value of a kind that the constraint cannot be held
/// against is a mismatch.
pub open spec fn violation_of(constraint: ConstraintView, value: ValueView) -> Option<ParamsView> {
    match constraint {
        ConstraintView::Range { minimum, maximum } => match value {
            ValueView::Int(i) => range_violation(minimum, maximum, i),
            _ => Some(ParamsView::Mismatch),
        },
        ConstraintView::MinLength(bound) => match value {
            ValueView::Text(text) => if crate::validation::string::grapheme_count(text) >= bound {
                None
            } else {
                Some(ParamsView::MinLength(bound))
            },
            _ => Some(ParamsView::Mismatch),
        },
        ConstraintView::MaxLength(bound) => match value {
            ValueView::Text(text) => if crate::validation::string::grapheme_count(text) <= bound {
                None
            } else {
                Some(ParamsView::MaxLength(bound))
            },
            _ => Some(ParamsView::Mismatch),
        },
        ConstraintView::MinItems(bound) => match value {
            ValueView::List(items) => if items.len() >= bound {
                None
            } else {
                Some(ParamsView::MinItems(bound))
            },
            _ => Some(ParamsView::Mismatch),
        },
        ConstraintView::MaxItems(bound) => match value {
            ValueView::List(items) => if items.len() <= bound {
                None
            } else {
                Some(ParamsView::MaxItems(bound))
            },
            _ => Some(ParamsView::Mismatch),
        },
        ConstraintView::MultipleOf(number) => match (number, value) {
            (NumberView::Int(divisor), ValueView::Int(i)) => if is_multiple_of(i, divisor) {
                None
            } else {
                Some(ParamsView::MultipleOf(divisor))
            },
            _ => Some(ParamsView::Mismatch),
        },
        ConstraintView::Pattern(pattern) => match value {
            ValueView::Text(text) => if pattern_accepts(pattern, text) {
                None
            } else {
                Some(ParamsView::Pattern(pattern))
            },
            _ => Some(ParamsView::Mismatch),
        },
        ConstraintView::Enumerate(members) => if is_member(members, value) {
            None
        } else {
            Some(ParamsView::Enumerate(members))
        },
        ConstraintView::UniqueItems => match value {
            ValueView::List(items) => match first_duplicate(items, items.len()) {
                Some(pair) => Some(ParamsView::UniqueItems { first: pair.0, second: pair.1 }),
                None => None,
            },
            _ => Some(ParamsView::Mismatch),
        },
        ConstraintView::Nested => Some(ParamsView::Mismatch),
    }
}

/// The violation that reports a value of the wrong kind.
pub open spec fn mismatch() -> ErrorView {
    ErrorView::Violation(
        ViolationView { params: ParamsView::Mismatch, message: MessageView::Default },
    )
}

/// How the violations of a nested object enter the list of the field that
/// holds it: a list is taken over as it is, any other tree that is not
/// empty becomes one nested item.
pub open spec fn nested_errors(found: ErrorsView) -> Seq<ErrorView> {
    if found.is_empty() {
        Seq::empty()
    } else {
        match found {
            ErrorsView::NewType { errors } => errors,
            _ => seq![ErrorView::Nested(found)],
        }
    }
}

/// What the custom rules of an object reported, as violations.
pub open spec fn custom_errors(texts: Seq<Seq<char>>) -> Seq<ErrorView> {
    Seq::new(texts.len(), |i: int| ErrorView::Custom(texts[i]))
}

/// The violations that a validator finds in a value.
///
/// A check reports at most one violation, or the violations of a nested
/// object. `Array` reports, for each item of a sequence in which the inner
/// validator finds anything, what it finds there, under the item's index.
/// `Option` reports what the inner validator finds in a value that is
/// present, and nothing for one that is absent.
pub open spec fn apply_view(validator: ValidatorView, value: ValueView) -> ErrorsView
    decreases value, 0nat, 0nat,
{
    match validator {
        ValidatorView::Normal(check) => ErrorsView::NewType {
            errors: match check.constraint {
                ConstraintView::Nested => match value {
                    ValueView::Object(object) => nested_errors(object_errors(object)),
                    _ => seq![mismatch()],
                },
                _ => match violation_of(check.constraint, value) {
                    Some(params) => seq![
                        ErrorView::Violation(ViolationView { params, message: check.message }),
                    ],
                    None => Seq::empty(),
                },
            },
        },
        ValidatorView::Array(inner) => match value {
            ValueView::List(items) => ErrorsView::Array {
                errors: Seq::empty(),
                items: item_errors(*inner, items, items.len()),
            },
            _ => ErrorsView::NewType { errors: seq![mismatch()] },
        },
        ValidatorView::Option(inner) => match value {
            ValueView::Opt(Some(present)) => apply_view(*inner, *present),
            ValueView::Opt(None) => ErrorsView::NewType { errors: Seq::empty() },
            _ => ErrorsView::NewType { errors: seq![mismatch()] },
        },
    }
}

/// What a validator finds in the first `count` items of a sequence: one
/// entry for each item in which it finds anything, in order.
pub open spec fn item_errors(validator: ValidatorView, items: Seq<ValueView>, count: nat) -> Seq<
    ItemErrorsView,
>
    decreases items, count, 0nat,
{
    if count == 0 || count > items.len() {
        Seq::empty()
    } else {
        let before = item_errors(validator, items, (count - 1) as nat);
        let found = apply_view(validator, items[count - 1]);
        if found.is_empty() {
            before
        } else {
            before.push(ItemErrorsView { index: (count - 1) as nat, errors: found })
        }
    }
}

/// What the first `count` validators of a field find in its value, merged
/// in the order of the declarations.
pub open spec fn field_errors(field: ObjectFieldView, count: nat) -> ErrorsView
    decreases field, count, 0nat,
{
    if count == 0 || count > field.validators.len() {
        ErrorsView::NewType { errors: Seq::empty() }
    } else {
        merge_view(
            field_errors(field, (count - 1) as nat),
            apply_view(field.validators[count - 1], field.value),
        )
    }
}

/// The entries of the first `count` fields of an object: one for each
/// field in which its validators find anything, in order.
pub open spec fn field_entries(fields: Seq<ObjectFieldView>, count: nat) -> Seq<FieldErrorsView>
    decreases fields, count, 1nat,
{
    if count == 0 || count > fields.len() {
        Seq::empty()
    } else {
        let before = field_entries(fields, (count - 1) as nat);
        let found = field_errors(fields[count - 1], fields[count - 1].validators.len());
        if found.is_empty() {
            before
        } else {
            before.push(FieldErrorsView { name: fields[count - 1].name, errors: found })
        }
    }
}

/// The violations of an object.
///
/// An object reports, under the name of each field, what the validators of
/// that field find, and under [`rules_key`] what its custom rules
/// reported. A new type with its one field reports what that field's
/// validators find and what its rules reported as one tree without a name.
pub open spec fn object_errors(object: ObjectView) -> ErrorsView
    decreases object, 0nat, 0nat,
{
    let custom = ErrorsView::NewType { errors: custom_errors(object.custom) };
    if object.new_type && object.fields.len() == 1 {
        merge_view(field_errors(object.fields[0], object.fields[0].validators.len()), custom)
    } else {
        ErrorsView::Object {
            fields: field_entries(object.fields, object.fields.len()) + (if object.custom.len()
                > 0 {
                seq![FieldErrorsView { name: rules_key(), errors: custom }]
            } else {
                Seq::empty()
            }),
        }
    }
}

/// Whether what a check found is what a specification names.
pub open spec fn same_params(found: Option<Params>, expected: Option<ParamsView>) -> bool {
    match found {
        Some(params) => expected == Some(params@),
        None => expected is None,
    }
}

fn check_minimum(bound: &Bound, value: i128) -> (found: Option<Params>)
    ensures
        same_params(found, minimum_violation(bound@, value as int)),
{
    match &bound.value {
        Number::Int(minimum) => {
            if bound.exclusive {
                if value > *minimum {
                    None
                } else {
                    Some(Params::ExclusiveMinimum(*minimum))
                }
            } else {
                if value >= *minimum {
                    None
                } else {
                    Some(Params::Minimum(*minimum))
                }
            }
        },
        Number::Float(_) => Some(Params::Mismatch),
    }
}

fn check_maximum(bound: &Bound, value: i128) -> (found: Option<Params>)
    ensures
        same_params(found, maximum_violation(bound@, value as int)),
{
    match &bound.value {
        Number::Int(maximum) => {
            if bound.exclusive {
                if value < *maximum {
                    None
                } else {
                    Some(Params::ExclusiveMaximum(*maximum))
                }
            } else {
                if value <= *maximum {
                    None
                } else {
                    Some(Params::Maximum(*maximum))
                }
            }
        },
        Number::Float(_) => Some(Params::Mismatch),
    }
}

fn check_range(minimum: &Option<Bound>, maximum: &Option<Bound>, value: i128) -> (found: Option<
    Params,
>)
    ensures
        same_params(
            found,
            range_violation(
                crate::validator::bound_view(*minimum),
                crate::validator::bound_view(*maximum),
                value as int,
            ),
        ),
{
    let below = match minimum {
        Some(bound) => check_minimum(bound, value),
        None => None,
    };
    if below.is_some() {
        below
    } else {
        match maximum {
            Some(bound) => check_maximum(bound, value),
            None => None,
        }
    }
}

fn literal_equals(literal: &LitValue, value: &Value) -> (same: bool)
    ensures
        same == literal_matches(literal@, value@),
{
    proof {
        lemma_value_view(*value);
    }
    match (literal, value) {
        (LitValue::Int(i), Value::Int(j)) => *i == *j,
        (LitValue::Str(s), Value::Text(t)) => crate::text::str_eq(s.as_str(), t.as_str()),
        _ => false,
    }
}

fn member(members: &Vec<LitValue>, value: &Value) -> (found: bool)
    ensures
        found == is_member(lit_value_views(members@), value@),
{
    let ghost views = lit_value_views(members@);
    let mut i: usize = 0;
    while i < members.len()
        invariant
            i <= members.len(),
            views == lit_value_views(members@),
            forall|j: int| 0 <= j < i ==> !literal_matches(#[trigger] views[j], value@),
        decreases members.len() - i,
    {
        if literal_equals(&members[i], value) {
            assert(literal_matches(views[i as int], value@));
            return true;
        }
        i = i + 1;
    }
    false
}

fn find_equal(items: &Vec<Value>, index: usize, count: usize) -> (found: Option<usize>)
    requires
        index < items.len(),
        count <= items.len(),
    ensures
        match found {
            Some(earlier) => first_equal(value_views(items@), index as int, count as nat) == Some(
                earlier as nat,
            ),
            None => first_equal(value_views(items@), index as int, count as nat) is None,
        },
{
    let ghost views = value_views(items@);
    let mut i: usize = 0;
    while i < count
        invariant
            i <= count <= items.len(),
            index < items.len(),
            views == value_views(items@),
            first_equal(views, index as int, i as nat) is None,
        decreases count - i,
    {
        proof {
            assert(items@[i as int]@ == views[i as int]);
            assert(items@[index as int]@ == views[index as int]);
        }
        if values_equal(&items[i], &items[index]) {
            proof {
                lemma_first_equal_stays(views, index as int, (i + 1) as nat, count as nat);
            }
            return Some(i);
        }
        i = i + 1;
    }
    None
}

/// Once an equal item is found among the first items, it stays the first.
proof fn lemma_first_equal_stays(items: Seq<ValueView>, index: int, count: nat, more: nat)
    requires
        count <= more <= items.len(),
        first_equal(items, index, count) is Some,
    ensures
        first_equal(items, index, more) == first_equal(items, index, count),
    decreases more,
{
    if count < more {
        lemma_first_equal_stays(items, index, count, (more - 1) as nat);
    }
}

/// Once a pair of equal items is found among the first items, it stays the first.
proof fn lemma_first_duplicate_stays(items: Seq<ValueView>, count: nat, more: nat)
    requires
        count <= more <= items.len(),
        first_duplicate(items, count) is Some,
    ensures
        first_duplicate(items, more) == first_duplicate(items, count),
    decreases more,
{
    if count < more {
        lemma_first_duplicate_stays(items, count, (more - 1) as nat);
    }
}

fn find_duplicate(items: &Vec<Value>) -> (found: Option<(usize, usize)>)
    ensures
        match found {
            Some(pair) => first_duplicate(value_views(items@), items@.len()) == Some(
                (pair.0 as nat, pair.1 as nat),
            ),
            None => first_duplicate(value_views(items@), items@.len()) is None,
        },
{
    let ghost views = value_views(items@);
    let mut j: usize = 0;
    while j < items.len()
        invariant
            j <= items.len(),
            views == value_views(items@),
            first_duplicate(views, j as nat) is None,
        decreases items.len() - j,
    {
        match find_equal(items, j, j) {
            Some(earlier) => {
                proof {
                    lemma_first_duplicate_stays(views, (j + 1) as nat, items@.len());
                }
                return Some((earlier, j));
            },
            None => {},
        }
        j = j + 1;
    }
    None
}

/// What a constraint finds wrong with a value.
pub fn check_constraint(constraint: &Constraint, value: &Value) -> (found: Option<Params>)
    ensures
        same_params(found, violation_of(constraint@, value@)),
{
    proof {
        lemma_value_view(*value);
    }
    match constraint {
        Constraint::Range { minimum, maximum } => match value {
            Value::Int(i) => check_range(minimum, maximum, *i),
            _ => Some(Params::Mismatch),
        },
        Constraint::MinLength(bound) => match value {
            Value::Text(text) => match text.validate_min_length(*bound) {
                Ok(()) => None,
                Err(params) => Some(Params::MinLength(params)),
            },
            _ => Some(Params::Mismatch),
        },
        Constraint::MaxLength(bound) => match value {
            Value::Text(text) => match text.validate_max_length(*bound) {
                Ok(()) => None,
                Err(params) => Some(Params::MaxLength(params)),
            },
            _ => Some(Params::Mismatch),
        },
        Constraint::MinItems(bound) => match value {
            Value::List(items) => match items.validate_min_items(*bound) {
                Ok(()) => None,
                Err(params) => Some(Params::MinItems(params)),
            },
            _ => Some(Params::Mismatch),
        },
        Constraint::MaxItems(bound) => match value {
            Value::List(items) => match items.validate_max_items(*bound) {
                Ok(()) => None,
                Err(params) => Some(Params::MaxItems(params)),
            },
            _ => Some(Params::Mismatch),
        },
        Constraint::MultipleOf(number) => match (number, value) {
            (Number::Int(divisor), Value::Int(i)) => match i.validate_multiple_of(*divisor) {
                Ok(()) => None,
                Err(params) => Some(Params::MultipleOf(params)),
            },
            _ => Some(Params::Mismatch),
        },
        Constraint::Pattern(pattern) => match value {
            Value::Text(text) => match regex_new(pattern.as_str()) {
                Some(regex) => match text.validate_pattern(&regex) {
                    Ok(()) => None,
                    Err(params) => Some(Params::Pattern(params)),
                },
                None => Some(
                    Params::Pattern(
                        crate::validation::params::PatternErrorParams { pattern: pattern.clone() },
                    ),
                ),
            },
            _ => Some(Params::Mismatch),
        },
        Constraint::Enumerate(members) => {
            if member(members, value) {
                None
            } else {
                Some(Params::Enumerate(EnumerateErrorParams::new(members.as_slice())))
            }
        },
        Constraint::UniqueItems => match value {
            Value::List(items) => match find_duplicate(items) {
                Some(pair) => Some(Params::UniqueItems { first: pair.0, second: pair.1 }),
                None => None,
            },
            _ => Some(Params::Mismatch),
        },
        Constraint::Nested => Some(Params::Mismatch),
    }
}

fn mismatch_error() -> (error: Error)
    ensures
        error@ == mismatch(),
{
    Error::Violation(Violation { params: Params::Mismatch, message: Message::Default })
}

fn single_error(error: Error) -> (errors: Vec<Error>)
    ensures
        error_views(errors@) == seq![error@],
{
    let mut errors: Vec<Error> = Vec::new();
    errors.push(error);
    assert(error_views(errors@) =~= seq![error@]);
    errors
}

fn no_errors() -> (errors: Vec<Error>)
    ensures
        error_views(errors@) == Seq::<ErrorView>::empty(),
{
    let errors: Vec<Error> = Vec::new();
    assert(error_views(errors@) =~= Seq::<ErrorView>::empty());
    errors
}

fn new_type(errors: Vec<Error>) -> (tree: Errors)
    ensures
        tree@ == (ErrorsView::NewType { errors: error_views(errors@) }),
        tree@.wf(),
        tree@.array_shaped(),
{
    let tree = Errors::NewType(errors);
    proof {
        lemma_errors_view(tree);
    }
    tree
}

fn nested(found: Errors) -> (errors: Vec<Error>)
    ensures
        error_views(errors@) == nested_errors(found@),
{
    proof {
        lemma_errors_view(found);
    }
    if found.is_empty() {
        no_errors()
    } else {
        match found {
            Errors::NewType(errors) => errors,
            other => single_error(Error::Nested(other)),
        }
    }
}

fn custom(texts: &Vec<String>) -> (errors: Vec<Error>)
    ensures
        error_views(errors@) == custom_errors(crate::text::views(texts@)),
{
    let mut errors: Vec<Error> = Vec::new();
    let mut i: usize = 0;
    while i < texts.len()
        invariant
            i <= texts.len(),
            errors.len() == i,
            forall|j: int| 0 <= j < i ==> errors@[j]@ == ErrorView::Custom(texts@[j]@),
        decreases texts.len() - i,
    {
        errors.push(Error::Custom(texts[i].clone()));
        i = i + 1;
    }
    assert(error_views(errors@) =~= custom_errors(crate::text::views(texts@)));
    errors
}

/// Applies a validator to a value.
///
/// Reports every violation: under its index for an item of a sequence,
/// and nothing for an optional value that is absent.
pub fn apply(validator: &Validator, value: &Value) -> (errors: Errors)
    ensures
        errors@ == apply_view(validator@, value@),
        errors@.wf(),
        errors@.array_shaped(),
    decreases value@, 0nat, 0nat,
{
    proof {
        lemma_value_view(*value);
    }
    match validator {
        Validator::Normal(check) => {
            let errors = match &check.constraint {
                Constraint::Nested => match value {
                    Value::Object(object) => {
                        proof {
                            assert(decreases_to!(value@ => value@->Object_0));
                        }
                        nested(validate_object(object))
                    },
                    _ => single_error(mismatch_error()),
                },
                constraint => match check_constraint(constraint, value) {
                    Some(params) => single_error(
                        Error::Violation(Violation { params, message: check.message.clone() }),
                    ),
                    None => no_errors(),
                },
            };
            new_type(errors)
        },
        Validator::Array(inner) => match value {
            Value::List(items) => {
                let ghost views = value_views(items@);
                let ghost inner_view = (**inner)@;
                let mut found: Vec<ItemErrors> = Vec::new();
                let mut i: usize = 0;
                assert(item_views(found@) =~= item_errors(inner_view, views, 0));
                while i < items.len()
                    invariant
                        i <= items.len(),
                        views == value_views(items@),
                        inner_view == (**inner)@,
                        value@ == ValueView::List(views),
                        item_views(found@) == item_errors(inner_view, views, i as nat),
                        forall|k: int|
                            0 <= k < found@.len() ==> (#[trigger] item_views(found@)[k]).index < i,
                        crate::validation::error::items_wf(item_views(found@)),
                        crate::validation::error::items_shaped(item_views(found@)),
                    decreases items.len() - i,
                {
                    proof {
                        assert(decreases_to!(value@ => value@->List_0));
                        assert(decreases_to!(views => views[i as int]));
                        assert(items@[i as int]@ == views[i as int]);
                    }
                    let ghost before = item_views(found@);
                    let errors = apply(inner, &items[i]);
                    if !errors.is_empty() {
                        found.push(ItemErrors { index: i, errors });
                        proof {
                            let pushed = before.push(
                                ItemErrorsView {
                                    index: i as nat,
                                    errors: apply_view(inner_view, views[i as int]),
                                },
                            );
                            assert(item_views(found@) =~= pushed);
                            assert forall|a: int, b: int|
                                0 <= a < pushed.len() && 0 <= b < pushed.len() && a
                                    != b implies #[trigger] pushed[a].index
                                != #[trigger] pushed[b].index by {
                                if a < before.len() {
                                    assert(pushed[a] == before[a]);
                                }
                                if b < before.len() {
                                    assert(pushed[b] == before[b]);
                                }
                            }
                            assert forall|k: int| 0 <= k < pushed.len() implies (
                            #[trigger] pushed[k]).errors.wf() && pushed[k].errors.array_shaped()
                                && pushed[k].index < i + 1 by {
                                if k < before.len() {
                                    assert(pushed[k] == before[k]);
                                }
                            }
                        }
                    }
                    i = i + 1;
                }
                let tree = Errors::Array(ArrayErrors::new(no_errors(), found));
                proof {
                    lemma_errors_view(tree);
                }
                tree
            },
            _ => new_type(single_error(mismatch_error())),
        },
        Validator::Option(inner) => match value {
            Value::Opt(Some(present)) => {
                proof {
                    assert(decreases_to!(value@ => value@->Opt_0));
                    assert(decreases_to!(value@->Opt_0 => value@->Opt_0->Some_0));
                }
                apply(inner, present)
            },
            Value::Opt(None) => new_type(no_errors()),
            _ => new_type(single_error(mismatch_error())),
        },
    }
}

/// What the validators of a field find in its value, merged in the order
/// of the declarations.
pub fn validate_field(field: &ObjectField) -> (errors: Errors)
    ensures
        errors@ == field_errors(field@, field@.validators.len()),
        errors@.wf(),
        errors@.array_shaped(),
    decreases field@, 0nat, 2nat,
{
    let ghost view = field@;
    let mut errors = new_type(no_errors());
    let mut i: usize = 0;
    while i < field.validators.len()
        invariant
            i <= field.validators.len(),
            view == field@,
            view.validators.len() == field.validators.len(),
            errors@ == field_errors(view, i as nat),
            errors@.wf(),
            errors@.array_shaped(),
        decreases field.validators.len() - i,
    {
        proof {
            assert(decreases_to!(view => view.value));
            assert(view.validators[i as int] == field.validators@[i as int]@);
        }
        let found = apply(&field.validators[i], &field.value);
        proof {
            lemma_array_shaped_mergeable(errors@, found@);
        }
        errors.merge(found);
        i = i + 1;
    }
    errors
}

/// The violations of an object: those of its fields by name, and what its
/// custom rules reported.
pub fn validate_object(object: &Object) -> (errors: Errors)
    ensures
        errors@ == object_errors(object@),
    decreases object@, 0nat, 3nat,
{
    let ghost view = object@;
    let reported = new_type(custom(&object.custom));
    if object.new_type && object.fields.len() == 1 {
        proof {
            assert(decreases_to!(view => view.fields));
            assert(decreases_to!(view.fields => view.fields[0]));
            assert(view.fields[0] == object.fields@[0]@);
        }
        let mut errors = validate_field(&object.fields[0]);
        proof {
            lemma_array_shaped_mergeable(errors@, reported@);
        }
        errors.merge(reported);
        errors
    } else {
        let mut fields: Vec<FieldErrors> = Vec::new();
        let mut i: usize = 0;
        assert(crate::validation::error::field_views(fields@) =~= field_entries(view.fields, 0));
        while i < object.fields.len()
            invariant
                i <= object.fields.len(),
                view == object@,
                view.fields.len() == object.fields.len(),
                crate::validation::error::field_views(fields@) == field_entries(
                    view.fields,
                    i as nat,
                ),
            decreases object.fields.len() - i,
        {
            proof {
                assert(decreases_to!(view => view.fields));
                assert(decreases_to!(view.fields => view.fields[i as int]));
                assert(view.fields[i as int] == object.fields@[i as int]@);
            }
            let ghost before = crate::validation::error::field_views(fields@);
            let found = validate_field(&object.fields[i]);
            if !found.is_empty() {
                fields.push(FieldErrors { name: object.fields[i].name.clone(), errors: found });
                proof {
                    assert(crate::validation::error::field_views(fields@) =~= before.push(
                        FieldErrorsView {
                            name: view.fields[i as int].name,
                            errors: field_errors(
                                view.fields[i as int],
                                view.fields[i as int].validators.len(),
                            ),
                        },
                    ));
                }
            }
            i = i + 1;
        }
        let ghost entries = crate::validation::error::field_views(fields@);
        if object.custom.len() > 0 {
            fields.push(FieldErrors { name: String::from_str("@rules"), errors: reported });
            proof {
                assert(crate::validation::error::field_views(fields@) =~= entries + seq![
                    FieldErrorsView {
                        name: rules_key(),
                        errors: ErrorsView::NewType { errors: custom_errors(view.custom) },
                    },
                ]);
            }
        } else {
            proof {
                assert(entries + Seq::<FieldErrorsView>::empty() =~= entries);
            }
        }
        let tree = Errors::Object(ObjectErrors { fields });
        proof {
            lemma_errors_view(tree);
        }
        tree
    }
}

/// The values that a custom rule is called with: those of the fields it
/// claims, each taken once, in the order in which the rule lists them.
/// There are none where the rule names a field that the object lacks.
pub fn rule_arguments<'a>(rule: &crate::compile::rule::Rule, object: &'a Object) -> (arguments:
    Option<Vec<&'a Value>>)
    ensures
        arguments is Some <==> forall|i: int|
            0 <= i < rule.args@.len() ==> (#[trigger] rule.args@[i]) < object.fields@.len(),
        arguments matches Some(found) ==> found@.len() == rule.args@.len() && forall|i: int|
            0 <= i < found@.len() ==> *(#[trigger] found@[i]) == object.fields@[rule.args@[i] as int].value,
{
    let mut arguments: Vec<&'a Value> = Vec::new();
    let mut i: usize = 0;
    while i < rule.args.len()
        invariant
            i <= rule.args.len(),
            arguments@.len() == i,
            forall|j: int| 0 <= j < i ==> (#[trigger] rule.args@[j]) < object.fields@.len(),
            forall|j: int|
                0 <= j < i ==> *(#[trigger] arguments@[j]) == object.fields@[rule.args@[j] as int].value,
        decreases rule.args.len() - i,
    {
        let index = rule.args[i];
        if index >= object.fields.len() {
            return None;
        }
        arguments.push(&object.fields[index].value);
        i = i + 1;
    }
    Some(arguments)
}

/// A value that can be validated.
pub trait Validate {
    /// Succeeds where nothing is wrong with the value; fails with every violation otherwise.
    fn validate(&self) -> Result<(), Errors>;
}

impl Validate for Object {
    fn validate(&self) -> (result: Result<(), Errors>)
        ensures
            result is Ok <==> object_errors(self@).is_empty(),
            result matches Err(errors) ==> errors@ == object_errors(self@),
    {
        let errors = validate_object(self);
        if errors.is_empty() {
            Ok(())
        } else {
            Err(errors)
        }
    }
}

/// A single bound holds at exactly its boundary: an inclusive bound
/// accepts the value that equals it, an exclusive bound does not, and
/// either accepts exactly the values on its side.
pub proof fn lemma_single_bound(check: CheckView, bound: int, exclusive: bool, value: int)
    ensures
        check.constraint == (ConstraintView::Range {
            minimum: Some(BoundView { value: NumberView::Int(bound), exclusive }),
            maximum: None,
        }) ==> (apply_view(ValidatorView::Normal(check), ValueView::Int(value)).is_empty() <==> (
        if exclusive {
            value > bound
        } else {
            value >= bound
        })),
        check.constraint == (ConstraintView::Range {
            minimum: None,
            maximum: Some(BoundView { value: NumberView::Int(bound), exclusive }),
        }) ==> (apply_view(ValidatorView::Normal(check), ValueView::Int(value)).is_empty() <==> (
        if exclusive {
            value < bound
        } else {
            value <= bound
        })),
{
}

/// The declarations on a field find nothing exactly when none of them
/// finds anything: every validator is applied, and what each finds is kept.
pub proof fn lemma_field_is_valid(field: ObjectFieldView, count: nat)
    requires
        count <= field.validators.len(),
    ensures
        field_errors(field, count).is_empty() <==> forall|i: int|
            0 <= i < count ==> #[trigger] apply_view(field.validators[i], field.value).is_empty(),
        !(field_errors(field, count) is Object),
    decreases count,
{
    if count > 0 {
        lemma_field_is_valid(field, (count - 1) as nat);
        let found = apply_view(field.validators[count - 1], field.value);
        lemma_apply_is_no_object(field.validators[count - 1], field.value);
        crate::validation::error::lemma_merge_is_empty(
            field_errors(field, (count - 1) as nat),
            found,
        );
    }
}

/// What a validator finds is never shaped like the violations of an object.
pub proof fn lemma_apply_is_no_object(validator: ValidatorView, value: ValueView)
    ensures
        !(apply_view(validator, value) is Object),
    decreases validator,
{
    match validator {
        ValidatorView::Option(inner) => {
            match value {
                ValueView::Opt(Some(present)) => {
                    lemma_apply_is_no_object(*inner, *present);
                },
                _ => {},
            }
        },
        _ => {},
    }
}

/// A sequence of `n` items with item-count bounds is valid exactly when
/// `n` lies within them; either bound may be left out.
pub proof fn lemma_item_count(
    field: ObjectFieldView,
    items: Seq<ValueView>,
    min_items: Option<CheckView>,
    max_items: Option<CheckView>,
)
    requires
        field.value == ValueView::List(items),
        min_items matches Some(check) ==> check.constraint is MinItems,
        max_items matches Some(check) ==> check.constraint is MaxItems,
        field.validators == (match min_items {
            Some(check) => seq![ValidatorView::Normal(check)],
            None => Seq::empty(),
        }) + (match max_items {
            Some(check) => seq![ValidatorView::Normal(check)],
            None => Seq::empty(),
        }),
    ensures
        field_errors(field, field.validators.len()).is_empty() <==> (min_items matches Some(check)
            ==> check.constraint->MinItems_0 <= items.len()) && (max_items matches Some(check)
            ==> items.len() <= check.constraint->MaxItems_0),
{
    lemma_field_is_valid(field, field.validators.len());
    let valid = forall|i: int|
        0 <= i < field.validators.len() ==> #[trigger] apply_view(
            field.validators[i],
            field.value,
        ).is_empty();
    match (min_items, max_items) {
        (Some(min), Some(max)) => {
            assert(field.validators[0] == ValidatorView::Normal(min));
            assert(field.validators[1] == ValidatorView::Normal(max));
            if valid {
                assert(apply_view(field.validators[0], field.value).is_empty());
                assert(apply_view(field.validators[1], field.value).is_empty());
            }
        },
        (Some(min), None) => {
            assert(field.validators[0] == ValidatorView::Normal(min));
            if valid {
                assert(apply_view(field.validators[0], field.value).is_empty());
            }
        },
        (None, Some(max)) => {
            assert(field.validators[0] == ValidatorView::Normal(max));
            if valid {
                assert(apply_view(field.validators[0], field.value).is_empty());
            }
        },
        (None, None) => {},
    }
}

/// The entry that an item of a sequence gets: none where the validator
/// finds nothing in it.
pub open spec fn entry(validator: ValidatorView, index: nat, item: ValueView) -> Seq<
    ItemErrorsView,
> {
    if apply_view(validator, item).is_empty() {
        Seq::empty()
    } else {
        seq![ItemErrorsView { index, errors: apply_view(validator, item) }]
    }
}

/// The container recursion: a check compiled against a sequence of
/// optional values, applied to `[Some(x), None, Some(y)]`, reports at index
/// 0 what the check finds in `x`, at index 2 what it finds in `y`, and
/// nothing at index 1, whatever `x` and `y` are.
pub proof fn lemma_container_recursion(check: CheckView, x: ValueView, y: ValueView)
    ensures
        apply_view(
            ValidatorView::Array(
                Box::new(ValidatorView::Option(Box::new(ValidatorView::Normal(check)))),
            ),
            ValueView::List(
                seq![
                    ValueView::Opt(Some(Box::new(x))),
                    ValueView::Opt(None),
                    ValueView::Opt(Some(Box::new(y))),
                ],
            ),
        ) == (ErrorsView::Array {
            errors: Seq::empty(),
            items: entry(ValidatorView::Normal(check), 0, x) + entry(
                ValidatorView::Normal(check),
                2,
                y,
            ),
        }),
{
    let leaf = ValidatorView::Normal(check);
    let inner = ValidatorView::Option(Box::new(leaf));
    let items = seq![
        ValueView::Opt(Some(Box::new(x))),
        ValueView::Opt(None),
        ValueView::Opt(Some(Box::new(y))),
    ];
    assert(apply_view(inner, items[0]) == apply_view(leaf, x));
    assert(apply_view(inner, items[1]).is_empty());
    assert(apply_view(inner, items[2]) == apply_view(leaf, y));
    assert(item_errors(inner, items, 0) =~= Seq::empty());
    assert(item_errors(inner, items, 1) =~= entry(leaf, 0, x));
    assert(item_errors(inner, items, 2) =~= entry(leaf, 0, x));
    assert(item_errors(inner, items, 3) =~= entry(leaf, 0, x) + entry(leaf, 2, y));
}

/// The first fields of an object have no entry exactly when nothing is
/// found in any of them.
proof fn lemma_field_entries_empty(fields: Seq<ObjectFieldView>, count: nat)
    requires
        count <= fields.len(),
    ensures
        field_entries(fields, count).len() == 0 <==> forall|i: int|
            0 <= i < count ==> #[trigger] field_errors(
                fields[i],
                fields[i].validators.len(),
            ).is_empty(),
    decreases count,
{
    if count > 0 {
        lemma_field_entries_empty(fields, (count - 1) as nat);
        let found = field_errors(fields[count - 1], fields[count - 1].validators.len());
        if !found.is_empty() {
            assert(!field_errors(fields[count - 1], fields[count - 1].validators.len()).is_empty());
        }
    }
}

/// An object is valid exactly when its rules reported nothing and the
/// declarations of none of its fields find anything.
pub proof fn lemma_object_is_valid(object: ObjectView)
    ensures
        object_errors(object).is_empty() <==> object.custom.len() == 0 && forall|i: int|
            0 <= i < object.fields.len() ==> #[trigger] field_errors(
                object.fields[i],
                object.fields[i].validators.len(),
            ).is_empty(),
{
    let custom = ErrorsView::NewType { errors: custom_errors(object.custom) };
    if object.new_type && object.fields.len() == 1 {
        let field = object.fields[0];
        lemma_field_is_valid(field, field.validators.len());
        crate::validation::error::lemma_merge_is_empty(
            field_errors(field, field.validators.len()),
            custom,
        );
        if object_errors(object).is_empty() {
            assert forall|i: int| 0 <= i < object.fields.len() implies #[trigger] field_errors(
                object.fields[i],
                object.fields[i].validators.len(),
            ).is_empty() by {
                assert(i == 0);
            }
        } else if object.custom.len() == 0 {
            assert(!field_errors(object.fields[0], object.fields[0].validators.len()).is_empty());
        }
    } else {
        lemma_field_entries_empty(object.fields, object.fields.len());
    }
}

} // verus!
