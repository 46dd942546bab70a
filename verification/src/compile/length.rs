//! Constraints on a length: the characters of a text, the items of a
//! sequence; and the constraint that no two items of a sequence are equal.

use vstd::prelude::*;
use crate::compile::numeric::{count_of, get_count, type_mismatch, type_mismatch_of};
use crate::diagnostic::{Diagnostic, DiagnosticView};
use crate::field::{scalar_kind, Field, FieldView, ScalarKind};
use crate::syntax::{Lit, LitView};
use crate::text::str_eq;
use crate::validator::{
    container_aware,
    same_check,
    same_validator,
    sequence_aware,
    single,
    Check,
    CheckView,
    Constraint,
    ConstraintView,
    Message,
    MessageView,
    Validator,
    ValidatorView,
};

verus! {

/// The check that `min_length = lit` or `max_length = lit` compiles to on a
/// scalar field: the literal is a count and the field holds text.
pub open spec fn length_check(
    field: FieldView,
    label: Seq<char>,
    lit: LitView,
    message: MessageView,
) -> Result<CheckView, Seq<DiagnosticView>> {
    match count_of(lit) {
        Err(diagnostic) => Err(seq![diagnostic]),
        Ok(count) => if scalar_kind(field.ty) != ScalarKind::Text {
            Err(seq![type_mismatch(label, field)])
        } else {
            Ok(
                CheckView {
                    name: field.name,
                    ident: field.ident,
                    constraint: if label == "min_length"@ {
                        ConstraintView::MinLength(count)
                    } else {
                        ConstraintView::MaxLength(count)
                    },
                    message,
                },
            )
        },
    }
}

/// What a length bound compiles to on `field`.
pub open spec fn length_validator(
    field: FieldView,
    label: Seq<char>,
    lit: LitView,
    message: MessageView,
) -> Result<ValidatorView, Seq<DiagnosticView>> {
    container_aware(field, |scalar: FieldView| length_check(scalar, label, lit, message))
}

/// The check that `min_items = lit` or `max_items = lit` compiles to on a
/// field that is not optional: the field is a sequence and the literal is a count.
pub open spec fn items_check(
    field: FieldView,
    label: Seq<char>,
    lit: LitView,
    message: MessageView,
) -> Result<CheckView, Seq<DiagnosticView>> {
    match field.array_field() {
        Err(diagnostic) => Err(seq![diagnostic]),
        Ok(None) => Err(seq![type_mismatch(label, field)]),
        Ok(Some(_)) => match count_of(lit) {
            Err(diagnostic) => Err(seq![diagnostic]),
            Ok(count) => Ok(
                CheckView {
                    name: field.name,
                    ident: field.ident,
                    constraint: if label == "min_items"@ {
                        ConstraintView::MinItems(count)
                    } else {
                        ConstraintView::MaxItems(count)
                    },
                    message,
                },
            ),
        },
    }
}

/// What an item-count bound compiles to on `field`.
pub open spec fn items_validator(
    field: FieldView,
    label: Seq<char>,
    lit: LitView,
    message: MessageView,
) -> Result<ValidatorView, Seq<DiagnosticView>> {
    sequence_aware(field, |sequence: FieldView| items_check(sequence, label, lit, message))
}

/// The check that `unique_items` compiles to on a field that is not
/// optional: the field is a sequence.
pub open spec fn uniqueness_check(field: FieldView, message: MessageView) -> Result<
    CheckView,
    Seq<DiagnosticView>,
> {
    match field.array_field() {
        Err(diagnostic) => Err(seq![diagnostic]),
        Ok(None) => Err(seq![type_mismatch("unique_items"@, field)]),
        Ok(Some(_)) => Ok(
            CheckView {
                name: field.name,
                ident: field.ident,
                constraint: ConstraintView::UniqueItems,
                message,
            },
        ),
    }
}

/// What `unique_items` compiles to on `field`.
pub open spec fn uniqueness_validator(field: FieldView, message: MessageView) -> Result<
    ValidatorView,
    Seq<DiagnosticView>,
> {
    sequence_aware(field, |sequence: FieldView| uniqueness_check(sequence, message))
}

fn inner_extract_length_validator(field: &Field, label: &str, lit: &Lit, message: Message) -> (check:
    Result<Check, Vec<Diagnostic>>)
    ensures
        same_check(check, length_check(field@, label@, lit@, message@)),
{
    match get_count(lit) {
        Err(diagnostic) => Err(single(diagnostic)),
        Ok(count) => {
            if !matches!(field.ty.scalar_kind(), ScalarKind::Text) {
                Err(single(type_mismatch_of(label, field)))
            } else {
                let constraint = if str_eq(label, "min_length") {
                    Constraint::MinLength(count)
                } else {
                    Constraint::MaxLength(count)
                };
                Ok(
                    Check {
                        name: field.name.clone(),
                        ident: field.ident.clone(),
                        constraint,
                        message,
                    },
                )
            }
        },
    }
}

/// Compiles `min_length = lit` or `max_length = lit`, whichever `label` names, on `field`.
pub fn extract_length_validator(field: &Field, label: &str, lit: &Lit, message: Message) -> (validator:
    Result<Validator, Vec<Diagnostic>>)
    ensures
        same_validator(validator, length_validator(field@, label@, lit@, message@)),
    decreases field@.ty,
{
    match field.array_field() {
        Err(diagnostic) => Err(single(diagnostic)),
        Ok(Some(array_field)) => match extract_length_validator(&array_field, label, lit, message) {
            Ok(inner) => Ok(Validator::Array(Box::new(inner))),
            Err(diagnostics) => Err(diagnostics),
        },
        Ok(None) => match field.option_field() {
            Err(diagnostic) => Err(single(diagnostic)),
            Ok(Some(option_field)) => match extract_length_validator(
                &option_field,
                label,
                lit,
                message,
            ) {
                Ok(inner) => Ok(Validator::Option(Box::new(inner))),
                Err(diagnostics) => Err(diagnostics),
            },
            Ok(None) => match inner_extract_length_validator(field, label, lit, message) {
                Ok(check) => Ok(Validator::Normal(check)),
                Err(diagnostics) => Err(diagnostics),
            },
        },
    }
}

fn inner_extract_array_length_validator(
    field: &Field,
    label: &str,
    validation_value: &Lit,
    message: Message,
) -> (check: Result<Check, Vec<Diagnostic>>)
    ensures
        same_check(check, items_check(field@, label@, validation_value@, message@)),
{
    match field.array_field() {
        Err(diagnostic) => Err(single(diagnostic)),
        Ok(None) => Err(single(type_mismatch_of(label, field))),
        Ok(Some(_)) => match get_count(validation_value) {
            Err(diagnostic) => Err(single(diagnostic)),
            Ok(count) => {
                let constraint = if str_eq(label, "min_items") {
                    Constraint::MinItems(count)
                } else {
                    Constraint::MaxItems(count)
                };
                Ok(
                    Check {
                        name: field.name.clone(),
                        ident: field.ident.clone(),
                        constraint,
                        message,
                    },
                )
            },
        },
    }
}

fn extract_array_length_validator(
    field: &Field,
    label: &str,
    validation_value: &Lit,
    message: Message,
) -> (validator: Result<Validator, Vec<Diagnostic>>)
    ensures
        same_validator(validator, items_validator(field@, label@, validation_value@, message@)),
    decreases field@.ty,
{
    match field.option_field() {
        Err(diagnostic) => Err(single(diagnostic)),
        Ok(Some(option_field)) => match extract_array_length_validator(
            &option_field,
            label,
            validation_value,
            message,
        ) {
            Ok(inner) => Ok(Validator::Option(Box::new(inner))),
            Err(diagnostics) => Err(diagnostics),
        },
        Ok(None) => match inner_extract_array_length_validator(
            field,
            label,
            validation_value,
            message,
        ) {
            Ok(check) => Ok(Validator::Normal(check)),
            Err(diagnostics) => Err(diagnostics),
        },
    }
}

/// Compiles `max_items = validation_value` on `field`.
pub fn extract_array_max_items_validator(
    field: &Field,
    validation_value: &Lit,
    message: Message,
) -> (validator: Result<Validator, Vec<Diagnostic>>)
    ensures
        same_validator(
            validator,
            items_validator(field@, "max_items"@, validation_value@, message@),
        ),
{
    extract_array_length_validator(field, "max_items", validation_value, message)
}

/// Compiles `min_items = validation_value` on `field`.
pub fn extract_array_min_items_validator(
    field: &Field,
    validation_value: &Lit,
    message: Message,
) -> (validator: Result<Validator, Vec<Diagnostic>>)
    ensures
        same_validator(
            validator,
            items_validator(field@, "min_items"@, validation_value@, message@),
        ),
{
    extract_array_length_validator(field, "min_items", validation_value, message)
}

fn inner_extract_array_uniqueness_validator(field: &Field, message: Message) -> (check: Result<
    Check,
    Vec<Diagnostic>,
>)
    ensures
        same_check(check, uniqueness_check(field@, message@)),
{
    match field.array_field() {
        Err(diagnostic) => Err(single(diagnostic)),
        Ok(None) => Err(single(type_mismatch_of("unique_items", field))),
        Ok(Some(_)) => Ok(
            Check {
                name: field.name.clone(),
                ident: field.ident.clone(),
                constraint: Constraint::UniqueItems,
                message,
            },
        ),
    }
}

/// Compiles `unique_items` on `field`.
pub fn extract_array_uniqueness_validator(field: &Field, message: Message) -> (validator: Result<
    Validator,
    Vec<Diagnostic>,
>)
    ensures
        same_validator(validator, uniqueness_validator(field@, message@)),
    decreases field@.ty,
{
    match field.option_field() {
        Err(diagnostic) => Err(single(diagnostic)),
        Ok(Some(option_field)) => match extract_array_uniqueness_validator(
            &option_field,
            message,
        ) {
            Ok(inner) => Ok(Validator::Option(Box::new(inner))),
            Err(diagnostics) => Err(diagnostics),
        },
        Ok(None) => match inner_extract_array_uniqueness_validator(field, message) {
            Ok(check) => Ok(Validator::Normal(check)),
            Err(diagnostics) => Err(diagnostics),
        },
    }
}

} // verus!
