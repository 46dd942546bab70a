//! The constraint that a text matches a regular expression.

use vstd::prelude::*;
use crate::compile::message::{get_str, str_of};
use crate::compile::numeric::{type_mismatch, type_mismatch_of};
use crate::diagnostic::{Diagnostic, DiagnosticView};
use crate::field::{scalar_kind, Field, FieldView, ScalarKind};
use crate::syntax::{Lit, LitView};
use crate::validator::{
    container_aware,
    same_check,
    same_validator,
    single,
    Check,
    CheckView,
    Constraint,
    ConstraintView,
    Message,
    MessageView,
    Validator,
    ValidatorView,
};

verus! {

/// The check that `pattern = lit` compiles to on a scalar field: the literal
/// is a string and the field holds text.
pub open spec fn pattern_check(field: FieldView, lit: LitView, message: MessageView) -> Result<
    CheckView,
    Seq<DiagnosticView>,
> {
    match str_of(lit) {
        Err(diagnostic) => Err(seq![diagnostic]),
        Ok(pattern) => if scalar_kind(field.ty) != ScalarKind::Text {
            Err(seq![type_mismatch("pattern"@, field)])
        } else {
            Ok(
                CheckView {
                    name: field.name,
                    ident: field.ident,
                    constraint: ConstraintView::Pattern(pattern),
                    message,
                },
            )
        },
    }
}

/// What `pattern = lit` compiles to on `field`.
pub open spec fn pattern_validator(field: FieldView, lit: LitView, message: MessageView) -> Result<
    ValidatorView,
    Seq<DiagnosticView>,
> {
    container_aware(field, |scalar: FieldView| pattern_check(scalar, lit, message))
}

fn inner_extract_pattern_validator(field: &Field, lit: &Lit, message: Message) -> (check: Result<
    Check,
    Vec<Diagnostic>,
>)
    ensures
        same_check(check, pattern_check(field@, lit@, message@)),
{
    match get_str(lit) {
        Err(diagnostic) => Err(single(diagnostic)),
        Ok(pattern) => {
            if !matches!(field.ty.scalar_kind(), ScalarKind::Text) {
                Err(single(type_mismatch_of("pattern", field)))
            } else {
                Ok(
                    Check {
                        name: field.name.clone(),
                        ident: field.ident.clone(),
                        constraint: Constraint::Pattern(pattern),
                        message,
                    },
                )
            }
        },
    }
}

/// Compiles `pattern = lit` on `field`.
pub fn extract_pattern_validator(field: &Field, lit: &Lit, message: Message) -> (validator: Result<
    Validator,
    Vec<Diagnostic>,
>)
    ensures
        same_validator(validator, pattern_validator(field@, lit@, message@)),
    decreases field@.ty,
{
    match field.array_field() {
        Err(diagnostic) => Err(single(diagnostic)),
        Ok(Some(array_field)) => match extract_pattern_validator(&array_field, lit, message) {
            Ok(inner) => Ok(Validator::Array(Box::new(inner))),
            Err(diagnostics) => Err(diagnostics),
        },
        Ok(None) => match field.option_field() {
            Err(diagnostic) => Err(single(diagnostic)),
            Ok(Some(option_field)) => match extract_pattern_validator(&option_field, lit, message) {
                Ok(inner) => Ok(Validator::Option(Box::new(inner))),
                Err(diagnostics) => Err(diagnostics),
            },
            Ok(None) => match inner_extract_pattern_validator(field, lit, message) {
                Ok(check) => Ok(Validator::Normal(check)),
                Err(diagnostics) => Err(diagnostics),
            },
        },
    }
}

} // verus!
