//! The bare flag: a field that is validated by its own declarations.

use vstd::prelude::*;
use crate::diagnostic::{Diagnostic, DiagnosticView};
use crate::field::{Field, FieldView};
use crate::validator::{
    container_aware,
    same_validator,
    single,
    Check,
    CheckView,
    Constraint,
    ConstraintView,
    Message,
    MessageView,
    Validator,
    ValidatorView,
};

verus! {

/// The check that hands a value to its own validation.
pub open spec fn nested_check(field: FieldView) -> CheckView {
    CheckView {
        name: field.name,
        ident: field.ident,
        constraint: ConstraintView::Nested,
        message: MessageView::Default,
    }
}

/// What the bare flag compiles to on `field`: the nested check, under one
/// layer for each container layer of the field's type.
pub open spec fn meta_path_validator(field: FieldView) -> Result<
    ValidatorView,
    Seq<DiagnosticView>,
> {
    container_aware(
        field,
        |scalar: FieldView| Ok::<CheckView, Seq<DiagnosticView>>(nested_check(scalar)),
    )
}

/// Compiles the bare flag on `field`.
pub fn extract_validator_from_meta_path(field: &Field) -> (validator: Result<
    Validator,
    Vec<Diagnostic>,
>)
    ensures
        same_validator(validator, meta_path_validator(field@)),
    decreases field@.ty,
{
    match field.array_field() {
        Err(diagnostic) => Err(single(diagnostic)),
        Ok(Some(array_field)) => match extract_validator_from_meta_path(&array_field) {
            Ok(inner) => Ok(Validator::Array(Box::new(inner))),
            Err(diagnostics) => Err(diagnostics),
        },
        Ok(None) => match field.option_field() {
            Err(diagnostic) => Err(single(diagnostic)),
            Ok(Some(option_field)) => match extract_validator_from_meta_path(&option_field) {
                Ok(inner) => Ok(Validator::Option(Box::new(inner))),
                Err(diagnostics) => Err(diagnostics),
            },
            Ok(None) => Ok(Validator::Normal(inner_extract_validator_from_meta_path(field))),
        },
    }
}

fn inner_extract_validator_from_meta_path(field: &Field) -> (check: Check)
    ensures
        check@ == nested_check(field@),
{
    Check {
        name: field.name.clone(),
        ident: field.ident.clone(),
        constraint: Constraint::Nested,
        message: Message::Default,
    }
}

} // verus!
