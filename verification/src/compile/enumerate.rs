//! The constraint that a value is one of a list of literals.

use vstd::prelude::*;
use crate::diagnostic::{
    diagnostic_views,
    Diagnostic,
    DiagnosticKind,
    DiagnosticKindView,
    DiagnosticView,
};
use crate::field::{Field, FieldView};
use crate::syntax::{
    lemma_meta_list_view,
    LitValue,
    LitValueView,
    Meta,
    MetaList,
    MetaListView,
    NestedMeta,
    NestedMetaView,
};
use crate::validator::{
    container_aware,
    lit_value_views,
    same_check,
    same_validator,
    single,
    Check,
    CheckView,
    Constraint,
    ConstraintView,
    Message,
    MessageView,
    Validator,
    ValidatorView,
};

verus! {

/// The literals among the first `count` items, in order.
pub open spec fn enumerate_members(nested: Seq<NestedMetaView>, count: nat) -> Seq<LitValueView>
    decreases count,
{
    if count == 0 || count > nested.len() {
        Seq::empty()
    } else {
        let before = enumerate_members(nested, (count - 1) as nat);
        match nested[count - 1] {
            NestedMetaView::Lit(lit) => before.push(lit.value),
            NestedMetaView::Meta(_) => before,
        }
    }
}

/// One diagnostic for each of the first `count` items that is no literal, in order.
pub open spec fn enumerate_intruders(nested: Seq<NestedMetaView>, count: nat) -> Seq<
    DiagnosticView,
>
    decreases count,
{
    if count == 0 || count > nested.len() {
        Seq::empty()
    } else {
        let before = enumerate_intruders(nested, (count - 1) as nat);
        match nested[count - 1] {
            NestedMetaView::Lit(_) => before,
            NestedMetaView::Meta(meta) => before.push(
                DiagnosticView { kind: DiagnosticKindView::LiteralOnly, span: meta.span() },
            ),
        }
    }
}

/// Everything that is wrong with `enumerate(..)`: that it lists nothing,
/// and each item that is no literal.
pub open spec fn enumerate_errors(list: MetaListView) -> Seq<DiagnosticView> {
    (if list.nested.len() == 0 {
        seq![DiagnosticView { kind: DiagnosticKindView::EnumerateNeedItem, span: list.path.span }]
    } else {
        Seq::empty()
    }) + enumerate_intruders(list.nested, list.nested.len())
}

/// The members that `enumerate(..)` lists, if nothing is wrong with it.
pub open spec fn enumerate_of(list: MetaListView) -> Result<
    Seq<LitValueView>,
    Seq<DiagnosticView>,
> {
    if enumerate_errors(list).len() == 0 {
        Ok(enumerate_members(list.nested, list.nested.len()))
    } else {
        Err(enumerate_errors(list))
    }
}

/// The check that `enumerate(..)` compiles to on a scalar field.
pub open spec fn enumerate_check(field: FieldView, list: MetaListView, message: MessageView) -> Result<
    CheckView,
    Seq<DiagnosticView>,
> {
    match enumerate_of(list) {
        Err(diagnostics) => Err(diagnostics),
        Ok(members) => Ok(
            CheckView {
                name: field.name,
                ident: field.ident,
                constraint: ConstraintView::Enumerate(members),
                message,
            },
        ),
    }
}

/// What `enumerate(..)` compiles to on `field`.
pub open spec fn enumerate_validator(
    field: FieldView,
    list: MetaListView,
    message: MessageView,
) -> Result<ValidatorView, Seq<DiagnosticView>> {
    container_aware(field, |scalar: FieldView| enumerate_check(scalar, list, message))
}

/// Compiles `enumerate(..)` on `field`.
pub fn extract_generic_enumerate_validator(
    field: &Field,
    item_list: &MetaList,
    message_fn: Message,
) -> (validator: Result<Validator, Vec<Diagnostic>>)
    ensures
        same_validator(validator, enumerate_validator(field@, item_list@, message_fn@)),
    decreases field@.ty,
{
    match field.array_field() {
        Err(diagnostic) => Err(single(diagnostic)),
        Ok(Some(array_field)) => match extract_generic_enumerate_validator(
            &array_field,
            item_list,
            message_fn,
        ) {
            Ok(inner) => Ok(Validator::Array(Box::new(inner))),
            Err(diagnostics) => Err(diagnostics),
        },
        Ok(None) => match field.option_field() {
            Err(diagnostic) => Err(single(diagnostic)),
            Ok(Some(option_field)) => match extract_generic_enumerate_validator(
                &option_field,
                item_list,
                message_fn,
            ) {
                Ok(inner) => Ok(Validator::Option(Box::new(inner))),
                Err(diagnostics) => Err(diagnostics),
            },
            Ok(None) => match inner_extract_generic_enumerate_validator(
                field,
                item_list,
                message_fn,
            ) {
                Ok(check) => Ok(Validator::Normal(check)),
                Err(diagnostics) => Err(diagnostics),
            },
        },
    }
}

fn inner_extract_generic_enumerate_validator(
    field: &Field,
    item_list: &MetaList,
    message_fn: Message,
) -> (check: Result<Check, Vec<Diagnostic>>)
    ensures
        same_check(check, enumerate_check(field@, item_list@, message_fn@)),
{
    match get_enumerate(item_list) {
        Err(diagnostics) => Err(diagnostics),
        Ok(enumerate) => Ok(
            Check {
                name: field.name.clone(),
                ident: field.ident.clone(),
                constraint: Constraint::Enumerate(enumerate),
                message: message_fn,
            },
        ),
    }
}

/// The members that `enumerate(..)` lists.
pub fn get_enumerate(list: &MetaList) -> (enumerate: Result<Vec<LitValue>, Vec<Diagnostic>>)
    ensures
        match enumerate {
            Ok(members) => enumerate_of(list@) == Ok::<Seq<LitValueView>, Seq<DiagnosticView>>(
                lit_value_views(members@),
            ),
            Err(diagnostics) => enumerate_of(list@) == Err::<
                Seq<LitValueView>,
                Seq<DiagnosticView>,
            >(diagnostic_views(diagnostics@)),
        },
{
    broadcast use lemma_meta_list_view;

    let mut errors: Vec<Diagnostic> = Vec::new();
    let mut enumerate: Vec<LitValue> = Vec::new();
    if list.nested.len() == 0 {
        errors.push(Diagnostic { kind: DiagnosticKind::EnumerateNeedItem, span: list.path.span });
    }
    let ghost head = diagnostic_views(errors@);
    let mut i: usize = 0;
    while i < list.nested.len()
        invariant
            i <= list.nested.len(),
            list@.nested.len() == list.nested.len(),
            lit_value_views(enumerate@) == enumerate_members(list@.nested, i as nat),
            diagnostic_views(errors@) == head + enumerate_intruders(list@.nested, i as nat),
        decreases list.nested.len() - i,
    {
        proof {
            assert(list@.nested[i as int] == list.nested@[i as int]@);
        }
        let ghost members_before = lit_value_views(enumerate@);
        let ghost errors_before = diagnostic_views(errors@);
        match &list.nested[i] {
            NestedMeta::Lit(lit) => {
                enumerate.push(lit.value.clone());
                proof {
                    assert(lit_value_views(enumerate@) =~= members_before.push(lit@.value));
                }
            },
            NestedMeta::Meta(meta) => {
                errors.push(Diagnostic { kind: DiagnosticKind::LiteralOnly, span: meta.span() });
                proof {
                    assert(diagnostic_views(errors@) =~= errors_before.push(
                        DiagnosticView { kind: DiagnosticKindView::LiteralOnly, span: meta@.span() },
                    ));
                    assert(diagnostic_views(errors@) =~= head + enumerate_intruders(
                        list@.nested,
                        (i + 1) as nat,
                    ));
                }
            },
        }
        i = i + 1;
    }
    proof {
        assert(head =~= if list@.nested.len() == 0 {
            seq![
                DiagnosticView {
                    kind: DiagnosticKindView::EnumerateNeedItem,
                    span: list@.path.span,
                },
            ]
        } else {
            Seq::empty()
        });
    }
    if errors.len() == 0 {
        Ok(enumerate)
    } else {
        Err(errors)
    }
}

} // verus!
