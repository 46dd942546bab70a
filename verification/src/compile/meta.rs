//! The dispatcher: from one attribute on a field to the extractor of the
//! constraint that it names.

use vstd::prelude::*;
use crate::compile::enumerate::{enumerate_validator, extract_generic_enumerate_validator};
use crate::compile::length::{
    extract_array_max_items_validator,
    extract_array_min_items_validator,
    extract_array_uniqueness_validator,
    extract_length_validator,
    items_validator,
    length_validator,
    uniqueness_validator,
};
use crate::compile::message::{extract_message_fn_tokens, message_fn};
use crate::compile::meta_path::{extract_validator_from_meta_path, meta_path_validator};
use crate::compile::numeric::{
    bound_validator,
    extract_bound_validator,
    extract_multiples_validator,
    extract_range_validator,
    is_maximum_name,
    is_minimum_name,
    multiples_validator,
    range_validator,
};
use crate::compile::pattern::{extract_pattern_validator, pattern_validator};
use crate::diagnostic::{
    diagnostic_views,
    Diagnostic,
    DiagnosticKind,
    DiagnosticKindView,
    DiagnosticView,
    MetaClass,
};
use crate::field::{Field, FieldView};
use crate::syntax::{
    lemma_meta_list_view,
    Attribute,
    AttributeView,
    Meta,
    MetaList,
    MetaListView,
    MetaNameValue,
    MetaNameValueView,
    MetaView,
    NestedMeta,
    NestedMetaView,
    Path,
    PathView,
    Span,
};
use crate::text::{str_eq, views};
use crate::validator::{
    same_validator,
    single,
    Message,
    MessageView,
    Validator,
    ValidatorView,
};

verus! {

/// The constraints that are written as a bare flag.
pub open spec fn path_names() -> Seq<Seq<char>> {
    seq!["unique_items"@]
}

/// The constraints that are written as a name with a list.
pub open spec fn list_names() -> Seq<Seq<char>> {
    seq!["range"@, "enumerate"@]
}

/// The constraints that are written as `name = literal`.
pub open spec fn name_value_names() -> Seq<Seq<char>> {
    seq![
        "minimum"@,
        "maximum"@,
        "exclusive_minimum"@,
        "exclusive_maximum"@,
        "min_length"@,
        "max_length"@,
        "min_items"@,
        "max_items"@,
        "multiple_of"@,
        "pattern"@,
    ]
}

/// The names of the constraints of one class.
pub open spec fn names_of(class: MetaClass) -> Seq<Seq<char>> {
    match class {
        MetaClass::Path => path_names(),
        MetaClass::List => list_names(),
        MetaClass::NameValue => name_value_names(),
    }
}

/// The class in which `label` names a constraint, if there is one.
pub open spec fn class_of(label: Seq<char>) -> Option<MetaClass> {
    if path_names().contains(label) {
        Some(MetaClass::Path)
    } else if list_names().contains(label) {
        Some(MetaClass::List)
    } else if name_value_names().contains(label) {
        Some(MetaClass::NameValue)
    } else {
        None
    }
}

/// The diagnostic for a name that is no constraint of the class it is
/// written in: a class mismatch that names the class it belongs to, or, for
/// a name of no class, an unknown constraint with the names of the class
/// that was written.
pub open spec fn misplaced(label: Seq<char>, written: MetaClass, span: Span) -> DiagnosticView {
    match class_of(label) {
        Some(expected) => DiagnosticView {
            kind: DiagnosticKindView::ClassMismatch { label, expected },
            span,
        },
        None => DiagnosticView {
            kind: DiagnosticKindView::UnknownMeta { label, candidates: names_of(written) },
            span,
        },
    }
}

/// What a bare flag inside the attribute compiles to.
pub open spec fn validator_from_path(field: FieldView, path: PathView, message: MessageView) -> Result<
    ValidatorView,
    Seq<DiagnosticView>,
> {
    match path.ident() {
        None => Err(seq![DiagnosticView { kind: DiagnosticKindView::NotAnIdent, span: path.span }]),
        Some(label) => if label == "unique_items"@ {
            uniqueness_validator(field, message)
        } else {
            Err(seq![misplaced(label, MetaClass::Path, path.span)])
        },
    }
}

/// What a name with a list compiles to.
pub open spec fn validator_from_list(
    field: FieldView,
    list: MetaListView,
    message: MessageView,
) -> Result<ValidatorView, Seq<DiagnosticView>> {
    match list.path.ident() {
        None => Err(
            seq![DiagnosticView { kind: DiagnosticKindView::NotAnIdent, span: list.path.span }],
        ),
        Some(label) => if label == "range"@ {
            range_validator(field, list, message)
        } else if label == "enumerate"@ {
            enumerate_validator(field, list, message)
        } else {
            Err(seq![misplaced(label, MetaClass::List, list.path.span)])
        },
    }
}

/// What `name = literal` compiles to.
pub open spec fn validator_from_name_value(
    field: FieldView,
    name_value: MetaNameValueView,
    message: MessageView,
) -> Result<ValidatorView, Seq<DiagnosticView>> {
    match name_value.path.ident() {
        None => Err(
            seq![
                DiagnosticView { kind: DiagnosticKindView::NotAnIdent, span: name_value.path.span },
            ],
        ),
        Some(label) => if is_minimum_name(label) || is_maximum_name(label) {
            bound_validator(field, label, name_value.lit, message)
        } else if label == "min_length"@ || label == "max_length"@ {
            length_validator(field, label, name_value.lit, message)
        } else if label == "min_items"@ || label == "max_items"@ {
            items_validator(field, label, name_value.lit, message)
        } else if label == "multiple_of"@ {
            multiples_validator(field, name_value.lit, message)
        } else if label == "pattern"@ {
            pattern_validator(field, name_value.lit, message)
        } else {
            Err(seq![misplaced(label, MetaClass::NameValue, name_value.path.span)])
        },
    }
}

/// What a declaration compiles to, by its class.
pub open spec fn validator_from_meta(field: FieldView, meta: MetaView, message: MessageView) -> Result<
    ValidatorView,
    Seq<DiagnosticView>,
> {
    match meta {
        MetaView::Path(path) => validator_from_path(field, path, message),
        MetaView::List(list) => validator_from_list(field, list, message),
        MetaView::NameValue(name_value) => validator_from_name_value(field, name_value, message),
    }
}

/// One diagnostic for each item after the second among the first `count` items.
pub open spec fn surplus(nested: Seq<NestedMetaView>, count: nat) -> Seq<DiagnosticView>
    decreases count,
{
    if count <= 2 || count > nested.len() {
        Seq::empty()
    } else {
        surplus(nested, (count - 1) as nat).push(
            DiagnosticView {
                kind: DiagnosticKindView::TooManyItems,
                span: nested[count - 1].span(),
            },
        )
    }
}

/// What is wrong with the items after the first: the second is no message
/// override, and any further item is one too many.
pub open spec fn override_errors(nested: Seq<NestedMetaView>) -> Seq<DiagnosticView> {
    (if nested.len() >= 2 && message_fn(nested[1]) is Err {
        seq![message_fn(nested[1])->Err_0]
    } else {
        Seq::empty()
    }) + surplus(nested, nested.len())
}

/// The message override of the attribute: what its second item gives, and
/// the default where there is none or it is wrong.
pub open spec fn override_of(nested: Seq<NestedMetaView>) -> MessageView {
    if nested.len() >= 2 {
        match message_fn(nested[1]) {
            Ok(message) => message,
            Err(_) => MessageView::Default,
        }
    } else {
        MessageView::Default
    }
}

/// What the attribute `#[validate(..)]` with the list `list` compiles to:
/// its first item names the constraint, its second, if there is one, the
/// message override. Everything that is wrong is reported: first with the
/// items after the first, then with the constraint.
pub open spec fn list_validator(field: FieldView, span: Span, list: MetaListView) -> Result<
    ValidatorView,
    Seq<DiagnosticView>,
> {
    if list.nested.len() == 0 {
        Err(seq![DiagnosticView { kind: DiagnosticKindView::AttributeRequired, span }])
    } else {
        match list.nested[0] {
            NestedMetaView::Lit(lit) => Err(
                override_errors(list.nested).push(
                    DiagnosticView { kind: DiagnosticKindView::LiteralMetaItem, span: lit.span },
                ),
            ),
            NestedMetaView::Meta(meta) => match validator_from_meta(
                field,
                meta,
                override_of(list.nested),
            ) {
                Ok(validator) => if override_errors(list.nested).len() == 0 {
                    Ok(validator)
                } else {
                    Err(override_errors(list.nested))
                },
                Err(diagnostics) => Err(override_errors(list.nested) + diagnostics),
            },
        }
    }
}

/// What one attribute on `field` compiles to.
///
/// A bare `#[validate]` hands the value to its own validation; a list names
/// a constraint; an attribute that the host parser could not read, or one
/// written as `name = literal`, is an error.
pub open spec fn meta_validator(field: FieldView, attribute: AttributeView) -> Result<
    ValidatorView,
    Seq<DiagnosticView>,
> {
    match attribute.meta {
        Ok(MetaView::List(list)) => list_validator(field, attribute.span, list),
        Ok(MetaView::Path(_)) => meta_path_validator(field),
        Ok(MetaView::NameValue(_)) => Err(
            seq![
                DiagnosticView { kind: DiagnosticKindView::MetaNameValueItem, span: attribute.span },
            ],
        ),
        Err(complaint) => Err(
            seq![
                DiagnosticView {
                    kind: DiagnosticKindView::AttributeParse(complaint),
                    span: attribute.span,
                },
            ],
        ),
    }
}

fn names_in(class: MetaClass) -> (names: Vec<String>)
    ensures
        views(names@) == names_of(class),
{
    let mut names: Vec<String> = Vec::new();
    match class {
        MetaClass::Path => {
            names.push(String::from_str("unique_items"));
        },
        MetaClass::List => {
            names.push(String::from_str("range"));
            names.push(String::from_str("enumerate"));
        },
        MetaClass::NameValue => {
            names.push(String::from_str("minimum"));
            names.push(String::from_str("maximum"));
            names.push(String::from_str("exclusive_minimum"));
            names.push(String::from_str("exclusive_maximum"));
            names.push(String::from_str("min_length"));
            names.push(String::from_str("max_length"));
            names.push(String::from_str("min_items"));
            names.push(String::from_str("max_items"));
            names.push(String::from_str("multiple_of"));
            names.push(String::from_str("pattern"));
        },
    }
    assert(views(names@) =~= names_of(class));
    names
}

fn listed(names: &Vec<String>, label: &str) -> (found: bool)
    ensures
        found == views(names@).contains(label@),
{
    let mut i: usize = 0;
    while i < names.len()
        invariant
            i <= names.len(),
            forall|j: int| 0 <= j < i ==> views(names@)[j] != label@,
        decreases names.len() - i,
    {
        if str_eq(names[i].as_str(), label) {
            assert(views(names@)[i as int] == label@);
            return true;
        }
        i = i + 1;
    }
    false
}

fn class_of_label(label: &str) -> (class: Option<MetaClass>)
    ensures
        class == class_of(label@),
{
    if listed(&names_in(MetaClass::Path), label) {
        Some(MetaClass::Path)
    } else if listed(&names_in(MetaClass::List), label) {
        Some(MetaClass::List)
    } else if listed(&names_in(MetaClass::NameValue), label) {
        Some(MetaClass::NameValue)
    } else {
        None
    }
}

fn misplaced_name(label: &str, written: MetaClass, span: Span) -> (diagnostic: Diagnostic)
    ensures
        diagnostic@ == misplaced(label@, written, span),
{
    match class_of_label(label) {
        Some(expected) => Diagnostic {
            kind: DiagnosticKind::ClassMismatch { label: String::from_str(label), expected },
            span,
        },
        None => Diagnostic {
            kind: DiagnosticKind::UnknownMeta {
                label: String::from_str(label),
                candidates: names_in(written),
            },
            span,
        },
    }
}

/// Compiles a bare flag inside the attribute.
pub fn extract_validator_from_path(field: &Field, path: &Path, message: Message) -> (validator:
    Result<Validator, Vec<Diagnostic>>)
    ensures
        same_validator(validator, validator_from_path(field@, path@, message@)),
{
    match path.get_ident() {
        None => Err(single(Diagnostic { kind: DiagnosticKind::NotAnIdent, span: path.span })),
        Some(label) => {
            if str_eq(label, "unique_items") {
                extract_array_uniqueness_validator(field, message)
            } else {
                Err(single(misplaced_name(label, MetaClass::Path, path.span)))
            }
        },
    }
}

fn extract_validator_from_nested_meta_list(field: &Field, list: &MetaList, message: Message) -> (validator:
    Result<Validator, Vec<Diagnostic>>)
    ensures
        same_validator(validator, validator_from_list(field@, list@, message@)),
{
    match list.path.get_ident() {
        None => Err(single(Diagnostic { kind: DiagnosticKind::NotAnIdent, span: list.path.span })),
        Some(label) => {
            if str_eq(label, "range") {
                extract_range_validator(field, list, message)
            } else if str_eq(label, "enumerate") {
                extract_generic_enumerate_validator(field, list, message)
            } else {
                Err(single(misplaced_name(label, MetaClass::List, list.path.span)))
            }
        },
    }
}

fn extract_validator_from_nested_meta_name_value(
    field: &Field,
    name_value: &MetaNameValue,
    message: Message,
) -> (validator: Result<Validator, Vec<Diagnostic>>)
    ensures
        same_validator(validator, validator_from_name_value(field@, name_value@, message@)),
{
    match name_value.path.get_ident() {
        None => Err(
            single(Diagnostic { kind: DiagnosticKind::NotAnIdent, span: name_value.path.span }),
        ),
        Some(label) => {
            if str_eq(label, "minimum") || str_eq(label, "exclusive_minimum") || str_eq(
                label,
                "maximum",
            ) || str_eq(label, "exclusive_maximum") {
                extract_bound_validator(field, label, &name_value.lit, message)
            } else if str_eq(label, "min_length") || str_eq(label, "max_length") {
                extract_length_validator(field, label, &name_value.lit, message)
            } else if str_eq(label, "min_items") {
                extract_array_min_items_validator(field, &name_value.lit, message)
            } else if str_eq(label, "max_items") {
                extract_array_max_items_validator(field, &name_value.lit, message)
            } else if str_eq(label, "multiple_of") {
                extract_multiples_validator(field, &name_value.lit, message)
            } else if str_eq(label, "pattern") {
                extract_pattern_validator(field, &name_value.lit, message)
            } else {
                Err(single(misplaced_name(label, MetaClass::NameValue, name_value.path.span)))
            }
        },
    }
}

fn extract_override(nested: &Vec<NestedMeta>) -> (found: (Message, Vec<Diagnostic>))
    ensures
        found.0@ == override_of(crate::syntax::nested_views(nested@)),
        diagnostic_views(found.1@) == override_errors(crate::syntax::nested_views(nested@)),
{
    let ghost items = crate::syntax::nested_views(nested@);
    let mut errors: Vec<Diagnostic> = Vec::new();
    let mut message = Message::Default;
    if nested.len() >= 2 {
        match extract_message_fn_tokens(&nested[1]) {
            Ok(found) => {
                message = found;
            },
            Err(diagnostic) => {
                errors.push(diagnostic);
            },
        }
    }
    let ghost head = diagnostic_views(errors@);
    proof {
        assert(head =~= if items.len() >= 2 && message_fn(items[1]) is Err {
            seq![message_fn(items[1])->Err_0]
        } else {
            Seq::empty()
        });
    }
    let mut i: usize = 2;
    while i < nested.len()
        invariant
            2 <= i,
            i <= nested.len() || nested.len() < 2,
            items == crate::syntax::nested_views(nested@),
            diagnostic_views(errors@) == head + surplus(items, i as nat),
        decreases nested.len() - i,
    {
        let ghost before = diagnostic_views(errors@);
        errors.push(Diagnostic { kind: DiagnosticKind::TooManyItems, span: nested[i].span() });
        proof {
            assert(diagnostic_views(errors@) =~= before.push(
                DiagnosticView { kind: DiagnosticKindView::TooManyItems, span: items[i as int].span() },
            ));
            assert(diagnostic_views(errors@) =~= head + surplus(items, (i + 1) as nat));
        }
        i = i + 1;
    }
    proof {
        if nested.len() < 2 {
            assert(surplus(items, i as nat) =~= surplus(items, items.len()));
        }
    }
    (message, errors)
}

fn inner_extract_meta_validator(field: &Field, span: Span, list: &MetaList) -> (validator: Result<
    Validator,
    Vec<Diagnostic>,
>)
    ensures
        same_validator(validator, list_validator(field@, span, list@)),
{
    broadcast use lemma_meta_list_view;

    if list.nested.len() == 0 {
        return Err(single(Diagnostic { kind: DiagnosticKind::AttributeRequired, span }));
    }
    let (message, mut errors) = extract_override(&list.nested);
    let ghost head = diagnostic_views(errors@);
    proof {
        assert(list@.nested[0] == list.nested@[0]@);
    }
    let validator = match &list.nested[0] {
        NestedMeta::Meta(item) => match item {
            Meta::Path(validation_path) => extract_validator_from_path(
                field,
                validation_path,
                message,
            ),
            Meta::List(validation_list) => extract_validator_from_nested_meta_list(
                field,
                validation_list,
                message,
            ),
            Meta::NameValue(validation_name_value) => extract_validator_from_nested_meta_name_value(
                field,
                validation_name_value,
                message,
            ),
        },
        NestedMeta::Lit(lit) => {
            errors.push(Diagnostic { kind: DiagnosticKind::LiteralMetaItem, span: lit.span });
            proof {
                assert(diagnostic_views(errors@) =~= head.push(
                    DiagnosticView { kind: DiagnosticKindView::LiteralMetaItem, span: lit.span },
                ));
            }
            return Err(errors);
        },
    };
    match validator {
        Ok(validator) => {
            if errors.len() == 0 {
                Ok(validator)
            } else {
                Err(errors)
            }
        },
        Err(mut diagnostics) => {
            let ghost tail = diagnostic_views(diagnostics@);
            errors.append(&mut diagnostics);
            proof {
                assert(diagnostic_views(errors@) =~= head + tail);
            }
            Err(errors)
        },
    }
}

/// Compiles one attribute on `field`.
pub fn extract_meta_validator(field: &Field, attribute: &Attribute) -> (validator: Result<
    Validator,
    Vec<Diagnostic>,
>)
    ensures
        same_validator(validator, meta_validator(field@, attribute@)),
{
    broadcast use lemma_meta_list_view;

    match &attribute.meta {
        Ok(Meta::List(list)) => inner_extract_meta_validator(field, attribute.span, list),
        Ok(Meta::Path(_)) => extract_validator_from_meta_path(field),
        Ok(Meta::NameValue(_)) => Err(
            single(Diagnostic { kind: DiagnosticKind::MetaNameValueItem, span: attribute.span }),
        ),
        Err(error) => Err(
            single(
                Diagnostic {
                    kind: DiagnosticKind::AttributeParse(error.clone()),
                    span: attribute.span,
                },
            ),
        ),
    }
}

/// What has been compiled from the attributes read so far.
pub ghost struct Compiled {
    pub validators: Seq<ValidatorView>,
    pub errors: Seq<DiagnosticView>,
}

/// What the first `count` attributes of a field compile to: one validator
/// for each, in the order of the declarations, and everything that is
/// wrong with any of them.
pub open spec fn compiled(field: FieldView, attributes: Seq<AttributeView>, count: nat) -> Compiled
    decreases count,
{
    if count == 0 || count > attributes.len() {
        Compiled { validators: Seq::empty(), errors: Seq::empty() }
    } else {
        let before = compiled(field, attributes, (count - 1) as nat);
        match meta_validator(field, attributes[count - 1]) {
            Ok(validator) => Compiled { validators: before.validators.push(validator), ..before },
            Err(diagnostics) => Compiled { errors: before.errors + diagnostics, ..before },
        }
    }
}

/// The validators of a field, or everything that is wrong with its attributes.
pub open spec fn field_validators(field: FieldView, attributes: Seq<AttributeView>) -> Result<
    Seq<ValidatorView>,
    Seq<DiagnosticView>,
> {
    let all = compiled(field, attributes, attributes.len());
    if all.errors.len() == 0 {
        Ok(all.validators)
    } else {
        Err(all.errors)
    }
}

/// Compiles every attribute of `field`.
///
/// Succeeds exactly when every attribute compiles; the diagnostics are
/// otherwise those of all attributes, in order.
pub fn extract_field_validators(field: &Field, attributes: &Vec<Attribute>) -> (validators: Result<
    Vec<Validator>,
    Vec<Diagnostic>,
>)
    ensures
        match validators {
            Ok(found) => field_validators(
                field@,
                crate::compile::rule::attribute_views(attributes@),
            ) == Ok::<Seq<ValidatorView>, Seq<DiagnosticView>>(
                crate::validation::value::validator_views(found@),
            ),
            Err(diagnostics) => field_validators(
                field@,
                crate::compile::rule::attribute_views(attributes@),
            ) == Err::<Seq<ValidatorView>, Seq<DiagnosticView>>(diagnostic_views(diagnostics@)),
        },
{
    let ghost all = crate::compile::rule::attribute_views(attributes@);
    let mut validators: Vec<Validator> = Vec::new();
    let mut errors: Vec<Diagnostic> = Vec::new();
    let mut i: usize = 0;
    assert(crate::validation::value::validator_views(validators@) =~= Seq::<
        ValidatorView,
    >::empty());
    assert(diagnostic_views(errors@) =~= Seq::<DiagnosticView>::empty());
    while i < attributes.len()
        invariant
            i <= attributes.len(),
            all == crate::compile::rule::attribute_views(attributes@),
            compiled(field@, all, i as nat) == (Compiled {
                validators: crate::validation::value::validator_views(validators@),
                errors: diagnostic_views(errors@),
            }),
        decreases attributes.len() - i,
    {
        let ghost validators_before = crate::validation::value::validator_views(validators@);
        let ghost errors_before = diagnostic_views(errors@);
        proof {
            assert(all[i as int] == attributes@[i as int]@);
        }
        match extract_meta_validator(field, &attributes[i]) {
            Ok(validator) => {
                let ghost view = validator@;
                validators.push(validator);
                proof {
                    assert(crate::validation::value::validator_views(validators@)
                        =~= validators_before.push(view));
                }
            },
            Err(mut diagnostics) => {
                let ghost tail = diagnostic_views(diagnostics@);
                errors.append(&mut diagnostics);
                proof {
                    assert(diagnostic_views(errors@) =~= errors_before + tail);
                }
            },
        }
        i = i + 1;
    }
    if errors.len() == 0 {
        Ok(validators)
    } else {
        Err(errors)
    }
}

} // verus!
