//! Constraints on numbers: single bounds, `range(..)` and `multiple_of`.

use vstd::prelude::*;
use crate::diagnostic::{Diagnostic, DiagnosticKind, DiagnosticKindView, DiagnosticView};
use crate::field::{scalar_kind, type_label, Field, FieldView, ScalarKind};
use crate::syntax::{
    Lit,
    LitValue,
    LitValueView,
    LitView,
    Meta,
    MetaList,
    MetaListView,
    MetaView,
    NestedMeta,
    NestedMetaView,
};
use crate::text::str_eq;
use crate::validator::{
    bound_view,
    container_aware,
    same_check,
    same_validator,
    single,
    Bound,
    BoundView,
    Check,
    CheckView,
    Constraint,
    ConstraintView,
    Message,
    MessageView,
    Number,
    NumberView,
    Validator,
    ValidatorView,
};

verus! {

/// The number that a literal writes; a diagnostic for a literal that is no number.
pub open spec fn numeric_of(lit: LitView) -> Result<NumberView, DiagnosticView> {
    match lit.value {
        LitValueView::Int(i) => Ok(NumberView::Int(i)),
        LitValueView::Float(text) => Ok(NumberView::Float(text)),
        _ => Err(
            DiagnosticView { kind: DiagnosticKindView::NumericLiteralExpected, span: lit.span },
        ),
    }
}

/// The count that a literal writes: an integer from zero to the largest
/// `usize`. A diagnostic for any other literal.
pub open spec fn count_of(lit: LitView) -> Result<nat, DiagnosticView> {
    match lit.value {
        LitValueView::Int(i) if 0 <= i <= usize::MAX => Ok(i as nat),
        _ => Err(DiagnosticView { kind: DiagnosticKindView::CountLiteralExpected, span: lit.span }),
    }
}

/// Whether `c` is a digit other than zero.
pub open spec fn is_nonzero_digit(c: char) -> bool {
    c == '1' || c == '2' || c == '3' || c == '4' || c == '5' || c == '6' || c == '7' || c == '8'
        || c == '9'
}

/// Whether `c` ends the mantissa of a floating-point literal: the exponent
/// mark, or the first letter of a type suffix.
pub open spec fn ends_mantissa(c: char) -> bool {
    c == 'e' || c == 'E' || c == 'f'
}

/// Whether a floating-point literal writes zero: its mantissa holds no digit
/// other than zero.
pub open spec fn float_text_is_zero(text: Seq<char>) -> bool
    decreases text.len(),
{
    if text.len() == 0 {
        true
    } else if ends_mantissa(text[0]) {
        true
    } else if is_nonzero_digit(text[0]) {
        false
    } else {
        float_text_is_zero(text.skip(1))
    }
}

impl NumberView {
    /// Whether the number is zero.
    pub open spec fn is_zero(self) -> bool {
        match self {
            NumberView::Int(i) => i == 0,
            NumberView::Float(text) => float_text_is_zero(text),
        }
    }

    /// Whether a field whose scalar is of `kind` can be compared with the
    /// number: an integer with an integer type, a floating-point literal
    /// with a floating-point type.
    pub open spec fn fits(self, kind: ScalarKind) -> bool {
        match self {
            NumberView::Int(_) => kind == ScalarKind::Integer,
            NumberView::Float(_) => kind == ScalarKind::Float,
        }
    }
}

/// The diagnostic for a constraint that cannot check the type that `field` reaches.
pub open spec fn type_mismatch(constraint: Seq<char>, field: FieldView) -> DiagnosticView {
    DiagnosticView {
        kind: DiagnosticKindView::TypeMismatch { constraint, ty: type_label(field.ty) },
        span: field.ty.span(),
    }
}

/// The check that `multiple_of = lit` compiles to on a scalar field: the
/// literal is a number, is not zero, and is of the field's kind.
pub open spec fn multiples_check(field: FieldView, lit: LitView, message: MessageView) -> Result<
    CheckView,
    Seq<DiagnosticView>,
> {
    match numeric_of(lit) {
        Err(diagnostic) => Err(seq![diagnostic]),
        Ok(number) => if number.is_zero() {
            Err(seq![DiagnosticView { kind: DiagnosticKindView::ZeroDivisor, span: lit.span }])
        } else if !number.fits(scalar_kind(field.ty)) {
            Err(seq![type_mismatch("multiple_of"@, field)])
        } else {
            Ok(
                CheckView {
                    name: field.name,
                    ident: field.ident,
                    constraint: ConstraintView::MultipleOf(number),
                    message,
                },
            )
        },
    }
}

/// What `multiple_of = lit` compiles to on `field`.
pub open spec fn multiples_validator(field: FieldView, lit: LitView, message: MessageView) -> Result<
    ValidatorView,
    Seq<DiagnosticView>,
> {
    container_aware(field, |scalar: FieldView| multiples_check(scalar, lit, message))
}

/// Whether `label` names a lower bound.
pub open spec fn is_minimum_name(label: Seq<char>) -> bool {
    label == "minimum"@ || label == "exclusive_minimum"@
}

/// Whether `label` names an upper bound.
pub open spec fn is_maximum_name(label: Seq<char>) -> bool {
    label == "maximum"@ || label == "exclusive_maximum"@
}

/// Whether `label` names a bound that a value equal to it violates.
pub open spec fn is_exclusive_name(label: Seq<char>) -> bool {
    label == "exclusive_minimum"@ || label == "exclusive_maximum"@
}

/// The names of the bounds.
pub open spec fn bound_names() -> Seq<Seq<char>> {
    seq!["minimum"@, "maximum"@, "exclusive_minimum"@, "exclusive_maximum"@]
}

/// The range with the one bound that `label = number` gives.
pub open spec fn single_bound(label: Seq<char>, number: NumberView) -> ConstraintView {
    let bound = Some(BoundView { value: number, exclusive: is_exclusive_name(label) });
    if is_minimum_name(label) {
        ConstraintView::Range { minimum: bound, maximum: None }
    } else {
        ConstraintView::Range { minimum: None, maximum: bound }
    }
}

/// The check that a single bound, `label = lit` with `label` one of the four
/// bound names, compiles to on a scalar field.
pub open spec fn bound_check(
    field: FieldView,
    label: Seq<char>,
    lit: LitView,
    message: MessageView,
) -> Result<CheckView, Seq<DiagnosticView>> {
    match numeric_of(lit) {
        Err(diagnostic) => Err(seq![diagnostic]),
        Ok(number) => if !number.fits(scalar_kind(field.ty)) {
            Err(seq![type_mismatch(label, field)])
        } else {
            Ok(
                CheckView {
                    name: field.name,
                    ident: field.ident,
                    constraint: single_bound(label, number),
                    message,
                },
            )
        },
    }
}

/// What a single bound compiles to on `field`.
pub open spec fn bound_validator(
    field: FieldView,
    label: Seq<char>,
    lit: LitView,
    message: MessageView,
) -> Result<ValidatorView, Seq<DiagnosticView>> {
    container_aware(field, |scalar: FieldView| bound_check(scalar, label, lit, message))
}

/// The two ends of a range while its items are read.
pub ghost struct Ends {
    pub minimum: Option<BoundView>,
    pub maximum: Option<BoundView>,
}

/// What the item `item` adds to the ends read so far: the bound it names.
/// An item that is not `name = number` with one of the four bound names,
/// or that names an end that is already given, is an error.
pub open spec fn range_step(ends: Ends, item: NestedMetaView) -> Result<Ends, DiagnosticView> {
    match item {
        NestedMetaView::Lit(lit) => Err(
            DiagnosticView { kind: DiagnosticKindView::LiteralNotSupport, span: lit.span },
        ),
        NestedMetaView::Meta(MetaView::Path(path)) => Err(
            DiagnosticView { kind: DiagnosticKindView::MetaPathNotSupport, span: path.span },
        ),
        NestedMetaView::Meta(MetaView::List(list)) => Err(
            DiagnosticView { kind: DiagnosticKindView::MetaListNotSupport, span: list.span },
        ),
        NestedMetaView::Meta(MetaView::NameValue(name_value)) => match name_value.path.ident() {
            None => Err(
                DiagnosticView { kind: DiagnosticKindView::NotAnIdent, span: name_value.path.span },
            ),
            Some(label) => if is_minimum_name(label) || is_maximum_name(label) {
                match numeric_of(name_value.lit) {
                    Err(diagnostic) => Err(diagnostic),
                    Ok(number) => {
                        let bound = Some(
                            BoundView { value: number, exclusive: is_exclusive_name(label) },
                        );
                        if is_minimum_name(label) {
                            if ends.minimum is Some {
                                Err(
                                    DiagnosticView {
                                        kind: DiagnosticKindView::RangeBoundRepeated(label),
                                        span: name_value.path.span,
                                    },
                                )
                            } else {
                                Ok(Ends { minimum: bound, ..ends })
                            }
                        } else {
                            if ends.maximum is Some {
                                Err(
                                    DiagnosticView {
                                        kind: DiagnosticKindView::RangeBoundRepeated(label),
                                        span: name_value.path.span,
                                    },
                                )
                            } else {
                                Ok(Ends { maximum: bound, ..ends })
                            }
                        }
                    },
                }
            } else {
                Err(
                    DiagnosticView {
                        kind: DiagnosticKindView::UnknownMeta { label, candidates: bound_names() },
                        span: name_value.path.span,
                    },
                )
            },
        },
    }
}

/// The ends that the first `count` items of `range(..)` give, or the first error among them.
pub open spec fn range_ends(nested: Seq<NestedMetaView>, count: nat) -> Result<Ends, DiagnosticView>
    decreases count,
{
    if count == 0 || count > nested.len() {
        Ok(Ends { minimum: None, maximum: None })
    } else {
        match range_ends(nested, (count - 1) as nat) {
            Err(diagnostic) => Err(diagnostic),
            Ok(ends) => range_step(ends, nested[count - 1]),
        }
    }
}

/// Whether every bound that is given is of the kind of the field's scalar.
pub open spec fn ends_fit(ends: Ends, kind: ScalarKind) -> bool {
    &&& ends.minimum matches Some(bound) ==> bound.value.fits(kind)
    &&& ends.maximum matches Some(bound) ==> bound.value.fits(kind)
}

/// The check that `range(..)` compiles to on a scalar field: every item
/// names one end, at least one end is given, and each is of the field's kind.
pub open spec fn range_check(field: FieldView, list: MetaListView, message: MessageView) -> Result<
    CheckView,
    Seq<DiagnosticView>,
> {
    match range_ends(list.nested, list.nested.len()) {
        Err(diagnostic) => Err(seq![diagnostic]),
        Ok(ends) => if ends.minimum is None && ends.maximum is None {
            Err(seq![DiagnosticView { kind: DiagnosticKindView::RangeNeedBound, span: list.span }])
        } else if !ends_fit(ends, scalar_kind(field.ty)) {
            Err(seq![type_mismatch("range"@, field)])
        } else {
            Ok(
                CheckView {
                    name: field.name,
                    ident: field.ident,
                    constraint: ConstraintView::Range {
                        minimum: ends.minimum,
                        maximum: ends.maximum,
                    },
                    message,
                },
            )
        },
    }
}

/// What `range(..)` compiles to on `field`.
pub open spec fn range_validator(field: FieldView, list: MetaListView, message: MessageView) -> Result<
    ValidatorView,
    Seq<DiagnosticView>,
> {
    container_aware(field, |scalar: FieldView| range_check(scalar, list, message))
}

/// The number that a literal writes.
pub fn get_numeric(lit: &Lit) -> (number: Result<Number, Diagnostic>)
    ensures
        match number {
            Ok(found) => numeric_of(lit@) == Ok::<NumberView, DiagnosticView>(found@),
            Err(diagnostic) => numeric_of(lit@) == Err::<NumberView, DiagnosticView>(diagnostic@),
        },
{
    match &lit.value {
        LitValue::Int(i) => Ok(Number::Int(*i)),
        LitValue::Float(text) => Ok(Number::Float(text.clone())),
        _ => Err(Diagnostic { kind: DiagnosticKind::NumericLiteralExpected, span: lit.span }),
    }
}

/// The count that a literal writes.
pub fn get_count(lit: &Lit) -> (count: Result<usize, Diagnostic>)
    ensures
        match count {
            Ok(found) => count_of(lit@) == Ok::<nat, DiagnosticView>(found as nat),
            Err(diagnostic) => count_of(lit@) == Err::<nat, DiagnosticView>(diagnostic@),
        },
{
    match &lit.value {
        LitValue::Int(i) => {
            if 0 <= *i && *i <= usize::MAX as i128 {
                Ok(*i as usize)
            } else {
                Err(Diagnostic { kind: DiagnosticKind::CountLiteralExpected, span: lit.span })
            }
        },
        _ => Err(Diagnostic { kind: DiagnosticKind::CountLiteralExpected, span: lit.span }),
    }
}

fn nonzero_digit(c: char) -> (yes: bool)
    ensures
        yes == is_nonzero_digit(c),
{
    c == '1' || c == '2' || c == '3' || c == '4' || c == '5' || c == '6' || c == '7' || c == '8'
        || c == '9'
}

fn float_is_zero(text: &str) -> (zero: bool)
    ensures
        zero == float_text_is_zero(text@),
{
    let len = text.unicode_len();
    let mut i: usize = 0;
    proof {
        assert(text@.skip(0) =~= text@);
    }
    while i < len
        invariant
            i <= len,
            len == text@.len(),
            float_text_is_zero(text@) == float_text_is_zero(text@.skip(i as int)),
        decreases len - i,
    {
        let c = text.get_char(i);
        proof {
            assert(text@.skip(i as int)[0] == c);
            assert(text@.skip(i as int).skip(1) =~= text@.skip(i + 1));
        }
        if c == 'e' || c == 'E' || c == 'f' {
            return true;
        }
        if nonzero_digit(c) {
            return false;
        }
        i = i + 1;
    }
    true
}

impl Number {
    /// Whether the number is zero.
    pub fn is_zero(&self) -> (zero: bool)
        ensures
            zero == self@.is_zero(),
    {
        match self {
            Number::Int(i) => *i == 0,
            Number::Float(text) => float_is_zero(text.as_str()),
        }
    }

    /// Whether a field whose scalar is of `kind` can be compared with the number.
    pub fn fits(&self, kind: ScalarKind) -> (yes: bool)
        ensures
            yes == self@.fits(kind),
    {
        match self {
            Number::Int(_) => matches!(kind, ScalarKind::Integer),
            Number::Float(_) => matches!(kind, ScalarKind::Float),
        }
    }
}

/// The diagnostic for a constraint that cannot check the type that `field` reaches.
pub fn type_mismatch_of(constraint: &str, field: &Field) -> (diagnostic: Diagnostic)
    ensures
        diagnostic@ == type_mismatch(constraint@, field@),
{
    Diagnostic {
        kind: DiagnosticKind::TypeMismatch {
            constraint: String::from_str(constraint),
            ty: field.ty.label(),
        },
        span: field.ty.span(),
    }
}

fn inner_extract_multiples_validator(field: &Field, lit: &Lit, message: Message) -> (check: Result<
    Check,
    Vec<Diagnostic>,
>)
    ensures
        same_check(check, multiples_check(field@, lit@, message@)),
{
    match get_numeric(lit) {
        Err(diagnostic) => Err(single(diagnostic)),
        Ok(multiple_of) => {
            if multiple_of.is_zero() {
                Err(single(Diagnostic { kind: DiagnosticKind::ZeroDivisor, span: lit.span }))
            } else if !multiple_of.fits(field.ty.scalar_kind()) {
                Err(single(type_mismatch_of("multiple_of", field)))
            } else {
                Ok(
                    Check {
                        name: field.name.clone(),
                        ident: field.ident.clone(),
                        constraint: Constraint::MultipleOf(multiple_of),
                        message,
                    },
                )
            }
        },
    }
}

/// Compiles `multiple_of = lit` on `field`.
pub fn extract_multiples_validator(field: &Field, lit: &Lit, message: Message) -> (validator:
    Result<Validator, Vec<Diagnostic>>)
    ensures
        same_validator(validator, multiples_validator(field@, lit@, message@)),
    decreases field@.ty,
{
    match field.array_field() {
        Err(diagnostic) => Err(single(diagnostic)),
        Ok(Some(array_field)) => match extract_multiples_validator(&array_field, lit, message) {
            Ok(inner) => Ok(Validator::Array(Box::new(inner))),
            Err(diagnostics) => Err(diagnostics),
        },
        Ok(None) => match field.option_field() {
            Err(diagnostic) => Err(single(diagnostic)),
            Ok(Some(option_field)) => match extract_multiples_validator(
                &option_field,
                lit,
                message,
            ) {
                Ok(inner) => Ok(Validator::Option(Box::new(inner))),
                Err(diagnostics) => Err(diagnostics),
            },
            Ok(None) => match inner_extract_multiples_validator(field, lit, message) {
                Ok(check) => Ok(Validator::Normal(check)),
                Err(diagnostics) => Err(diagnostics),
            },
        },
    }
}

fn minimum_name(label: &str) -> (yes: bool)
    ensures
        yes == is_minimum_name(label@),
{
    str_eq(label, "minimum") || str_eq(label, "exclusive_minimum")
}

fn maximum_name(label: &str) -> (yes: bool)
    ensures
        yes == is_maximum_name(label@),
{
    str_eq(label, "maximum") || str_eq(label, "exclusive_maximum")
}

fn exclusive_name(label: &str) -> (yes: bool)
    ensures
        yes == is_exclusive_name(label@),
{
    str_eq(label, "exclusive_minimum") || str_eq(label, "exclusive_maximum")
}

fn inner_extract_bound_validator(field: &Field, label: &str, lit: &Lit, message: Message) -> (check:
    Result<Check, Vec<Diagnostic>>)
    ensures
        same_check(check, bound_check(field@, label@, lit@, message@)),
{
    match get_numeric(lit) {
        Err(diagnostic) => Err(single(diagnostic)),
        Ok(number) => {
            if !number.fits(field.ty.scalar_kind()) {
                Err(single(type_mismatch_of(label, field)))
            } else {
                let bound = Some(Bound { value: number, exclusive: exclusive_name(label) });
                let constraint = if minimum_name(label) {
                    Constraint::Range { minimum: bound, maximum: None }
                } else {
                    Constraint::Range { minimum: None, maximum: bound }
                };
                Ok(
                    Check {
                        name: field.name.clone(),
                        ident: field.ident.clone(),
                        constraint,
                        message,
                    },
                )
            }
        },
    }
}

/// Compiles a single bound, `label = lit`, on `field`.
pub fn extract_bound_validator(field: &Field, label: &str, lit: &Lit, message: Message) -> (validator:
    Result<Validator, Vec<Diagnostic>>)
    ensures
        same_validator(validator, bound_validator(field@, label@, lit@, message@)),
    decreases field@.ty,
{
    match field.array_field() {
        Err(diagnostic) => Err(single(diagnostic)),
        Ok(Some(array_field)) => match extract_bound_validator(&array_field, label, lit, message) {
            Ok(inner) => Ok(Validator::Array(Box::new(inner))),
            Err(diagnostics) => Err(diagnostics),
        },
        Ok(None) => match field.option_field() {
            Err(diagnostic) => Err(single(diagnostic)),
            Ok(Some(option_field)) => match extract_bound_validator(
                &option_field,
                label,
                lit,
                message,
            ) {
                Ok(inner) => Ok(Validator::Option(Box::new(inner))),
                Err(diagnostics) => Err(diagnostics),
            },
            Ok(None) => match inner_extract_bound_validator(field, label, lit, message) {
                Ok(check) => Ok(Validator::Normal(check)),
                Err(diagnostics) => Err(diagnostics),
            },
        },
    }
}

/// An error among the first items of a range is the error of the whole range.
proof fn lemma_range_error_stays(nested: Seq<NestedMetaView>, count: nat, more: nat)
    requires
        count <= more <= nested.len(),
        range_ends(nested, count) is Err,
    ensures
        range_ends(nested, more) == range_ends(nested, count),
    decreases more,
{
    if count < more {
        lemma_range_error_stays(nested, count, (more - 1) as nat);
    }
}

fn bound_names_of() -> (names: Vec<String>)
    ensures
        crate::text::views(names@) == bound_names(),
{
    let mut names: Vec<String> = Vec::new();
    names.push(String::from_str("minimum"));
    names.push(String::from_str("maximum"));
    names.push(String::from_str("exclusive_minimum"));
    names.push(String::from_str("exclusive_maximum"));
    assert(crate::text::views(names@) =~= bound_names());
    names
}

fn fits_kind(bound: &Option<Bound>, kind: ScalarKind) -> (yes: bool)
    ensures
        yes == (bound_view(*bound) matches Some(end) ==> end.value.fits(kind)),
{
    match bound {
        Some(end) => end.value.fits(kind),
        None => true,
    }
}

fn inner_extract_range_validator(field: &Field, list: &MetaList, message: Message) -> (check:
    Result<Check, Vec<Diagnostic>>)
    ensures
        same_check(check, range_check(field@, list@, message@)),
{
    broadcast use crate::syntax::lemma_meta_list_view;

    let mut minimum: Option<Bound> = None;
    let mut maximum: Option<Bound> = None;
    let mut i: usize = 0;
    while i < list.nested.len()
        invariant
            i <= list.nested.len(),
            list@.nested.len() == list.nested.len(),
            range_ends(list@.nested, i as nat) == Ok::<Ends, DiagnosticView>(
                Ends { minimum: bound_view(minimum), maximum: bound_view(maximum) },
            ),
        decreases list.nested.len() - i,
    {
        proof {
            assert(list@.nested[i as int] == list.nested@[i as int]@);
            if range_ends(list@.nested, (i + 1) as nat) is Err {
                lemma_range_error_stays(list@.nested, (i + 1) as nat, list@.nested.len());
            }
        }
        match &list.nested[i] {
            NestedMeta::Lit(lit) => {
                return Err(
                    single(Diagnostic { kind: DiagnosticKind::LiteralNotSupport, span: lit.span }),
                );
            },
            NestedMeta::Meta(Meta::Path(path)) => {
                return Err(
                    single(Diagnostic { kind: DiagnosticKind::MetaPathNotSupport, span: path.span }),
                );
            },
            NestedMeta::Meta(Meta::List(inner)) => {
                return Err(
                    single(
                        Diagnostic { kind: DiagnosticKind::MetaListNotSupport, span: inner.span },
                    ),
                );
            },
            NestedMeta::Meta(Meta::NameValue(name_value)) => {
                match name_value.path.get_ident() {
                    None => {
                        return Err(
                            single(
                                Diagnostic {
                                    kind: DiagnosticKind::NotAnIdent,
                                    span: name_value.path.span,
                                },
                            ),
                        );
                    },
                    Some(label) => {
                        let lower = minimum_name(label);
                        if lower || maximum_name(label) {
                            match get_numeric(&name_value.lit) {
                                Err(diagnostic) => {
                                    return Err(single(diagnostic));
                                },
                                Ok(number) => {
                                    let taken = if lower {
                                        minimum.is_some()
                                    } else {
                                        maximum.is_some()
                                    };
                                    if taken {
                                        return Err(
                                            single(
                                                Diagnostic {
                                                    kind: DiagnosticKind::RangeBoundRepeated(
                                                        String::from_str(label),
                                                    ),
                                                    span: name_value.path.span,
                                                },
                                            ),
                                        );
                                    }
                                    let bound = Some(
                                        Bound { value: number, exclusive: exclusive_name(label) },
                                    );
                                    if lower {
                                        minimum = bound;
                                    } else {
                                        maximum = bound;
                                    }
                                },
                            }
                        } else {
                            return Err(
                                single(
                                    Diagnostic {
                                        kind: DiagnosticKind::UnknownMeta {
                                            label: String::from_str(label),
                                            candidates: bound_names_of(),
                                        },
                                        span: name_value.path.span,
                                    },
                                ),
                            );
                        }
                    },
                }
            },
        }
        i = i + 1;
    }
    if minimum.is_none() && maximum.is_none() {
        Err(single(Diagnostic { kind: DiagnosticKind::RangeNeedBound, span: list.span }))
    } else {
        let kind = field.ty.scalar_kind();
        if !(fits_kind(&minimum, kind) && fits_kind(&maximum, kind)) {
            Err(single(type_mismatch_of("range", field)))
        } else {
            Ok(
                Check {
                    name: field.name.clone(),
                    ident: field.ident.clone(),
                    constraint: Constraint::Range { minimum, maximum },
                    message,
                },
            )
        }
    }
}

/// Compiles `range(..)` on `field`.
pub fn extract_range_validator(field: &Field, list: &MetaList, message: Message) -> (validator:
    Result<Validator, Vec<Diagnostic>>)
    ensures
        same_validator(validator, range_validator(field@, list@, message@)),
    decreases field@.ty,
{
    match field.array_field() {
        Err(diagnostic) => Err(single(diagnostic)),
        Ok(Some(array_field)) => match extract_range_validator(&array_field, list, message) {
            Ok(inner) => Ok(Validator::Array(Box::new(inner))),
            Err(diagnostics) => Err(diagnostics),
        },
        Ok(None) => match field.option_field() {
            Err(diagnostic) => Err(single(diagnostic)),
            Ok(Some(option_field)) => match extract_range_validator(&option_field, list, message) {
                Ok(inner) => Ok(Validator::Option(Box::new(inner))),
                Err(diagnostics) => Err(diagnostics),
            },
            Ok(None) => match inner_extract_range_validator(field, list, message) {
                Ok(check) => Ok(Validator::Normal(check)),
                Err(diagnostics) => Err(diagnostics),
            },
        },
    }
}

} // verus!
