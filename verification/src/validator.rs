//! The compiled form of a declaration.
//!
//! A [`Validator`] has as many `Array` and `Option` layers as the field's
//! declared type has container layers, around one [`Check`].

use vstd::prelude::*;
use crate::diagnostic::{diagnostic_views, Diagnostic, DiagnosticView};
use crate::field::FieldView;
use crate::syntax::{Ident, IdentView, LitValue, LitValueView, Path, PathView};

verus! {

/// A number of a declaration.
#[derive(Debug, PartialEq, Eq)]
pub enum Number {
    Int(i128),
    /// A floating-point literal, as it was written.
    Float(String),
}

pub ghost enum NumberView {
    Int(int),
    Float(Seq<char>),
}

impl View for Number {
    type V = NumberView;

    open spec fn view(&self) -> NumberView {
        match self {
            Number::Int(i) => NumberView::Int(*i as int),
            Number::Float(text) => NumberView::Float(text@),
        }
    }
}

/// One end of a range.
#[derive(Debug, PartialEq, Eq)]
pub struct Bound {
    pub value: Number,
    /// Whether a value equal to the bound is outside the range.
    pub exclusive: bool,
}

pub ghost struct BoundView {
    pub value: NumberView,
    pub exclusive: bool,
}

impl View for Bound {
    type V = BoundView;

    open spec fn view(&self) -> BoundView {
        BoundView { value: self.value@, exclusive: self.exclusive }
    }
}

/// The view of an optional bound.
pub open spec fn bound_view(bound: Option<Bound>) -> Option<BoundView> {
    match bound {
        Some(b) => Some(b@),
        None => None,
    }
}

/// The views of a vector of literals.
pub open spec fn lit_value_views(lits: Seq<LitValue>) -> Seq<LitValueView> {
    Seq::new(lits.len(), |i: int| lits[i]@)
}

/// What a check demands of a value.
#[derive(Debug, PartialEq, Eq)]
pub enum Constraint {
    /// The number lies within the bounds; at least one of them is given.
    Range { minimum: Option<Bound>, maximum: Option<Bound> },
    /// The text has at least this many characters.
    MinLength(usize),
    /// The text has at most this many characters.
    MaxLength(usize),
    /// The sequence has at least this many items.
    MinItems(usize),
    /// The sequence has at most this many items.
    MaxItems(usize),
    /// The number is a multiple of this one, which is not zero.
    MultipleOf(Number),
    /// The text matches this regular expression.
    Pattern(String),
    /// The value equals one of these literals; there is at least one.
    Enumerate(Vec<LitValue>),
    /// No two items of the sequence are equal.
    UniqueItems,
    /// The value's own validation finds nothing.
    Nested,
}

pub ghost enum ConstraintView {
    Range { minimum: Option<BoundView>, maximum: Option<BoundView> },
    MinLength(nat),
    MaxLength(nat),
    MinItems(nat),
    MaxItems(nat),
    MultipleOf(NumberView),
    Pattern(Seq<char>),
    Enumerate(Seq<LitValueView>),
    UniqueItems,
    Nested,
}

impl View for Constraint {
    type V = ConstraintView;

    open spec fn view(&self) -> ConstraintView {
        match self {
            Constraint::Range { minimum, maximum } => ConstraintView::Range {
                minimum: bound_view(*minimum),
                maximum: bound_view(*maximum),
            },
            Constraint::MinLength(n) => ConstraintView::MinLength(*n as nat),
            Constraint::MaxLength(n) => ConstraintView::MaxLength(*n as nat),
            Constraint::MinItems(n) => ConstraintView::MinItems(*n as nat),
            Constraint::MaxItems(n) => ConstraintView::MaxItems(*n as nat),
            Constraint::MultipleOf(n) => ConstraintView::MultipleOf(n@),
            Constraint::Pattern(p) => ConstraintView::Pattern(p@),
            Constraint::Enumerate(lits) => ConstraintView::Enumerate(lit_value_views(lits@)),
            Constraint::UniqueItems => ConstraintView::UniqueItems,
            Constraint::Nested => ConstraintView::Nested,
        }
    }
}

/// Where the text of a violation comes from.
#[derive(Debug, PartialEq, Eq)]
pub enum Message {
    /// From the default formatter of the constraint's kind.
    Default,
    /// This text, whatever the violation holds.
    Literal(String),
    /// From the function of this name, called with the violation's parameters.
    Function(Path),
}

pub ghost enum MessageView {
    Default,
    Literal(Seq<char>),
    Function(PathView),
}

impl View for Message {
    type V = MessageView;

    open spec fn view(&self) -> MessageView {
        match self {
            Message::Default => MessageView::Default,
            Message::Literal(text) => MessageView::Literal(text@),
            Message::Function(path) => MessageView::Function(path@),
        }
    }
}

impl Clone for Message {
    fn clone(&self) -> (copy: Message)
        ensures
            copy@ == self@,
    {
        match self {
            Message::Default => Message::Default,
            Message::Literal(text) => Message::Literal(text.clone()),
            Message::Function(path) => Message::Function(path.clone()),
        }
    }
}

/// One check against one value.
#[derive(Debug, PartialEq, Eq)]
pub struct Check {
    /// The name under which a violation is reported.
    pub name: String,
    /// The identifier that stands for the value that is checked.
    pub ident: Ident,
    pub constraint: Constraint,
    pub message: Message,
}

pub ghost struct CheckView {
    pub name: Seq<char>,
    pub ident: IdentView,
    pub constraint: ConstraintView,
    pub message: MessageView,
}

impl View for Check {
    type V = CheckView;

    open spec fn view(&self) -> CheckView {
        CheckView {
            name: self.name@,
            ident: self.ident@,
            constraint: self.constraint@,
            message: self.message@,
        }
    }
}

/// A compiled declaration.
#[derive(Debug, PartialEq, Eq)]
pub enum Validator {
    /// One check against the value.
    Normal(Check),
    /// The inner validator against every item of a sequence, in order.
    Array(Box<Validator>),
    /// The inner validator against a value that is present.
    Option(Box<Validator>),
}

pub ghost enum ValidatorView {
    Normal(CheckView),
    Array(Box<ValidatorView>),
    Option(Box<ValidatorView>),
}

impl ValidatorView {
    /// The number of container layers around the check.
    pub open spec fn layers(self) -> nat
        decreases self,
    {
        match self {
            ValidatorView::Normal(_) => 0,
            ValidatorView::Array(inner) => 1 + inner.layers(),
            ValidatorView::Option(inner) => 1 + inner.layers(),
        }
    }
}

/// The mathematical value of a validator.
pub open spec fn validator_view(validator: Validator) -> ValidatorView
    decreases validator,
{
    match validator {
        Validator::Normal(check) => ValidatorView::Normal(check@),
        Validator::Array(inner) => ValidatorView::Array(Box::new(validator_view(*inner))),
        Validator::Option(inner) => ValidatorView::Option(Box::new(validator_view(*inner))),
    }
}

impl View for Validator {
    type V = ValidatorView;

    open spec fn view(&self) -> ValidatorView {
        validator_view(*self)
    }
}

/// Whether the result of an extractor is the one that a specification names.
pub open spec fn same_validator(
    found: Result<Validator, Vec<Diagnostic>>,
    expected: Result<ValidatorView, Seq<DiagnosticView>>,
) -> bool {
    match found {
        Ok(validator) => expected == Ok::<ValidatorView, Seq<DiagnosticView>>(validator@),
        Err(diagnostics) => expected == Err::<ValidatorView, Seq<DiagnosticView>>(
            diagnostic_views(diagnostics@),
        ),
    }
}

/// Whether the result of a leaf extractor is the one that a specification names.
pub open spec fn same_check(
    found: Result<Check, Vec<Diagnostic>>,
    expected: Result<CheckView, Seq<DiagnosticView>>,
) -> bool {
    match found {
        Ok(check) => expected == Ok::<CheckView, Seq<DiagnosticView>>(check@),
        Err(diagnostics) => expected == Err::<CheckView, Seq<DiagnosticView>>(
            diagnostic_views(diagnostics@),
        ),
    }
}

/// The shape recursion that every extractor of a per-value constraint
/// follows: a field that peels as a sequence gives `Array` around what its
/// elements give; else one that peels as an optional value gives `Option`
/// around what the wrapped value gives; else the field is the scalar, and
/// `leaf` compiles the check against it.
pub open spec fn container_aware(
    field: FieldView,
    leaf: spec_fn(FieldView) -> Result<CheckView, Seq<DiagnosticView>>,
) -> Result<ValidatorView, Seq<DiagnosticView>>
    decreases field.ty,
{
    match field.array_field() {
        Err(diagnostic) => Err(seq![diagnostic]),
        Ok(Some(element)) => match container_aware(element, leaf) {
            Ok(inner) => Ok(ValidatorView::Array(Box::new(inner))),
            Err(diagnostics) => Err(diagnostics),
        },
        Ok(None) => match field.option_field() {
            Err(diagnostic) => Err(seq![diagnostic]),
            Ok(Some(wrapped)) => match container_aware(wrapped, leaf) {
                Ok(inner) => Ok(ValidatorView::Option(Box::new(inner))),
                Err(diagnostics) => Err(diagnostics),
            },
            Ok(None) => match leaf(field) {
                Ok(check) => Ok(ValidatorView::Normal(check)),
                Err(diagnostics) => Err(diagnostics),
            },
        },
    }
}

/// The shape recursion of a constraint on a sequence as a whole: optional
/// layers are peeled, and the first type that is not optional is the one
/// that `leaf` compiles the check against.
pub open spec fn sequence_aware(
    field: FieldView,
    leaf: spec_fn(FieldView) -> Result<CheckView, Seq<DiagnosticView>>,
) -> Result<ValidatorView, Seq<DiagnosticView>>
    decreases field.ty,
{
    match field.option_field() {
        Err(diagnostic) => Err(seq![diagnostic]),
        Ok(Some(wrapped)) => match sequence_aware(wrapped, leaf) {
            Ok(inner) => Ok(ValidatorView::Option(Box::new(inner))),
            Err(diagnostics) => Err(diagnostics),
        },
        Ok(None) => match leaf(field) {
            Ok(check) => Ok(ValidatorView::Normal(check)),
            Err(diagnostics) => Err(diagnostics),
        },
    }
}

/// A vector that holds one diagnostic.
pub fn single(diagnostic: Diagnostic) -> (diagnostics: Vec<Diagnostic>)
    ensures
        diagnostic_views(diagnostics@) == seq![diagnostic@],
{
    let mut diagnostics: Vec<Diagnostic> = Vec::new();
    diagnostics.push(diagnostic);
    assert(diagnostic_views(diagnostics@) =~= seq![diagnostic@]);
    diagnostics
}

/// The number of container layers of a field's type: the sequences and
/// optional values that are peeled before a scalar is reached.
pub open spec fn container_layers(field: FieldView) -> nat
    decreases field.ty,
{
    match field.array_field() {
        Ok(Some(element)) => 1 + container_layers(element),
        Ok(None) => match field.option_field() {
            Ok(Some(wrapped)) => 1 + container_layers(wrapped),
            _ => 0,
        },
        Err(_) => 0,
    }
}

/// A compiled validator has exactly one layer for each container layer of
/// the field's type.
pub proof fn lemma_layers_match(
    field: FieldView,
    leaf: spec_fn(FieldView) -> Result<CheckView, Seq<DiagnosticView>>,
)
    ensures
        container_aware(field, leaf) matches Ok(validator) ==> validator.layers()
            == container_layers(field),
    decreases field.ty,
{
    match field.array_field() {
        Ok(Some(element)) => {
            lemma_layers_match(element, leaf);
        },
        Ok(None) => match field.option_field() {
            Ok(Some(wrapped)) => {
                lemma_layers_match(wrapped, leaf);
            },
            _ => {},
        },
        Err(_) => {},
    }
}

/// A constraint declared on a sequence of optional scalars compiles to
/// the check against the scalar, under `Option`, under `Array`.
pub proof fn lemma_sequence_of_optional(
    field: FieldView,
    element: FieldView,
    scalar: FieldView,
    leaf: spec_fn(FieldView) -> Result<CheckView, Seq<DiagnosticView>>,
)
    requires
        field.array_field() == Ok::<Option<FieldView>, DiagnosticView>(Some(element)),
        element.array_field() == Ok::<Option<FieldView>, DiagnosticView>(None),
        element.option_field() == Ok::<Option<FieldView>, DiagnosticView>(Some(scalar)),
        scalar.array_field() == Ok::<Option<FieldView>, DiagnosticView>(None),
        scalar.option_field() == Ok::<Option<FieldView>, DiagnosticView>(None),
    ensures
        container_aware(field, leaf) == (match leaf(scalar) {
            Ok(check) => Ok(
                ValidatorView::Array(
                    Box::new(ValidatorView::Option(Box::new(ValidatorView::Normal(check)))),
                ),
            ),
            Err(diagnostics) => Err(diagnostics),
        }),
{
    reveal_with_fuel(container_aware, 3);
}

} // verus!
