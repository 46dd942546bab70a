//! Compile-time diagnostics: what is wrong with a declaration, and where.
//!
//! A diagnostic stops the compilation of the declarations it belongs to. It
//! is never a run-time violation.

use vstd::prelude::*;
use crate::syntax::Span;
use crate::text::views;

verus! {

/// The three syntactic classes of a declaration.
#[derive(Clone, Copy, Debug, PartialEq, Eq)]
pub enum MetaClass {
    /// A bare flag.
    Path,
    /// A name with a list of nested items.
    List,
    /// A name with `=` and one literal.
    NameValue,
}

/// What is wrong.
#[derive(Debug, PartialEq, Eq)]
pub enum DiagnosticKind {
    /// The host parser could not read the attribute; its complaint.
    AttributeParse(String),
    /// The attribute has an empty list: no constraint is named.
    AttributeRequired,
    /// The attribute is written as `name = literal`.
    MetaNameValueItem,
    /// A literal stands where a constraint is expected.
    LiteralMetaItem,
    /// More items than one constraint and one message override.
    TooManyItems,
    /// A path of several segments stands where one identifier is expected.
    NotAnIdent,
    /// The name is no constraint of its class; the valid names of the class.
    UnknownMeta { label: String, candidates: Vec<String> },
    /// The name is known, but in another class; the class it belongs to.
    ClassMismatch { label: String, expected: MetaClass },
    /// The literal is of the wrong kind: a string is expected.
    StrLiteralExpected,
    /// The literal is of the wrong kind: a number is expected.
    NumericLiteralExpected,
    /// The literal is of the wrong kind: a count (an integer that is not negative) is expected.
    CountLiteralExpected,
    /// A literal stands where a declaration is expected.
    LiteralNotSupport,
    /// A declaration stands where a literal is expected.
    LiteralOnly,
    /// `message_fn(..)` does not name exactly one function: it names none, or something else.
    MessageFnName,
    /// `message_fn(..)` names more than one function; the span covers the surplus.
    MessageFnTail,
    /// `enumerate()` lists no member.
    EnumerateNeedItem,
    /// `range()` gives neither a minimum nor a maximum.
    RangeNeedBound,
    /// `range(..)` gives the same bound twice.
    RangeBoundRepeated(String),
    /// `multiple_of = 0`.
    ZeroDivisor,
    /// The constraint cannot check a value of the type that the field reaches.
    TypeMismatch { constraint: String, ty: String },
    /// `Vec` without a type in angle brackets.
    VecNotAngleBracketed,
    /// `Option` without a type in angle brackets.
    OptionNotAngleBracketed,
    /// `rule` without a function call.
    RuleNeedFunction,
    /// `rule(..)` with more than one function call.
    RuleAllowSingleFunction,
    /// `rule(f())`: the function is given no field.
    RuleNeedArguments,
    /// `rule(f(..))`: an argument is not a field index.
    RuleAllowIndexArguments,
    /// `rule(f(..))`: an index names no field of the struct.
    RuleIndexOutOfRange(i128),
    /// Two rules claim the same field.
    RuleFieldClaimedTwice(usize),
    /// A bare flag stands where another class of declaration is expected.
    MetaPathNotSupport,
    /// `name = literal` stands where another class of declaration is expected.
    MetaNameValueNotSupport,
    /// `name(..)` stands where `name = literal` is expected.
    MetaListNotSupport,
    /// A declaration on a struct is neither a constraint nor `rule(fn(...))`.
    ExpectedConstraintOrRule,
}

pub ghost enum DiagnosticKindView {
    AttributeParse(Seq<char>),
    AttributeRequired,
    MetaNameValueItem,
    LiteralMetaItem,
    TooManyItems,
    NotAnIdent,
    UnknownMeta { label: Seq<char>, candidates: Seq<Seq<char>> },
    ClassMismatch { label: Seq<char>, expected: MetaClass },
    StrLiteralExpected,
    NumericLiteralExpected,
    CountLiteralExpected,
    LiteralNotSupport,
    LiteralOnly,
    MessageFnName,
    MessageFnTail,
    EnumerateNeedItem,
    RangeNeedBound,
    RangeBoundRepeated(Seq<char>),
    ZeroDivisor,
    TypeMismatch { constraint: Seq<char>, ty: Seq<char> },
    VecNotAngleBracketed,
    OptionNotAngleBracketed,
    RuleNeedFunction,
    RuleAllowSingleFunction,
    RuleNeedArguments,
    RuleAllowIndexArguments,
    RuleIndexOutOfRange(int),
    RuleFieldClaimedTwice(nat),
    MetaPathNotSupport,
    MetaNameValueNotSupport,
    MetaListNotSupport,
    ExpectedConstraintOrRule,
}

impl View for DiagnosticKind {
    type V = DiagnosticKindView;

    open spec fn view(&self) -> DiagnosticKindView {
        match self {
            DiagnosticKind::AttributeParse(complaint) => DiagnosticKindView::AttributeParse(
                complaint@,
            ),
            DiagnosticKind::AttributeRequired => DiagnosticKindView::AttributeRequired,
            DiagnosticKind::MetaNameValueItem => DiagnosticKindView::MetaNameValueItem,
            DiagnosticKind::LiteralMetaItem => DiagnosticKindView::LiteralMetaItem,
            DiagnosticKind::TooManyItems => DiagnosticKindView::TooManyItems,
            DiagnosticKind::NotAnIdent => DiagnosticKindView::NotAnIdent,
            DiagnosticKind::UnknownMeta { label, candidates } => DiagnosticKindView::UnknownMeta {
                label: label@,
                candidates: views(candidates@),
            },
            DiagnosticKind::ClassMismatch { label, expected } => DiagnosticKindView::ClassMismatch {
                label: label@,
                expected: *expected,
            },
            DiagnosticKind::StrLiteralExpected => DiagnosticKindView::StrLiteralExpected,
            DiagnosticKind::NumericLiteralExpected => DiagnosticKindView::NumericLiteralExpected,
            DiagnosticKind::CountLiteralExpected => DiagnosticKindView::CountLiteralExpected,
            DiagnosticKind::LiteralNotSupport => DiagnosticKindView::LiteralNotSupport,
            DiagnosticKind::LiteralOnly => DiagnosticKindView::LiteralOnly,
            DiagnosticKind::MessageFnName => DiagnosticKindView::MessageFnName,
            DiagnosticKind::MessageFnTail => DiagnosticKindView::MessageFnTail,
            DiagnosticKind::EnumerateNeedItem => DiagnosticKindView::EnumerateNeedItem,
            DiagnosticKind::RangeNeedBound => DiagnosticKindView::RangeNeedBound,
            DiagnosticKind::RangeBoundRepeated(label) => DiagnosticKindView::RangeBoundRepeated(
                label@,
            ),
            DiagnosticKind::ZeroDivisor => DiagnosticKindView::ZeroDivisor,
            DiagnosticKind::TypeMismatch { constraint, ty } => DiagnosticKindView::TypeMismatch {
                constraint: constraint@,
                ty: ty@,
            },
            DiagnosticKind::VecNotAngleBracketed => DiagnosticKindView::VecNotAngleBracketed,
            DiagnosticKind::OptionNotAngleBracketed => DiagnosticKindView::OptionNotAngleBracketed,
            DiagnosticKind::RuleNeedFunction => DiagnosticKindView::RuleNeedFunction,
            DiagnosticKind::RuleAllowSingleFunction => DiagnosticKindView::RuleAllowSingleFunction,
            DiagnosticKind::RuleNeedArguments => DiagnosticKindView::RuleNeedArguments,
            DiagnosticKind::RuleAllowIndexArguments => DiagnosticKindView::RuleAllowIndexArguments,
            DiagnosticKind::RuleIndexOutOfRange(index) => DiagnosticKindView::RuleIndexOutOfRange(
                *index as int,
            ),
            DiagnosticKind::RuleFieldClaimedTwice(index) => DiagnosticKindView::RuleFieldClaimedTwice(
                *index as nat,
            ),
            DiagnosticKind::MetaPathNotSupport => DiagnosticKindView::MetaPathNotSupport,
            DiagnosticKind::MetaNameValueNotSupport => DiagnosticKindView::MetaNameValueNotSupport,
            DiagnosticKind::MetaListNotSupport => DiagnosticKindView::MetaListNotSupport,
            DiagnosticKind::ExpectedConstraintOrRule => DiagnosticKindView::ExpectedConstraintOrRule,
        }
    }
}

/// One thing that is wrong with a declaration, and the place it was read from.
#[derive(Debug, PartialEq, Eq)]
pub struct Diagnostic {
    pub kind: DiagnosticKind,
    pub span: Span,
}

pub ghost struct DiagnosticView {
    pub kind: DiagnosticKindView,
    pub span: Span,
}

impl View for Diagnostic {
    type V = DiagnosticView;

    open spec fn view(&self) -> DiagnosticView {
        DiagnosticView { kind: self.kind@, span: self.span }
    }
}

/// The views of a vector of diagnostics.
pub open spec fn diagnostic_views(diagnostics: Seq<Diagnostic>) -> Seq<DiagnosticView> {
    Seq::new(diagnostics.len(), |i: int| diagnostics[i]@)
}

/// How a diagnostic names the way a constraint of a class is written.
pub open spec fn class_form(label: Seq<char>, class: MetaClass) -> Seq<char> {
    match class {
        MetaClass::Path => "the bare flag `"@ + label + "`"@,
        MetaClass::List => "`"@ + label + "(...)`"@,
        MetaClass::NameValue => "`"@ + label + " = ...`"@,
    }
}

impl DiagnosticKindView {
    /// The message: what is wrong and, where a name is wrong, what would be right.
    pub open spec fn message(self) -> Seq<char> {
        match self {
            DiagnosticKindView::AttributeParse(complaint) => "could not read the attribute: "@
                + complaint,
            DiagnosticKindView::UnknownMeta { label, candidates } => "unknown constraint `"@ + label
                + "`: expected one of "@ + crate::text::join(candidates, ", "@) + "."@,
            DiagnosticKindView::ClassMismatch { label, expected } => "`"@ + label
                + "` must be written as "@ + class_form(label, expected) + "."@,
            DiagnosticKindView::RangeBoundRepeated(label) => "`"@ + label
                + "`: this end of the range is already given."@,
            DiagnosticKindView::TypeMismatch { constraint, ty } => "`"@ + constraint
                + "` cannot be held against a value of type `"@ + ty + "`."@,
            DiagnosticKindView::RuleIndexOutOfRange(index) => "the index `"@
                + crate::text::signed_decimal(index) + "` names no field."@,
            DiagnosticKindView::RuleFieldClaimedTwice(index) => "the field `"@
                + crate::text::decimal(index) + "` is already claimed by a rule."@,
            DiagnosticKindView::AttributeRequired => "a constraint is required: `#[validate(...)]`."@,
            DiagnosticKindView::MetaNameValueItem => "`#[validate = ...]` is not supported: write `#[validate(...)]`."@,
            DiagnosticKindView::LiteralMetaItem => "a literal is no constraint."@,
            DiagnosticKindView::TooManyItems => "too many items: one constraint and one message override are allowed."@,
            DiagnosticKindView::NotAnIdent => "expected a single identifier."@,
            DiagnosticKindView::StrLiteralExpected => "expected a string literal."@,
            DiagnosticKindView::NumericLiteralExpected => "expected a number literal."@,
            DiagnosticKindView::CountLiteralExpected => "expected an integer literal that is not negative."@,
            DiagnosticKindView::LiteralNotSupport => "a literal is not supported here."@,
            DiagnosticKindView::LiteralOnly => "only literals are allowed here."@,
            DiagnosticKindView::MessageFnName => "`message_fn(...)` needs the name of one function."@,
            DiagnosticKindView::MessageFnTail => "`message_fn(...)` allows only one function."@,
            DiagnosticKindView::EnumerateNeedItem => "`enumerate(...)` needs at least one item."@,
            DiagnosticKindView::RangeNeedBound => "`range(...)` needs a minimum or a maximum."@,
            DiagnosticKindView::ZeroDivisor => "`multiple_of` must not be zero."@,
            DiagnosticKindView::VecNotAngleBracketed => "`Vec` must be angle bracketed (=`Vec<*>`)."@,
            DiagnosticKindView::OptionNotAngleBracketed => "`Option` must be angle bracketed (=`Option<*>`)."@,
            DiagnosticKindView::RuleNeedFunction => "`#[rule(...)]` needs a function call."@,
            DiagnosticKindView::RuleAllowSingleFunction => "`#[rule(...)]` allows a single function call."@,
            DiagnosticKindView::RuleNeedArguments => "the rule function needs field indices as arguments."@,
            DiagnosticKindView::RuleAllowIndexArguments => "only field indices are allowed as arguments of a rule function."@,
            DiagnosticKindView::MetaPathNotSupport => "a bare flag is not supported here."@,
            DiagnosticKindView::MetaNameValueNotSupport => "`name = value` is not supported here."@,
            DiagnosticKindView::MetaListNotSupport => "`name(...)` is not supported here."@,
            DiagnosticKindView::ExpectedConstraintOrRule => "expected a constraint or `rule(fn(...))`"@,
        }
    }
}

fn class_form_of(label: &str, class: MetaClass) -> (form: String)
    ensures
        form@ == class_form(label@, class),
{
    match class {
        MetaClass::Path => {
            let mut form = String::from_str("the bare flag `");
            form.append(label);
            form.append("`");
            form
        },
        MetaClass::List => {
            let mut form = String::from_str("`");
            form.append(label);
            form.append("(...)`");
            form
        },
        MetaClass::NameValue => {
            let mut form = String::from_str("`");
            form.append(label);
            form.append(" = ...`");
            form
        },
    }
}

impl DiagnosticKind {
    /// The message: what is wrong and, where a name is wrong, what would be right.
    pub fn message(&self) -> (message: String)
        ensures
            message@ == self@.message(),
    {
        match self {
            DiagnosticKind::AttributeParse(complaint) => {
                let mut message = String::from_str("could not read the attribute: ");
                message.append(complaint.as_str());
                message
            },
            DiagnosticKind::UnknownMeta { label, candidates } => {
                let mut message = String::from_str("unknown constraint `");
                message.append(label.as_str());
                message.append("`: expected one of ");
                message.append(crate::text::join_strings(candidates, ", ").as_str());
                message.append(".");
                message
            },
            DiagnosticKind::ClassMismatch { label, expected } => {
                let mut message = String::from_str("`");
                message.append(label.as_str());
                message.append("` must be written as ");
                message.append(class_form_of(label.as_str(), *expected).as_str());
                message.append(".");
                message
            },
            DiagnosticKind::RangeBoundRepeated(label) => {
                let mut message = String::from_str("`");
                message.append(label.as_str());
                message.append("`: this end of the range is already given.");
                message
            },
            DiagnosticKind::TypeMismatch { constraint, ty } => {
                let mut message = String::from_str("`");
                message.append(constraint.as_str());
                message.append("` cannot be held against a value of type `");
                message.append(ty.as_str());
                message.append("`.");
                message
            },
            DiagnosticKind::RuleIndexOutOfRange(index) => {
                let mut message = String::from_str("the index `");
                message.append(crate::text::i128_to_string(*index).as_str());
                message.append("` names no field.");
                message
            },
            DiagnosticKind::RuleFieldClaimedTwice(index) => {
                let mut message = String::from_str("the field `");
                message.append(crate::text::usize_to_string(*index).as_str());
                message.append("` is already claimed by a rule.");
                message
            },
            DiagnosticKind::AttributeRequired => String::from_str("a constraint is required: `#[validate(...)]`."),
            DiagnosticKind::MetaNameValueItem => String::from_str("`#[validate = ...]` is not supported: write `#[validate(...)]`."),
            DiagnosticKind::LiteralMetaItem => String::from_str("a literal is no constraint."),
            DiagnosticKind::TooManyItems => String::from_str("too many items: one constraint and one message override are allowed."),
            DiagnosticKind::NotAnIdent => String::from_str("expected a single identifier."),
            DiagnosticKind::StrLiteralExpected => String::from_str("expected a string literal."),
            DiagnosticKind::NumericLiteralExpected => String::from_str("expected a number literal."),
            DiagnosticKind::CountLiteralExpected => String::from_str("expected an integer literal that is not negative."),
            DiagnosticKind::LiteralNotSupport => String::from_str("a literal is not supported here."),
            DiagnosticKind::LiteralOnly => String::from_str("only literals are allowed here."),
            DiagnosticKind::MessageFnName => String::from_str("`message_fn(...)` needs the name of one function."),
            DiagnosticKind::MessageFnTail => String::from_str("`message_fn(...)` allows only one function."),
            DiagnosticKind::EnumerateNeedItem => String::from_str("`enumerate(...)` needs at least one item."),
            DiagnosticKind::RangeNeedBound => String::from_str("`range(...)` needs a minimum or a maximum."),
            DiagnosticKind::ZeroDivisor => String::from_str("`multiple_of` must not be zero."),
            DiagnosticKind::VecNotAngleBracketed => String::from_str("`Vec` must be angle bracketed (=`Vec<*>`)."),
            DiagnosticKind::OptionNotAngleBracketed => String::from_str("`Option` must be angle bracketed (=`Option<*>`)."),
            DiagnosticKind::RuleNeedFunction => String::from_str("`#[rule(...)]` needs a function call."),
            DiagnosticKind::RuleAllowSingleFunction => String::from_str("`#[rule(...)]` allows a single function call."),
            DiagnosticKind::RuleNeedArguments => String::from_str("the rule function needs field indices as arguments."),
            DiagnosticKind::RuleAllowIndexArguments => String::from_str("only field indices are allowed as arguments of a rule function."),
            DiagnosticKind::MetaPathNotSupport => String::from_str("a bare flag is not supported here."),
            DiagnosticKind::MetaNameValueNotSupport => String::from_str("`name = value` is not supported here."),
            DiagnosticKind::MetaListNotSupport => String::from_str("`name(...)` is not supported here."),
            DiagnosticKind::ExpectedConstraintOrRule => String::from_str("expected a constraint or `rule(fn(...))`"),
        }
    }
}

impl Diagnostic {
    /// The message of the diagnostic.
    pub fn message(&self) -> (message: String)
        ensures
            message@ == self@.kind.message(),
    {
        self.kind.message()
    }
}

} // verus!
