//! Message overrides: `message = "text"` and `message_fn(function)`.

use vstd::prelude::*;
use crate::diagnostic::{
    Diagnostic,
    DiagnosticKind,
    DiagnosticKindView,
    DiagnosticView,
    MetaClass,
};
use crate::syntax::{
    lemma_meta_list_view,
    Lit,
    LitValue,
    LitValueView,
    LitView,
    Meta,
    MetaList,
    MetaListView,
    MetaNameValue,
    MetaNameValueView,
    MetaView,
    NestedMeta,
    NestedMetaView,
    Path,
    PathView,
    Span,
};
use crate::text::str_eq;
use crate::validator::{Message, MessageView};

verus! {

/// The names of the overrides that are written as `name = literal`.
pub open spec fn name_value_message_names() -> Seq<Seq<char>> {
    seq!["message"@]
}

/// The names of the overrides that are written as `name(..)`.
pub open spec fn list_message_names() -> Seq<Seq<char>> {
    seq!["message_fn"@]
}

/// The text of a string literal; a diagnostic for a literal of another kind.
pub open spec fn str_of(lit: LitView) -> Result<Seq<char>, DiagnosticView> {
    match lit.value {
        LitValueView::Str(text) => Ok(text),
        _ => Err(DiagnosticView { kind: DiagnosticKindView::StrLiteralExpected, span: lit.span }),
    }
}

/// The function that `message_fn(..)` names: its one item, which is a path.
/// No item, or one that is no path, is an error at that place; more than
/// one is an error that covers every item after the first.
pub open spec fn message_fn_from_nested_meta(nested: Seq<NestedMetaView>, span: Span) -> Result<
    MessageView,
    DiagnosticView,
> {
    if nested.len() == 0 {
        Err(DiagnosticView { kind: DiagnosticKindView::MessageFnName, span })
    } else if nested.len() == 1 {
        match nested[0] {
            NestedMetaView::Meta(MetaView::Path(fn_name)) => Ok(MessageView::Function(fn_name)),
            _ => Err(
                DiagnosticView { kind: DiagnosticKindView::MessageFnName, span: nested[0].span() },
            ),
        }
    } else {
        Err(
            DiagnosticView {
                kind: DiagnosticKindView::MessageFnTail,
                span: nested[1].span().join_spec(nested.last().span()),
            },
        )
    }
}

/// The override that a list declaration gives: `message_fn(function)`.
/// `message(..)` is a class mismatch, any other name is unknown.
pub open spec fn message_fn_from_meta_list(list: MetaListView) -> Result<
    MessageView,
    DiagnosticView,
> {
    match list.path.ident() {
        None => Err(DiagnosticView { kind: DiagnosticKindView::NotAnIdent, span: list.path.span }),
        Some(label) => if label == "message_fn"@ {
            message_fn_from_nested_meta(list.nested, list.span)
        } else if label == "message"@ {
            Err(
                DiagnosticView {
                    kind: DiagnosticKindView::ClassMismatch {
                        label,
                        expected: MetaClass::NameValue,
                    },
                    span: list.path.span,
                },
            )
        } else {
            Err(
                DiagnosticView {
                    kind: DiagnosticKindView::UnknownMeta {
                        label,
                        candidates: list_message_names(),
                    },
                    span: list.path.span,
                },
            )
        },
    }
}

/// The override that a `name = literal` declaration gives: `message = "text"`.
/// `message_fn = ..` is a class mismatch, any other name is unknown.
pub open spec fn message_fn_from_name_value(name_value: MetaNameValueView) -> Result<
    MessageView,
    DiagnosticView,
> {
    match name_value.path.ident() {
        None => Err(
            DiagnosticView { kind: DiagnosticKindView::NotAnIdent, span: name_value.path.span },
        ),
        Some(label) => if label == "message"@ {
            match str_of(name_value.lit) {
                Ok(text) => Ok(MessageView::Literal(text)),
                Err(diagnostic) => Err(diagnostic),
            }
        } else if label == "message_fn"@ {
            Err(
                DiagnosticView {
                    kind: DiagnosticKindView::ClassMismatch { label, expected: MetaClass::List },
                    span: name_value.path.span,
                },
            )
        } else {
            Err(
                DiagnosticView {
                    kind: DiagnosticKindView::UnknownMeta {
                        label,
                        candidates: name_value_message_names(),
                    },
                    span: name_value.path.span,
                },
            )
        },
    }
}

/// What a bare flag gives where an override is expected: always an error.
/// `message` and `message_fn` are class mismatches, any other name is
/// unknown, and the diagnostic lists the names of both classes.
pub open spec fn message_fn_from_path(path: PathView) -> DiagnosticView {
    match path.ident() {
        None => DiagnosticView { kind: DiagnosticKindView::NotAnIdent, span: path.span },
        Some(label) => if label == "message"@ {
            DiagnosticView {
                kind: DiagnosticKindView::ClassMismatch { label, expected: MetaClass::NameValue },
                span: path.span,
            }
        } else if label == "message_fn"@ {
            DiagnosticView {
                kind: DiagnosticKindView::ClassMismatch { label, expected: MetaClass::List },
                span: path.span,
            }
        } else {
            DiagnosticView {
                kind: DiagnosticKindView::UnknownMeta {
                    label,
                    candidates: name_value_message_names() + list_message_names(),
                },
                span: path.span,
            }
        },
    }
}

/// The message override that an item of a declaration gives.
pub open spec fn message_fn(nested_meta: NestedMetaView) -> Result<MessageView, DiagnosticView> {
    match nested_meta {
        NestedMetaView::Meta(meta) => match meta {
            MetaView::List(list) => message_fn_from_meta_list(list),
            MetaView::NameValue(name_value) => message_fn_from_name_value(name_value),
            MetaView::Path(path) => Err(message_fn_from_path(path)),
        },
        NestedMetaView::Lit(lit) => Err(
            DiagnosticView { kind: DiagnosticKindView::LiteralNotSupport, span: lit.span },
        ),
    }
}

/// Whether the result of an extractor is the one that a specification names.
pub open spec fn same_message(
    found: Result<Message, Diagnostic>,
    expected: Result<MessageView, DiagnosticView>,
) -> bool {
    match found {
        Ok(message) => expected == Ok::<MessageView, DiagnosticView>(message@),
        Err(diagnostic) => expected == Err::<MessageView, DiagnosticView>(diagnostic@),
    }
}

/// The text of a string literal.
pub fn get_str(lit: &Lit) -> (text: Result<String, Diagnostic>)
    ensures
        match text {
            Ok(found) => str_of(lit@) == Ok::<Seq<char>, DiagnosticView>(found@),
            Err(diagnostic) => str_of(lit@) == Err::<Seq<char>, DiagnosticView>(diagnostic@),
        },
{
    match &lit.value {
        LitValue::Str(text) => Ok(text.clone()),
        _ => Err(Diagnostic { kind: DiagnosticKind::StrLiteralExpected, span: lit.span }),
    }
}

fn unknown_meta(label: &str, candidates: Vec<String>, span: Span) -> (diagnostic: Diagnostic)
    ensures
        diagnostic@ == (DiagnosticView {
            kind: DiagnosticKindView::UnknownMeta {
                label: label@,
                candidates: crate::text::views(candidates@),
            },
            span,
        }),
{
    Diagnostic {
        kind: DiagnosticKind::UnknownMeta { label: String::from_str(label), candidates },
        span,
    }
}

fn class_mismatch(label: &str, expected: MetaClass, span: Span) -> (diagnostic: Diagnostic)
    ensures
        diagnostic@ == (DiagnosticView {
            kind: DiagnosticKindView::ClassMismatch { label: label@, expected },
            span,
        }),
{
    Diagnostic {
        kind: DiagnosticKind::ClassMismatch { label: String::from_str(label), expected },
        span,
    }
}

fn message_names(name_value: bool, list: bool) -> (names: Vec<String>)
    ensures
        crate::text::views(names@) == (if name_value {
            name_value_message_names()
        } else {
            Seq::empty()
        }) + (if list {
            list_message_names()
        } else {
            Seq::empty()
        }),
{
    let mut names: Vec<String> = Vec::new();
    if name_value {
        names.push(String::from_str("message"));
    }
    if list {
        names.push(String::from_str("message_fn"));
    }
    assert(crate::text::views(names@) =~= (if name_value {
        name_value_message_names()
    } else {
        Seq::empty()
    }) + (if list {
        list_message_names()
    } else {
        Seq::empty()
    }));
    names
}

/// The message override that an item of a declaration gives:
/// `message = "text"` or `message_fn(function)`.
pub fn extract_message_fn_tokens(nested_meta: &NestedMeta) -> (message: Result<Message, Diagnostic>)
    ensures
        same_message(message, message_fn(nested_meta@)),
{
    broadcast use lemma_meta_list_view;

    match nested_meta {
        NestedMeta::Meta(meta) => match meta {
            Meta::List(message_fn_list) => extract_message_fn_tokens_from_meta_list(
                message_fn_list,
            ),
            Meta::NameValue(name_value) => extract_message_fn_tokens_from_name_value(name_value),
            Meta::Path(path) => {
                match path.get_ident() {
                    None => Err(Diagnostic { kind: DiagnosticKind::NotAnIdent, span: path.span }),
                    Some(path_label) => {
                        if str_eq(path_label, "message") {
                            Err(class_mismatch(path_label, MetaClass::NameValue, path.span))
                        } else if str_eq(path_label, "message_fn") {
                            Err(class_mismatch(path_label, MetaClass::List, path.span))
                        } else {
                            let names = message_names(true, true);
                            Err(unknown_meta(path_label, names, path.span))
                        }
                    },
                }
            },
        },
        NestedMeta::Lit(lit) => Err(
            Diagnostic { kind: DiagnosticKind::LiteralNotSupport, span: lit.span },
        ),
    }
}

fn extract_message_fn_tokens_from_meta_list(list: &MetaList) -> (message: Result<
    Message,
    Diagnostic,
>)
    ensures
        same_message(message, message_fn_from_meta_list(list@)),
{
    match list.path.get_ident() {
        None => Err(Diagnostic { kind: DiagnosticKind::NotAnIdent, span: list.path.span }),
        Some(path_label) => {
            if str_eq(path_label, "message_fn") {
                get_message_fn_from_nested_meta(&list.nested, list.span)
            } else if str_eq(path_label, "message") {
                Err(class_mismatch(path_label, MetaClass::NameValue, list.path.span))
            } else {
                let names = message_names(false, true);
                assert(crate::text::views(names@) =~= list_message_names());
                Err(unknown_meta(path_label, names, list.path.span))
            }
        },
    }
}

fn extract_message_fn_tokens_from_name_value(name_value: &MetaNameValue) -> (message: Result<
    Message,
    Diagnostic,
>)
    ensures
        same_message(message, message_fn_from_name_value(name_value@)),
{
    match name_value.path.get_ident() {
        None => Err(Diagnostic { kind: DiagnosticKind::NotAnIdent, span: name_value.path.span }),
        Some(path_label) => {
            if str_eq(path_label, "message") {
                get_message_fn_from_lit(&name_value.lit)
            } else if str_eq(path_label, "message_fn") {
                Err(class_mismatch(path_label, MetaClass::List, name_value.path.span))
            } else {
                let names = message_names(true, false);
                assert(crate::text::views(names@) =~= name_value_message_names());
                Err(unknown_meta(path_label, names, name_value.path.span))
            }
        },
    }
}

fn get_message_fn_from_nested_meta(message_fn_define: &Vec<NestedMeta>, span: Span) -> (message:
    Result<Message, Diagnostic>)
    ensures
        same_message(
            message,
            message_fn_from_nested_meta(crate::syntax::nested_views(message_fn_define@), span),
        ),
{
    broadcast use lemma_meta_list_view;

    if message_fn_define.len() == 0 {
        Err(Diagnostic { kind: DiagnosticKind::MessageFnName, span })
    } else if message_fn_define.len() == 1 {
        match &message_fn_define[0] {
            NestedMeta::Meta(Meta::Path(fn_name)) => Ok(Message::Function(fn_name.clone())),
            other => Err(Diagnostic { kind: DiagnosticKind::MessageFnName, span: other.span() }),
        }
    } else {
        let first = message_fn_define[1].span();
        let last = message_fn_define[message_fn_define.len() - 1].span();
        Err(Diagnostic { kind: DiagnosticKind::MessageFnTail, span: first.join(last) })
    }
}

fn get_message_fn_from_lit(lit: &Lit) -> (message: Result<Message, Diagnostic>)
    ensures
        match str_of(lit@) {
            Ok(text) => same_message(message, Ok(MessageView::Literal(text))),
            Err(diagnostic) => same_message(message, Err(diagnostic)),
        },
{
    match get_str(lit) {
        Ok(text) => Ok(Message::Literal(text)),
        Err(diagnostic) => Err(diagnostic),
    }
}

} // verus!
