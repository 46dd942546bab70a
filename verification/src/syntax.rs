//! The declaration syntax: what a host parser hands over for each attribute.
//!
//! A declaration is a [`Meta`] in one of three classes: a bare path, a path
//! with a parenthesised list of nested items, or a path with `=` and a
//! literal. Every node carries the [`Span`] it was read from, so that a
//! diagnostic can point at it.

use vstd::prelude::*;
use crate::text::{str_eq, views};

verus! {

/// A range of source positions.
#[derive(Clone, Copy, Debug, PartialEq, Eq)]
pub struct Span {
    pub start: usize,
    pub end: usize,
}

impl Span {
    /// The span from the start of `self` to the end of `other`.
    pub open spec fn join_spec(self, other: Span) -> Span {
        Span { start: self.start, end: other.end }
    }

    /// The span from the start of `self` to the end of `other`.
    pub fn join(self, other: Span) -> (joined: Span)
        ensures
            joined == self.join_spec(other),
    {
        Span { start: self.start, end: other.end }
    }
}

/// An identifier.
#[derive(Debug, PartialEq, Eq)]
pub struct Ident {
    pub name: String,
    pub span: Span,
}

pub ghost struct IdentView {
    pub name: Seq<char>,
    pub span: Span,
}

impl View for Ident {
    type V = IdentView;

    open spec fn view(&self) -> IdentView {
        IdentView { name: self.name@, span: self.span }
    }
}

/// A path: identifiers separated by `::`.
#[derive(Debug, PartialEq, Eq)]
pub struct Path {
    pub segments: Vec<String>,
    pub span: Span,
}

pub ghost struct PathView {
    pub segments: Seq<Seq<char>>,
    pub span: Span,
}

impl PathView {
    /// Whether the path is the single identifier `name`.
    pub open spec fn is_ident(self, name: Seq<char>) -> bool {
        self.segments.len() == 1 && self.segments[0] == name
    }

    /// The identifier of a path that has exactly one segment.
    pub open spec fn ident(self) -> Option<Seq<char>> {
        if self.segments.len() == 1 {
            Some(self.segments[0])
        } else {
            None
        }
    }
}

impl View for Path {
    type V = PathView;

    open spec fn view(&self) -> PathView {
        PathView { segments: views(self.segments@), span: self.span }
    }
}

impl Clone for Path {
    fn clone(&self) -> (copy: Path)
        ensures
            copy@ == self@,
    {
        let mut segments: Vec<String> = Vec::new();
        let mut i: usize = 0;
        while i < self.segments.len()
            invariant
                i <= self.segments.len(),
                segments.len() == i,
                forall|j: int| 0 <= j < i ==> segments@[j]@ == self.segments@[j]@,
            decreases self.segments.len() - i,
        {
            segments.push(self.segments[i].clone());
            i = i + 1;
        }
        assert(views(segments@) =~= views(self.segments@));
        Path { segments, span: self.span }
    }
}

impl Clone for Ident {
    fn clone(&self) -> (copy: Ident)
        ensures
            copy@ == self@,
    {
        Ident { name: self.name.clone(), span: self.span }
    }
}

impl Clone for LitValue {
    fn clone(&self) -> (copy: LitValue)
        ensures
            copy@ == self@,
    {
        match self {
            LitValue::Str(s) => LitValue::Str(s.clone()),
            LitValue::Int(i) => LitValue::Int(*i),
            LitValue::Float(s) => LitValue::Float(s.clone()),
            LitValue::Bool(b) => LitValue::Bool(*b),
            LitValue::Char(c) => LitValue::Char(*c),
            LitValue::Verbatim(s) => LitValue::Verbatim(s.clone()),
        }
    }
}

impl Path {
    /// Whether the path is the single identifier `name`.
    pub fn is_ident(&self, name: &str) -> (same: bool)
        ensures
            same == self@.is_ident(name@),
    {
        self.segments.len() == 1 && str_eq(self.segments[0].as_str(), name)
    }

    /// The identifier of a path that has exactly one segment.
    pub fn get_ident(&self) -> (ident: Option<&str>)
        ensures
            ident is Some <==> self@.ident() is Some,
            ident matches Some(name) ==> self@.ident() == Some(name@),
    {
        if self.segments.len() == 1 {
            Some(self.segments[0].as_str())
        } else {
            None
        }
    }
}

/// What a literal holds.
#[derive(Debug, PartialEq, Eq)]
pub enum LitValue {
    /// A string literal, unquoted.
    Str(String),
    /// An integer literal, with its sign.
    Int(i128),
    /// A floating-point literal, as it was written.
    Float(String),
    Bool(bool),
    Char(char),
    /// A literal of another kind, as it was written.
    Verbatim(String),
}

pub ghost enum LitValueView {
    Str(Seq<char>),
    Int(int),
    Float(Seq<char>),
    Bool(bool),
    Char(char),
    Verbatim(Seq<char>),
}

impl View for LitValue {
    type V = LitValueView;

    open spec fn view(&self) -> LitValueView {
        match self {
            LitValue::Str(s) => LitValueView::Str(s@),
            LitValue::Int(i) => LitValueView::Int(*i as int),
            LitValue::Float(s) => LitValueView::Float(s@),
            LitValue::Bool(b) => LitValueView::Bool(*b),
            LitValue::Char(c) => LitValueView::Char(*c),
            LitValue::Verbatim(s) => LitValueView::Verbatim(s@),
        }
    }
}

/// A literal.
#[derive(Debug, PartialEq, Eq)]
pub struct Lit {
    pub value: LitValue,
    pub span: Span,
}

pub ghost struct LitView {
    pub value: LitValueView,
    pub span: Span,
}

impl View for Lit {
    type V = LitView;

    open spec fn view(&self) -> LitView {
        LitView { value: self.value@, span: self.span }
    }
}

/// A declaration.
#[derive(Debug, PartialEq, Eq)]
pub enum Meta {
    /// A bare flag: `unique_items`.
    Path(Path),
    /// A name with a list of nested items: `range(minimum = 0, maximum = 10)`.
    List(MetaList),
    /// A name with one literal: `max_length = 3`.
    NameValue(MetaNameValue),
}

#[derive(Debug, PartialEq, Eq)]
pub struct MetaList {
    pub path: Path,
    pub nested: Vec<NestedMeta>,
    pub span: Span,
}

#[derive(Debug, PartialEq, Eq)]
pub struct MetaNameValue {
    pub path: Path,
    pub lit: Lit,
    pub span: Span,
}

/// An item of a list: a declaration or a literal.
#[derive(Debug, PartialEq, Eq)]
pub enum NestedMeta {
    Meta(Meta),
    Lit(Lit),
}

pub ghost enum MetaView {
    Path(PathView),
    List(MetaListView),
    NameValue(MetaNameValueView),
}

pub ghost struct MetaListView {
    pub path: PathView,
    pub nested: Seq<NestedMetaView>,
    pub span: Span,
}

pub ghost struct MetaNameValueView {
    pub path: PathView,
    pub lit: LitView,
    pub span: Span,
}

pub ghost enum NestedMetaView {
    Meta(MetaView),
    Lit(LitView),
}

impl MetaView {
    /// The place the declaration was read from.
    pub open spec fn span(self) -> Span {
        match self {
            MetaView::Path(path) => path.span,
            MetaView::List(list) => list.span,
            MetaView::NameValue(name_value) => name_value.span,
        }
    }
}

impl NestedMetaView {
    /// The place the item was read from.
    pub open spec fn span(self) -> Span {
        match self {
            NestedMetaView::Meta(meta) => meta.span(),
            NestedMetaView::Lit(lit) => lit.span,
        }
    }
}

/// The mathematical value of a declaration.
pub open spec fn meta_view(meta: Meta) -> MetaView
    decreases meta,
{
    match meta {
        Meta::Path(path) => MetaView::Path(path@),
        Meta::List(list) => MetaView::List(
            MetaListView {
                path: list.path@,
                nested: Seq::new(
                    list.nested@.len(),
                    |i: int|
                        if 0 <= i < list.nested@.len() {
                            match list.nested@[i] {
                                NestedMeta::Meta(inner) => NestedMetaView::Meta(meta_view(inner)),
                                NestedMeta::Lit(lit) => NestedMetaView::Lit(lit@),
                            }
                        } else {
                            NestedMetaView::Lit(
                                LitView { value: LitValueView::Bool(false), span: list.span },
                            )
                        },
                ),
                span: list.span,
            },
        ),
        Meta::NameValue(name_value) => MetaView::NameValue(name_value@),
    }
}

impl View for Meta {
    type V = MetaView;

    open spec fn view(&self) -> MetaView {
        meta_view(*self)
    }
}

impl View for NestedMeta {
    type V = NestedMetaView;

    open spec fn view(&self) -> NestedMetaView {
        match self {
            NestedMeta::Meta(meta) => NestedMetaView::Meta(meta@),
            NestedMeta::Lit(lit) => NestedMetaView::Lit(lit@),
        }
    }
}

/// The views of the items of a list.
pub open spec fn nested_views(nested: Seq<NestedMeta>) -> Seq<NestedMetaView> {
    Seq::new(nested.len(), |i: int| nested[i]@)
}

impl View for MetaList {
    type V = MetaListView;

    open spec fn view(&self) -> MetaListView {
        MetaListView { path: self.path@, nested: nested_views(self.nested@), span: self.span }
    }
}

impl View for MetaNameValue {
    type V = MetaNameValueView;

    open spec fn view(&self) -> MetaNameValueView {
        MetaNameValueView { path: self.path@, lit: self.lit@, span: self.span }
    }
}

/// The view of a list declaration is the view of its list.
pub broadcast proof fn lemma_meta_list_view(list: MetaList)
    ensures
        #[trigger] meta_view(Meta::List(list)) == MetaView::List(list@),
{
    assert(meta_view(Meta::List(list))->List_0.nested =~= list@.nested);
}

impl Meta {
    /// The place the declaration was read from.
    pub fn span(&self) -> (span: Span)
        ensures
            span == self@.span(),
    {
        broadcast use lemma_meta_list_view;

        match self {
            Meta::Path(path) => path.span,
            Meta::List(list) => list.span,
            Meta::NameValue(name_value) => name_value.span,
        }
    }
}

impl NestedMeta {
    /// The place the item was read from.
    pub fn span(&self) -> (span: Span)
        ensures
            span == self@.span(),
    {
        match self {
            NestedMeta::Meta(meta) => meta.span(),
            NestedMeta::Lit(lit) => lit.span,
        }
    }
}

/// An attribute as the host parser left it: its path, and either the
/// declaration it holds or the parser's complaint.
#[derive(Debug, PartialEq, Eq)]
pub struct Attribute {
    pub path: Path,
    pub meta: Result<Meta, String>,
    pub span: Span,
}

pub ghost struct AttributeView {
    pub path: PathView,
    pub meta: Result<MetaView, Seq<char>>,
    pub span: Span,
}

impl View for Attribute {
    type V = AttributeView;

    open spec fn view(&self) -> AttributeView {
        AttributeView {
            path: self.path@,
            meta: match self.meta {
                Ok(meta) => Ok(meta@),
                Err(complaint) => Err(complaint@),
            },
            span: self.span,
        }
    }
}

} // verus!
