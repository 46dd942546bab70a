//! Declared types, as far as the compiler looks into them: enough to see a
//! sequence of `T`, an optional `T`, and the name of the scalar that a field
//! reaches.

use vstd::prelude::*;
use crate::diagnostic::{Diagnostic, DiagnosticKind, DiagnosticKindView, DiagnosticView};
use crate::syntax::Span;
use crate::text::{join, join_strings, str_eq, views};

verus! {

/// A declared type.
#[derive(Debug, PartialEq, Eq)]
pub enum Type {
    /// A named type, with or without generic arguments: `Vec<i32>`.
    Path(TypePath),
    /// A fixed-size array: `[T; N]`.
    Array(TypeArray),
    /// A shared reference: `&T`.
    Reference(TypeReference),
    /// Any other type, as it was written.
    Verbatim(TypeVerbatim),
}

#[derive(Debug, PartialEq, Eq)]
pub struct TypePath {
    /// Whether the path is qualified: `<T as Trait>::Name`.
    pub qself: bool,
    pub segments: Vec<PathSegment>,
    pub span: Span,
}

#[derive(Debug, PartialEq, Eq)]
pub struct TypeArray {
    pub elem: Box<Type>,
    pub span: Span,
}

#[derive(Debug, PartialEq, Eq)]
pub struct TypeReference {
    pub elem: Box<Type>,
    pub span: Span,
}

#[derive(Debug, PartialEq, Eq)]
pub struct TypeVerbatim {
    pub text: String,
    pub span: Span,
}

#[derive(Debug, PartialEq, Eq)]
pub struct PathSegment {
    pub ident: String,
    pub arguments: PathArguments,
}

#[derive(Debug, PartialEq, Eq)]
pub enum PathArguments {
    /// No arguments: `String`.
    Absent,
    /// Arguments in angle brackets: `Vec<T>`.
    AngleBracketed(Vec<GenericArgument>),
    /// Arguments in round brackets: `Fn(A) -> B`.
    Parenthesized,
}

#[derive(Debug, PartialEq, Eq)]
pub enum GenericArgument {
    Type(Type),
    /// A lifetime, a constant, a binding or a constraint.
    Verbatim,
}

pub ghost enum TypeView {
    Path(TypePathView),
    Array(Box<TypeView>, Span),
    Reference(Box<TypeView>, Span),
    Verbatim(Seq<char>, Span),
}

pub ghost struct TypePathView {
    pub qself: bool,
    pub segments: Seq<PathSegmentView>,
    pub span: Span,
}

pub ghost struct PathSegmentView {
    pub ident: Seq<char>,
    pub arguments: PathArgumentsView,
}

pub ghost enum PathArgumentsView {
    Absent,
    AngleBracketed(Seq<GenericArgumentView>),
    Parenthesized,
}

pub ghost enum GenericArgumentView {
    Type(TypeView),
    Verbatim,
}

/// The mathematical value of a declared type.
pub open spec fn type_view(ty: Type) -> TypeView
    decreases ty,
{
    match ty {
        Type::Path(path) => TypeView::Path(type_path_view(path)),
        Type::Array(array) => TypeView::Array(Box::new(type_view(*array.elem)), array.span),
        Type::Reference(reference) => TypeView::Reference(
            Box::new(type_view(*reference.elem)),
            reference.span,
        ),
        Type::Verbatim(other) => TypeView::Verbatim(other.text@, other.span),
    }
}

pub open spec fn type_path_view(path: TypePath) -> TypePathView
    decreases path,
{
    TypePathView {
        qself: path.qself,
        segments: Seq::new(
            path.segments@.len(),
            |i: int|
                if 0 <= i < path.segments@.len() {
                    path_segment_view(path.segments@[i])
                } else {
                    PathSegmentView { ident: Seq::empty(), arguments: PathArgumentsView::Absent }
                },
        ),
        span: path.span,
    }
}

pub open spec fn path_segment_view(segment: PathSegment) -> PathSegmentView
    decreases segment,
{
    PathSegmentView {
        ident: segment.ident@,
        arguments: match segment.arguments {
            PathArguments::Absent => PathArgumentsView::Absent,
            PathArguments::AngleBracketed(args) => PathArgumentsView::AngleBracketed(
                Seq::new(
                    args@.len(),
                    |i: int|
                        if 0 <= i < args@.len() {
                            match args@[i] {
                                GenericArgument::Type(ty) => GenericArgumentView::Type(
                                    type_view(ty),
                                ),
                                GenericArgument::Verbatim => GenericArgumentView::Verbatim,
                            }
                        } else {
                            GenericArgumentView::Verbatim
                        },
                ),
            ),
            PathArguments::Parenthesized => PathArgumentsView::Parenthesized,
        },
    }
}

impl View for Type {
    type V = TypeView;

    open spec fn view(&self) -> TypeView {
        type_view(*self)
    }
}

impl View for TypePath {
    type V = TypePathView;

    open spec fn view(&self) -> TypePathView {
        type_path_view(*self)
    }
}

impl View for PathSegment {
    type V = PathSegmentView;

    open spec fn view(&self) -> PathSegmentView {
        path_segment_view(*self)
    }
}

impl TypeView {
    /// The place the type was read from.
    pub open spec fn span(self) -> Span {
        match self {
            TypeView::Path(path) => path.span,
            TypeView::Array(_, span) => span,
            TypeView::Reference(_, span) => span,
            TypeView::Verbatim(_, span) => span,
        }
    }
}

impl Type {
    /// The place the type was read from.
    pub fn span(&self) -> (span: Span)
        ensures
            span == self@.span(),
    {
        proof {
            reveal_with_fuel(type_view, 2);
        }
        match self {
            Type::Path(path) => path.span,
            Type::Array(array) => array.span,
            Type::Reference(reference) => reference.span,
            Type::Verbatim(other) => other.span,
        }
    }
}

/// The identifiers of a path, in order.
pub open spec fn segment_idents(segments: Seq<PathSegmentView>) -> Seq<Seq<char>> {
    Seq::new(segments.len(), |i: int| segments[i].ident)
}

/// The path as it is written without its arguments: its identifiers with `::` between them.
pub open spec fn path_label(segments: Seq<PathSegmentView>) -> Seq<char> {
    join(segment_idents(segments), "::"@)
}

/// Whether a path written as `label` names the growable sequence of std.
pub open spec fn names_vec(label: Seq<char>) -> bool {
    label == "Vec"@ || label == "vec::Vec"@ || label == "std::vec::Vec"@ || label
        == "alloc::vec::Vec"@
}

/// Whether a path written as `label` names the optional value of std.
pub open spec fn names_option(label: Seq<char>) -> bool {
    label == "Option"@ || label == "option::Option"@ || label == "std::option::Option"@ || label
        == "core::option::Option"@
}

/// The first generic argument, if it is a type.
pub open spec fn first_type_argument(args: Seq<GenericArgumentView>) -> Option<TypeView> {
    if args.len() > 0 {
        match args[0] {
            GenericArgumentView::Type(ty) => Some(ty),
            GenericArgumentView::Verbatim => None,
        }
    } else {
        None
    }
}

/// The element type of a path that names `Vec`: its first argument in angle
/// brackets. No element for another path; a diagnostic at `span` for a `Vec`
/// whose last segment has no angle brackets.
pub open spec fn element_type_of_vec(path: TypePathView, span: Span) -> Result<
    Option<TypeView>,
    DiagnosticView,
> {
    if names_vec(path_label(path.segments)) && path.segments.len() > 0 {
        match path.segments.last().arguments {
            PathArgumentsView::AngleBracketed(args) => Ok(first_type_argument(args)),
            _ => Err(DiagnosticView { kind: DiagnosticKindView::VecNotAngleBracketed, span }),
        }
    } else {
        Ok(None)
    }
}

/// The element type of a sequence type: of `Vec<T>` (under any of its four
/// paths, unqualified) and of `[T; N]`. No element for any other type.
pub open spec fn element_type_of_array(ty: TypeView) -> Result<Option<TypeView>, DiagnosticView> {
    match ty {
        TypeView::Path(path) => if !path.qself {
            element_type_of_vec(path, ty.span())
        } else {
            Ok(None)
        },
        TypeView::Array(elem, _) => Ok(Some(*elem)),
        _ => Ok(None),
    }
}

/// The last segment of a path that names `Option`.
pub open spec fn option_segment(path: TypePathView) -> Option<PathSegmentView> {
    if names_option(path_label(path.segments)) && path.segments.len() > 0 {
        Some(path.segments.last())
    } else {
        None
    }
}

/// The type that an optional type wraps: the first argument in angle brackets
/// of `Option<T>` (under any of its four paths, unqualified). Nothing for any
/// other type; a diagnostic for an `Option` without angle brackets.
pub open spec fn type_of_option(ty: TypeView) -> Result<Option<TypeView>, DiagnosticView> {
    match ty {
        TypeView::Path(path) => if !path.qself {
            match option_segment(path) {
                Some(segment) => match segment.arguments {
                    PathArgumentsView::AngleBracketed(args) => Ok(first_type_argument(args)),
                    _ => Err(
                        DiagnosticView {
                            kind: DiagnosticKindView::OptionNotAngleBracketed,
                            span: ty.span(),
                        },
                    ),
                },
                None => Ok(None),
            }
        } else {
            Ok(None)
        },
        _ => Ok(None),
    }
}

/// Writes a path without its arguments.
pub fn label_of(path: &TypePath) -> (label: String)
    ensures
        label@ == path_label(path@.segments),
{
    let segments = &path.segments;
    let mut idents: Vec<String> = Vec::new();
    let mut i: usize = 0;
    while i < segments.len()
        invariant
            i <= segments.len(),
            idents.len() == i,
            forall|j: int| 0 <= j < i ==> idents@[j]@ == segments@[j].ident@,
        decreases segments.len() - i,
    {
        idents.push(segments[i].ident.clone());
        i = i + 1;
    }
    proof {
        assert(views(idents@) =~= segment_idents(path@.segments));
    }
    join_strings(&idents, "::")
}

fn first_type<'a>(segment: &'a PathSegment, args: &'a Vec<GenericArgument>) -> (first: Option<
    &'a Type,
>)
    requires
        segment.arguments == PathArguments::AngleBracketed(*args),
    ensures
        same_type(first, first_type_argument(segment@.arguments->AngleBracketed_0)),
{
    if args.len() > 0 {
        match &args[0] {
            GenericArgument::Type(ty) => Some(ty),
            GenericArgument::Verbatim => None,
        }
    } else {
        None
    }
}

/// Whether an optional reference holds the type that a specification names.
pub open spec fn same_type(found: Option<&Type>, expected: Option<TypeView>) -> bool {
    match found {
        Some(ty) => expected == Some(ty@),
        None => expected is None,
    }
}

/// Whether a result holds what a specification names.
pub open spec fn same_type_result(
    found: Result<Option<&Type>, Diagnostic>,
    expected: Result<Option<TypeView>, DiagnosticView>,
) -> bool {
    match found {
        Ok(ty) => expected is Ok && same_type(ty, expected->Ok_0),
        Err(diagnostic) => expected == Err::<Option<TypeView>, DiagnosticView>(diagnostic@),
    }
}

fn extract_element_type_from_vec<'a>(path: &'a TypePath, span: Span) -> (element: Result<
    Option<&'a Type>,
    Diagnostic,
>)
    ensures
        same_type_result(element, element_type_of_vec(path@, span)),
{
    let label = label_of(path);
    let named = str_eq(label.as_str(), "Vec") || str_eq(label.as_str(), "vec::Vec") || str_eq(
        label.as_str(),
        "std::vec::Vec",
    ) || str_eq(label.as_str(), "alloc::vec::Vec");
    if named && path.segments.len() > 0 {
        let last = &path.segments[path.segments.len() - 1];
        match &last.arguments {
            PathArguments::AngleBracketed(args) => Ok(first_type(last, args)),
            _ => Err(Diagnostic { kind: DiagnosticKind::VecNotAngleBracketed, span }),
        }
    } else {
        Ok(None)
    }
}

/// The element type of a sequence type: of `Vec<T>` and of `[T; N]`.
pub fn extract_element_type_from_array<'a>(ty: &'a Type) -> (element: Result<
    Option<&'a Type>,
    Diagnostic,
>)
    ensures
        same_type_result(element, element_type_of_array(ty@)),
{
    proof {
        reveal_with_fuel(type_view, 2);
    }
    match ty {
        Type::Path(path) => {
            if !path.qself {
                extract_element_type_from_vec(path, path.span)
            } else {
                Ok(None)
            }
        },
        Type::Array(array) => Ok(Some(&*array.elem)),
        _ => Ok(None),
    }
}

fn extract_option_segment<'a>(path: &'a TypePath) -> (segment: Option<&'a PathSegment>)
    ensures
        segment is Some <==> option_segment(path@) is Some,
        segment matches Some(found) ==> option_segment(path@) == Some(found@),
{
    let label = label_of(path);
    let named = str_eq(label.as_str(), "Option") || str_eq(label.as_str(), "option::Option")
        || str_eq(label.as_str(), "std::option::Option") || str_eq(
        label.as_str(),
        "core::option::Option",
    );
    if named && path.segments.len() > 0 {
        Some(&path.segments[path.segments.len() - 1])
    } else {
        None
    }
}

/// The type that an optional type wraps.
pub fn extract_type_from_option<'a>(ty: &'a Type) -> (inner: Result<Option<&'a Type>, Diagnostic>)
    ensures
        same_type_result(inner, type_of_option(ty@)),
{
    match ty {
        Type::Path(path) => {
            if !path.qself {
                match extract_option_segment(path) {
                    Some(segment) => match &segment.arguments {
                        PathArguments::AngleBracketed(args) => Ok(first_type(segment, args)),
                        _ => Err(
                            Diagnostic {
                                kind: DiagnosticKind::OptionNotAngleBracketed,
                                span: path.span,
                            },
                        ),
                    },
                    None => Ok(None),
                }
            } else {
                Ok(None)
            }
        },
        _ => Ok(None),
    }
}

} // verus!
