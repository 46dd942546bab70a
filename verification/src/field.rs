//! The view of a declared field that the extractors work on: its name, the
//! identifier that stands for its value, its declared type, and the two ways
//! to peel one container layer off that type.

use vstd::prelude::*;
use crate::diagnostic::{Diagnostic, DiagnosticView};
use crate::syntax::{Ident, IdentView, Span};
use crate::text::{str_eq, trim_start_underscore_pairs, trim_underscore_pairs};
use crate::types::{
    element_type_of_array,
    extract_element_type_from_array,
    extract_type_from_option,
    label_of,
    path_label,
    type_of_option,
    type_view,
    Type,
    TypeView,
};

verus! {

/// A declared field.
#[derive(Debug, PartialEq, Eq)]
pub struct Field<'a> {
    /// The name under which violations of the field are reported.
    pub name: String,
    /// The identifier that stands for the field's value.
    pub ident: Ident,
    /// The declared type.
    pub ty: &'a Type,
}

pub ghost struct FieldView {
    pub name: Seq<char>,
    pub ident: IdentView,
    pub ty: TypeView,
}

impl<'a> View for Field<'a> {
    type V = FieldView;

    open spec fn view(&self) -> FieldView {
        FieldView { name: self.name@, ident: self.ident@, ty: (*self.ty)@ }
    }
}

/// The identifier that stands for an element of the sequence `ident`:
/// `__elem_` before the name without its leading pairs of underscores.
pub open spec fn element_ident(ident: IdentView, span: Span) -> IdentView {
    IdentView { name: "__elem_"@ + trim_underscore_pairs(ident.name), span }
}

/// The field that stands for an element of `field`, of type `inner`.
pub open spec fn element_field(field: FieldView, span: Span, inner: TypeView) -> FieldView {
    FieldView { name: field.name, ident: element_ident(field.ident, span), ty: inner }
}

impl FieldView {
    /// The field peeled as a sequence: the view of its elements.
    pub open spec fn array_field(self) -> Result<Option<FieldView>, DiagnosticView> {
        match element_type_of_array(self.ty) {
            Ok(Some(elem)) => Ok(Some(element_field(self, self.ident.span, elem))),
            Ok(None) => Ok(None),
            Err(diagnostic) => Err(diagnostic),
        }
    }

    /// The field peeled as an optional value: the view of what it wraps.
    pub open spec fn option_field(self) -> Result<Option<FieldView>, DiagnosticView> {
        match type_of_option(self.ty) {
            Ok(Some(inner)) => Ok(Some(FieldView { ty: inner, ..self })),
            Ok(None) => Ok(None),
            Err(diagnostic) => Err(diagnostic),
        }
    }
}

/// Whether a peeled field is the one that a specification names.
pub open spec fn same_field(
    found: Result<Option<Field>, Diagnostic>,
    expected: Result<Option<FieldView>, DiagnosticView>,
) -> bool {
    match found {
        Ok(Some(field)) => expected == Ok::<Option<FieldView>, DiagnosticView>(Some(field@)),
        Ok(None) => expected == Ok::<Option<FieldView>, DiagnosticView>(None),
        Err(diagnostic) => expected == Err::<Option<FieldView>, DiagnosticView>(diagnostic@),
    }
}

/// The identifier that stands for an element of the sequence `ident`.
pub fn make_element_ident(ident: &Ident, span: Span) -> (element: Ident)
    ensures
        element@ == element_ident(ident@, span),
{
    let mut name = String::from_str("__elem_");
    name.append(trim_start_underscore_pairs(ident.name.as_str()));
    Ident { name, span }
}

/// The field that stands for an element of `field`, of type `inner_ty`.
pub fn make_element_field<'a>(field: &Field, span: Span, inner_ty: &'a Type) -> (element: Field<'a>)
    ensures
        element@ == element_field(field@, span, inner_ty@),
{
    Field { name: field.name.clone(), ident: make_element_ident(&field.ident, span), ty: inner_ty }
}

impl<'a> Field<'a> {
    /// Peels one sequence layer: the view of the elements of a field whose
    /// type is `Vec<T>` or `[T; N]`, and nothing for any other type.
    pub fn array_field(&self) -> (element: Result<Option<Field<'a>>, Diagnostic>)
        ensures
            same_field(element, self@.array_field()),
    {
        match extract_element_type_from_array(self.ty) {
            Ok(Some(elem)) => Ok(Some(make_element_field(self, self.ident.span, elem))),
            Ok(None) => Ok(None),
            Err(diagnostic) => Err(diagnostic),
        }
    }

    /// Peels one optional layer: the view of what a field of type
    /// `Option<T>` wraps, and nothing for any other type.
    pub fn option_field(&self) -> (inner: Result<Option<Field<'a>>, Diagnostic>)
        ensures
            same_field(inner, self@.option_field()),
    {
        match extract_type_from_option(self.ty) {
            Ok(Some(ty)) => Ok(
                Some(
                    Field {
                        name: self.name.clone(),
                        ident: Ident { name: self.ident.name.clone(), span: self.ident.span },
                        ty,
                    },
                ),
            ),
            Ok(None) => Ok(None),
            Err(diagnostic) => Err(diagnostic),
        }
    }
}

/// What kind of scalar a type names.
#[derive(Clone, Copy, Debug, PartialEq, Eq)]
pub enum ScalarKind {
    /// One of the integer types of the language.
    Integer,
    /// One of its floating-point types.
    Float,
    /// A type that holds text.
    Text,
    /// None of these.
    Unknown,
}

/// Whether `name` is one of the integer types.
pub open spec fn is_integer_name(name: Seq<char>) -> bool {
    name == "i8"@ || name == "i16"@ || name == "i32"@ || name == "i64"@ || name == "i128"@ || name
        == "isize"@ || name == "u8"@ || name == "u16"@ || name == "u32"@ || name == "u64"@ || name
        == "u128"@ || name == "usize"@
}

/// Whether `name` is one of the floating-point types.
pub open spec fn is_float_name(name: Seq<char>) -> bool {
    name == "f32"@ || name == "f64"@
}

/// Whether `name` is one of the types that hold text.
pub open spec fn is_text_name(name: Seq<char>) -> bool {
    name == "String"@ || name == "str"@ || name == "Cow"@ || name == "OsString"@ || name == "OsStr"@
        || name == "PathBuf"@ || name == "Path"@
}

/// The last identifier of a named type, looking through references.
pub open spec fn leaf_name(ty: TypeView) -> Option<Seq<char>>
    decreases ty,
{
    match ty {
        TypeView::Path(path) => if path.segments.len() > 0 {
            Some(path.segments.last().ident)
        } else {
            None
        },
        TypeView::Reference(elem, _) => leaf_name(*elem),
        _ => None,
    }
}

/// The kind of scalar that a type names, judged by its last identifier.
pub open spec fn scalar_kind(ty: TypeView) -> ScalarKind {
    match leaf_name(ty) {
        Some(name) => if is_integer_name(name) {
            ScalarKind::Integer
        } else if is_float_name(name) {
            ScalarKind::Float
        } else if is_text_name(name) {
            ScalarKind::Text
        } else {
            ScalarKind::Unknown
        },
        None => ScalarKind::Unknown,
    }
}

/// How a diagnostic writes a type: a path without its arguments, `&` before
/// what a reference points to, an array's element in square brackets, and
/// any other type as it was written.
pub open spec fn type_label(ty: TypeView) -> Seq<char>
    decreases ty,
{
    match ty {
        TypeView::Path(path) => path_label(path.segments),
        TypeView::Array(elem, _) => "["@ + type_label(*elem) + "]"@,
        TypeView::Reference(elem, _) => "&"@ + type_label(*elem),
        TypeView::Verbatim(text, _) => text,
    }
}

fn leaf_name_of<'a>(ty: &'a Type) -> (name: Option<&'a str>)
    ensures
        name is Some <==> leaf_name(ty@) is Some,
        name matches Some(found) ==> leaf_name(ty@) == Some(found@),
    decreases ty,
{
    proof {
        reveal_with_fuel(type_view, 3);
    }
    match ty {
        Type::Path(path) => {
            if path.segments.len() > 0 {
                Some(path.segments[path.segments.len() - 1].ident.as_str())
            } else {
                None
            }
        },
        Type::Reference(reference) => leaf_name_of(&*reference.elem),
        _ => None,
    }
}

fn integer_name(name: &str) -> (yes: bool)
    ensures
        yes == is_integer_name(name@),
{
    str_eq(name, "i8") || str_eq(name, "i16") || str_eq(name, "i32") || str_eq(name, "i64")
        || str_eq(name, "i128") || str_eq(name, "isize") || str_eq(name, "u8") || str_eq(
        name,
        "u16",
    ) || str_eq(name, "u32") || str_eq(name, "u64") || str_eq(name, "u128") || str_eq(
        name,
        "usize",
    )
}

fn text_name(name: &str) -> (yes: bool)
    ensures
        yes == is_text_name(name@),
{
    str_eq(name, "String") || str_eq(name, "str") || str_eq(name, "Cow") || str_eq(
        name,
        "OsString",
    ) || str_eq(name, "OsStr") || str_eq(name, "PathBuf") || str_eq(name, "Path")
}

impl Type {
    /// The kind of scalar that the type names.
    pub fn scalar_kind(&self) -> (kind: ScalarKind)
        ensures
            kind == scalar_kind(self@),
    {
        match leaf_name_of(self) {
            Some(name) => {
                if integer_name(name) {
                    ScalarKind::Integer
                } else if str_eq(name, "f32") || str_eq(name, "f64") {
                    ScalarKind::Float
                } else if text_name(name) {
                    ScalarKind::Text
                } else {
                    ScalarKind::Unknown
                }
            },
            None => ScalarKind::Unknown,
        }
    }

    /// How a diagnostic writes the type.
    pub fn label(&self) -> (label: String)
        ensures
            label@ == type_label(self@),
        decreases self,
    {
        proof {
            reveal_with_fuel(type_view, 2);
        }
        match self {
            Type::Path(path) => label_of(path),
            Type::Array(array) => {
                let mut label = String::from_str("[");
                let inner = array.elem.label();
                label.append(inner.as_str());
                label.append("]");
                label
            },
            Type::Reference(reference) => {
                let mut label = String::from_str("&");
                let inner = reference.elem.label();
                label.append(inner.as_str());
                label
            },
            Type::Verbatim(other) => other.text.clone(),
        }
    }
}

} // verus!
