//! The tree of violations. It is shaped like the value that was validated:
//! a list for a scalar, a list and a map from index to tree for a sequence,
//! a map from field name to tree for an object.

use vstd::prelude::*;
use crate::validation::params::{Violation, ViolationView};

verus! {

/// One violation.
#[derive(Debug, PartialEq, Eq)]
pub enum Error {
    /// A check that the value failed.
    Violation(Violation),
    /// The violations that a nested object's own validation found.
    Nested(Errors),
    /// What a custom rule reported.
    Custom(String),
}

/// The violations attached directly to one value.
pub type VecErrors = Vec<Error>;

/// The violations of the item at one index of a sequence.
#[derive(Debug, PartialEq, Eq)]
pub struct ItemErrors {
    pub index: usize,
    pub errors: Errors,
}

/// The violations of a sequence: its own, and those of its items.
#[derive(Debug, PartialEq, Eq)]
pub struct ArrayErrors {
    pub errors: VecErrors,
    pub items: Vec<ItemErrors>,
}

/// The violations of the field of one name.
#[derive(Debug, PartialEq, Eq)]
pub struct FieldErrors {
    pub name: String,
    pub errors: Errors,
}

/// The violations of an object, by field.
#[derive(Debug, PartialEq, Eq)]
pub struct ObjectErrors {
    pub fields: Vec<FieldErrors>,
}

/// The violations of one value.
#[derive(Debug, PartialEq, Eq)]
pub enum Errors {
    Array(ArrayErrors),
    Object(ObjectErrors),
    NewType(VecErrors),
}

pub ghost enum ErrorView {
    Violation(ViolationView),
    Nested(ErrorsView),
    Custom(Seq<char>),
}

pub ghost struct ItemErrorsView {
    pub index: nat,
    pub errors: ErrorsView,
}

pub ghost struct FieldErrorsView {
    pub name: Seq<char>,
    pub errors: ErrorsView,
}

pub ghost enum ErrorsView {
    Array { errors: Seq<ErrorView>, items: Seq<ItemErrorsView> },
    Object { fields: Seq<FieldErrorsView> },
    NewType { errors: Seq<ErrorView> },
}

/// The mathematical value of a tree.
pub open spec fn errors_view(tree: Errors) -> ErrorsView
    decreases tree,
{
    match tree {
        Errors::Array(array) => ErrorsView::Array {
            errors: Seq::new(
                array.errors@.len(),
                |i: int|
                    if 0 <= i < array.errors@.len() {
                        match array.errors@[i] {
                            Error::Violation(violation) => ErrorView::Violation(violation@),
                            Error::Nested(nested) => ErrorView::Nested(errors_view(nested)),
                            Error::Custom(text) => ErrorView::Custom(text@),
                        }
                    } else {
                        ErrorView::Custom(Seq::empty())
                    },
            ),
            items: Seq::new(
                array.items@.len(),
                |i: int|
                    if 0 <= i < array.items@.len() {
                        ItemErrorsView {
                            index: array.items@[i].index as nat,
                            errors: errors_view(array.items@[i].errors),
                        }
                    } else {
                        ItemErrorsView {
                            index: 0,
                            errors: ErrorsView::NewType { errors: Seq::empty() },
                        }
                    },
            ),
        },
        Errors::Object(object) => ErrorsView::Object {
            fields: Seq::new(
                object.fields@.len(),
                |i: int|
                    if 0 <= i < object.fields@.len() {
                        FieldErrorsView {
                            name: object.fields@[i].name@,
                            errors: errors_view(object.fields@[i].errors),
                        }
                    } else {
                        FieldErrorsView {
                            name: Seq::empty(),
                            errors: ErrorsView::NewType { errors: Seq::empty() },
                        }
                    },
            ),
        },
        Errors::NewType(errors) => ErrorsView::NewType {
            errors: Seq::new(
                errors@.len(),
                |i: int|
                    if 0 <= i < errors@.len() {
                        match errors@[i] {
                            Error::Violation(violation) => ErrorView::Violation(violation@),
                            Error::Nested(nested) => ErrorView::Nested(errors_view(nested)),
                            Error::Custom(text) => ErrorView::Custom(text@),
                        }
                    } else {
                        ErrorView::Custom(Seq::empty())
                    },
            ),
        },
    }
}

impl View for Errors {
    type V = ErrorsView;

    open spec fn view(&self) -> ErrorsView {
        errors_view(*self)
    }
}

impl View for Error {
    type V = ErrorView;

    open spec fn view(&self) -> ErrorView {
        match self {
            Error::Violation(violation) => ErrorView::Violation(violation@),
            Error::Nested(nested) => ErrorView::Nested(nested@),
            Error::Custom(text) => ErrorView::Custom(text@),
        }
    }
}

impl View for ItemErrors {
    type V = ItemErrorsView;

    open spec fn view(&self) -> ItemErrorsView {
        ItemErrorsView { index: self.index as nat, errors: self.errors@ }
    }
}

impl View for FieldErrors {
    type V = FieldErrorsView;

    open spec fn view(&self) -> FieldErrorsView {
        FieldErrorsView { name: self.name@, errors: self.errors@ }
    }
}

/// The views of a list of violations.
pub open spec fn error_views(errors: Seq<Error>) -> Seq<ErrorView> {
    Seq::new(errors.len(), |i: int| errors[i]@)
}

/// The views of the violations of the items of a sequence.
pub open spec fn item_views(items: Seq<ItemErrors>) -> Seq<ItemErrorsView> {
    Seq::new(items.len(), |i: int| items[i]@)
}

/// The views of the violations of the fields of an object.
pub open spec fn field_views(fields: Seq<FieldErrors>) -> Seq<FieldErrorsView> {
    Seq::new(fields.len(), |i: int| fields[i]@)
}

/// The view of a tree, by its shape.
pub proof fn lemma_errors_view(tree: Errors)
    ensures
        tree@ == (match tree {
            Errors::Array(array) => ErrorsView::Array {
                errors: error_views(array.errors@),
                items: item_views(array.items@),
            },
            Errors::Object(object) => ErrorsView::Object { fields: field_views(object.fields@) },
            Errors::NewType(errors) => ErrorsView::NewType { errors: error_views(errors@) },
        }),
{
    match tree {
        Errors::Array(array) => {
            assert(tree@->Array_errors =~= error_views(array.errors@));
            assert(tree@->Array_items =~= item_views(array.items@));
        },
        Errors::Object(object) => {
            assert(tree@->Object_fields =~= field_views(object.fields@));
        },
        Errors::NewType(errors) => {
            assert(tree@->NewType_errors =~= error_views(errors@));
        },
    }
}

/// The first position at which `index` stands among `items`.
pub open spec fn item_position(items: Seq<ItemErrorsView>, index: nat) -> Option<int>
    decreases items.len(),
{
    if items.len() == 0 {
        None
    } else {
        match item_position(items.drop_last(), index) {
            Some(position) => Some(position),
            None => if items.last().index == index {
                Some(items.len() - 1)
            } else {
                None
            },
        }
    }
}

/// The first position at which `name` stands among `fields`.
pub open spec fn field_position(fields: Seq<FieldErrorsView>, name: Seq<char>) -> Option<int>
    decreases fields.len(),
{
    if fields.len() == 0 {
        None
    } else {
        match field_position(fields.drop_last(), name) {
            Some(position) => Some(position),
            None => if fields.last().name == name {
                Some(fields.len() - 1)
            } else {
                None
            },
        }
    }
}

/// Whether no index stands twice among `items`.
pub open spec fn distinct_indices(items: Seq<ItemErrorsView>) -> bool {
    forall|i: int, j: int|
        0 <= i < items.len() && 0 <= j < items.len() && i != j ==> #[trigger] items[i].index
            != #[trigger] items[j].index
}

/// Whether no name stands twice among `fields`.
pub open spec fn distinct_names(fields: Seq<FieldErrorsView>) -> bool {
    forall|i: int, j: int|
        0 <= i < fields.len() && 0 <= j < fields.len() && i != j ==> #[trigger] fields[i].name
            != #[trigger] fields[j].name
}

impl ErrorsView {
    /// Whether the tree holds no violation: its list is empty and so is its map.
    pub open spec fn is_empty(self) -> bool {
        match self {
            ErrorsView::Array { errors, items } => errors.len() == 0 && items.len() == 0,
            ErrorsView::Object { fields } => fields.len() == 0,
            ErrorsView::NewType { errors } => errors.len() == 0,
        }
    }

    /// Whether every map of the tree is a map: no index stands twice among
    /// the items of a sequence, no name twice among the fields of an object.
    pub open spec fn wf(self) -> bool
        decreases self,
    {
        match self {
            ErrorsView::Array { errors, items } => distinct_indices(items) && forall|i: int|
                0 <= i < items.len() ==> (#[trigger] items[i]).errors.wf(),
            ErrorsView::Object { fields } => distinct_names(fields) && forall|i: int|
                0 <= i < fields.len() ==> (#[trigger] fields[i]).errors.wf(),
            ErrorsView::NewType { errors } => true,
        }
    }

    /// Whether the tree is that of a scalar or of a sequence of such values:
    /// no part of it is the tree of an object.
    pub open spec fn array_shaped(self) -> bool
        decreases self,
    {
        match self {
            ErrorsView::Array { errors, items } => forall|i: int|
                0 <= i < items.len() ==> (#[trigger] items[i]).errors.array_shaped(),
            ErrorsView::Object { fields } => false,
            ErrorsView::NewType { errors } => true,
        }
    }

    /// The violations of the item at `index`, if the tree is that of a
    /// sequence and holds any for it.
    pub open spec fn item(self, index: nat) -> Option<ErrorsView> {
        match self {
            ErrorsView::Array { errors, items } => match item_position(items, index) {
                Some(position) => Some(items[position].errors),
                None => None,
            },
            _ => None,
        }
    }
}

/// Whether two trees describe values of one shape, so that they can be
/// merged: a list goes with a list and with the tree of a sequence, the
/// tree of an object only with another, and where both trees hold
/// violations for one index or one field, those can be merged in turn.
pub open spec fn mergeable(a: ErrorsView, b: ErrorsView) -> bool
    decreases b,
{
    match (a, b) {
        (
            ErrorsView::Array { errors: _, items: a_items },
            ErrorsView::Array { errors: _, items: b_items },
        ) => forall|i: int, j: int|
            0 <= i < a_items.len() && 0 <= j < b_items.len() && (#[trigger] a_items[i]).index == (
            #[trigger] b_items[j]).index ==> mergeable(a_items[i].errors, b_items[j].errors),
        (ErrorsView::Array { .. }, ErrorsView::NewType { .. }) => true,
        (ErrorsView::NewType { .. }, ErrorsView::Array { .. }) => true,
        (ErrorsView::NewType { .. }, ErrorsView::NewType { .. }) => true,
        (ErrorsView::Object { fields: a_fields }, ErrorsView::Object { fields: b_fields }) => forall|
            i: int,
            j: int,
        |
            0 <= i < a_fields.len() && 0 <= j < b_fields.len() && (#[trigger] a_fields[i]).name == (
            #[trigger] b_fields[j]).name ==> mergeable(a_fields[i].errors, b_fields[j].errors),
        _ => false,
    }
}

/// The merge of two trees that describe one value.
///
/// Lists are concatenated. A list merged with the tree of a sequence
/// becomes that sequence's own list. Maps are united: what only one tree
/// holds for an index or a field is carried over, and what both hold is
/// merged in turn. The items of `a` keep their places, and those that only
/// `b` holds follow in the order of `b`.
pub open spec fn merge_view(a: ErrorsView, b: ErrorsView) -> ErrorsView
    decreases b, 0nat,
{
    match (a, b) {
        (
            ErrorsView::Array { errors: a_errors, items: a_items },
            ErrorsView::Array { errors: b_errors, items: b_items },
        ) => ErrorsView::Array {
            errors: a_errors + b_errors,
            items: merge_items(a_items, b_items, b_items.len()),
        },
        (
            ErrorsView::Array { errors: a_errors, items: a_items },
            ErrorsView::NewType { errors: b_errors },
        ) => ErrorsView::Array { errors: a_errors + b_errors, items: a_items },
        (
            ErrorsView::NewType { errors: a_errors },
            ErrorsView::Array { errors: b_errors, items: b_items },
        ) => ErrorsView::Array { errors: a_errors + b_errors, items: b_items },
        (
            ErrorsView::NewType { errors: a_errors },
            ErrorsView::NewType { errors: b_errors },
        ) => ErrorsView::NewType { errors: a_errors + b_errors },
        (
            ErrorsView::Object { fields: a_fields },
            ErrorsView::Object { fields: b_fields },
        ) => ErrorsView::Object { fields: merge_fields(a_fields, b_fields, b_fields.len()) },
        _ => a,
    }
}

/// The items of `a` with the first `count` items of `b` merged in.
pub open spec fn merge_items(a: Seq<ItemErrorsView>, b: Seq<ItemErrorsView>, count: nat) -> Seq<
    ItemErrorsView,
>
    decreases b, count,
{
    if count == 0 || count > b.len() {
        a
    } else {
        let so_far = merge_items(a, b, (count - 1) as nat);
        let entry = b[count - 1];
        match item_position(so_far, entry.index) {
            Some(position) => so_far.update(
                position,
                ItemErrorsView {
                    index: entry.index,
                    errors: merge_view(so_far[position].errors, entry.errors),
                },
            ),
            None => so_far.push(entry),
        }
    }
}

/// The fields of `a` with the first `count` fields of `b` merged in.
pub open spec fn merge_fields(a: Seq<FieldErrorsView>, b: Seq<FieldErrorsView>, count: nat) -> Seq<
    FieldErrorsView,
>
    decreases b, count,
{
    if count == 0 || count > b.len() {
        a
    } else {
        let so_far = merge_fields(a, b, (count - 1) as nat);
        let entry = b[count - 1];
        match field_position(so_far, entry.name) {
            Some(position) => so_far.update(
                position,
                FieldErrorsView {
                    name: entry.name,
                    errors: merge_view(so_far[position].errors, entry.errors),
                },
            ),
            None => so_far.push(entry),
        }
    }
}

/// What the first position is: the index stands there, and nowhere before.
pub proof fn lemma_item_position(items: Seq<ItemErrorsView>, index: nat)
    ensures
        match item_position(items, index) {
            Some(position) => 0 <= position < items.len() && items[position].index == index
                && forall|j: int| 0 <= j < position ==> (#[trigger] items[j]).index != index,
            None => forall|j: int| 0 <= j < items.len() ==> (#[trigger] items[j]).index != index,
        },
    decreases items.len(),
{
    if items.len() > 0 {
        lemma_item_position(items.drop_last(), index);
        match item_position(items.drop_last(), index) {
            Some(position) => {
                assert(items.drop_last()[position] == items[position]);
                assert forall|j: int| 0 <= j < position implies (#[trigger] items[j]).index
                    != index by {
                    assert(items.drop_last()[j] == items[j]);
                }
            },
            None => {
                assert forall|j: int| 0 <= j < items.len() - 1 implies (#[trigger] items[j]).index
                    != index by {
                    assert(items.drop_last()[j] == items[j]);
                }
            },
        }
    }
}

/// What the first position is: the name stands there, and nowhere before.
pub proof fn lemma_field_position(fields: Seq<FieldErrorsView>, name: Seq<char>)
    ensures
        match field_position(fields, name) {
            Some(position) => 0 <= position < fields.len() && fields[position].name == name
                && forall|j: int| 0 <= j < position ==> (#[trigger] fields[j]).name != name,
            None => forall|j: int| 0 <= j < fields.len() ==> (#[trigger] fields[j]).name != name,
        },
    decreases fields.len(),
{
    if fields.len() > 0 {
        lemma_field_position(fields.drop_last(), name);
        match field_position(fields.drop_last(), name) {
            Some(position) => {
                assert(fields.drop_last()[position] == fields[position]);
                assert forall|j: int| 0 <= j < position implies (#[trigger] fields[j]).name
                    != name by {
                    assert(fields.drop_last()[j] == fields[j]);
                }
            },
            None => {
                assert forall|j: int| 0 <= j < fields.len() - 1 implies (#[trigger] fields[j]).name
                    != name by {
                    assert(fields.drop_last()[j] == fields[j]);
                }
            },
        }
    }
}

fn find_item(items: &Vec<ItemErrors>, index: usize) -> (found: Option<usize>)
    ensures
        match found {
            Some(position) => item_position(item_views(items@), index as nat) == Some(
                position as int,
            ),
            None => item_position(item_views(items@), index as nat) is None,
        },
{
    let ghost views = item_views(items@);
    proof {
        lemma_item_position(views, index as nat);
    }
    let mut i: usize = 0;
    while i < items.len()
        invariant
            i <= items.len(),
            views == item_views(items@),
            forall|j: int| 0 <= j < i ==> (#[trigger] views[j]).index != index as nat,
        decreases items.len() - i,
    {
        if items[i].index == index {
            proof {
                lemma_item_position(views, index as nat);
                assert(views[i as int].index == index as nat);
                let position = item_position(views, index as nat)->0;
                assert(views[position].index == index as nat);
                assert(position == i);
            }
            return Some(i);
        }
        i = i + 1;
    }
    None
}

fn find_field(fields: &Vec<FieldErrors>, name: &str) -> (found: Option<usize>)
    ensures
        match found {
            Some(position) => field_position(field_views(fields@), name@) == Some(position as int),
            None => field_position(field_views(fields@), name@) is None,
        },
{
    let ghost views = field_views(fields@);
    proof {
        lemma_field_position(views, name@);
    }
    let mut i: usize = 0;
    while i < fields.len()
        invariant
            i <= fields.len(),
            views == field_views(fields@),
            forall|j: int| 0 <= j < i ==> (#[trigger] views[j]).name != name@,
        decreases fields.len() - i,
    {
        if crate::text::str_eq(fields[i].name.as_str(), name) {
            proof {
                lemma_field_position(views, name@);
                assert(views[i as int].name == name@);
                let position = field_position(views, name@)->0;
                assert(views[position].name == name@);
                assert(position == i);
            }
            return Some(i);
        }
        i = i + 1;
    }
    None
}

/// Whether the children of two maps can be merged wherever both hold one.
pub open spec fn items_mergeable(a: Seq<ItemErrorsView>, b: Seq<ItemErrorsView>) -> bool {
    forall|i: int, j: int|
        0 <= i < a.len() && 0 <= j < b.len() && (#[trigger] a[i]).index == (#[trigger] b[j]).index
            ==> mergeable(a[i].errors, b[j].errors)
}

/// Whether each child of a map is well formed.
pub open spec fn items_wf(items: Seq<ItemErrorsView>) -> bool {
    distinct_indices(items) && forall|i: int|
        0 <= i < items.len() ==> (#[trigger] items[i]).errors.wf()
}

/// Whether the children of two maps can be merged wherever both hold one.
pub open spec fn fields_mergeable(a: Seq<FieldErrorsView>, b: Seq<FieldErrorsView>) -> bool {
    forall|i: int, j: int|
        0 <= i < a.len() && 0 <= j < b.len() && (#[trigger] a[i]).name == (#[trigger] b[j]).name
            ==> mergeable(a[i].errors, b[j].errors)
}

/// Whether each child of a map is well formed.
pub open spec fn fields_wf(fields: Seq<FieldErrorsView>) -> bool {
    distinct_names(fields) && forall|i: int|
        0 <= i < fields.len() ==> (#[trigger] fields[i]).errors.wf()
}

/// Whether no child of a map is the tree of an object, nor holds one.
pub open spec fn items_shaped(items: Seq<ItemErrorsView>) -> bool {
    forall|i: int| 0 <= i < items.len() ==> (#[trigger] items[i]).errors.array_shaped()
}

/// Two trees without any part of an object's shape can always be merged.
pub proof fn lemma_array_shaped_mergeable(a: ErrorsView, b: ErrorsView)
    requires
        a.array_shaped(),
        b.array_shaped(),
    ensures
        mergeable(a, b),
    decreases b,
{
    match (a, b) {
        (
            ErrorsView::Array { errors: _, items: a_items },
            ErrorsView::Array { errors: _, items: b_items },
        ) => {
            assert forall|i: int, j: int|
                0 <= i < a_items.len() && 0 <= j < b_items.len() && (#[trigger] a_items[i]).index
                    == (#[trigger] b_items[j]).index implies mergeable(
                a_items[i].errors,
                b_items[j].errors,
            ) by {
                lemma_array_shaped_mergeable(a_items[i].errors, b_items[j].errors);
            }
        },
        _ => {},
    }
}

fn merged_items(a: Vec<ItemErrors>, b: Vec<ItemErrors>) -> (merged_into: Vec<ItemErrors>)
    requires
        items_wf(item_views(a@)),
        items_wf(item_views(b@)),
        items_mergeable(item_views(a@), item_views(b@)),
    ensures
        item_views(merged_into@) == merge_items(item_views(a@), item_views(b@), b@.len()),
        items_wf(item_views(merged_into@)),
        items_shaped(item_views(a@)) && items_shaped(item_views(b@)) ==> items_shaped(
            item_views(merged_into@),
        ),
    decreases item_views(b@), 1nat,
{
    let ghost a_views = item_views(a@);
    let ghost b_views = item_views(b@);
    let mut acc = a;
    let mut rest = b;
    let ghost mut done: int = 0;
    proof {
        assert(item_views(rest@) =~= b_views.skip(0));
    }
    while rest.len() > 0
        invariant
            done + rest@.len() == b_views.len(),
            item_views(rest@) == b_views.skip(done),
            0 <= done,
            item_views(acc@) == merge_items(a_views, b_views, done as nat),
            b_views == item_views(b@),
            items_wf(a_views),
            items_wf(b_views),
            items_mergeable(a_views, b_views),
            items_wf(item_views(acc@)),
            items_shaped(a_views) && items_shaped(b_views) ==> items_shaped(item_views(acc@)),
            acc@.len() >= a_views.len(),
            forall|i: int|
                0 <= i < a_views.len() ==> (#[trigger] item_views(acc@)[i]).index
                    == a_views[i].index,
            forall|i: int|
                0 <= i < a_views.len() && (forall|j: int|
                    0 <= j < done ==> (#[trigger] b_views[j]).index != a_views[i].index)
                    ==> #[trigger] item_views(acc@)[i] == a_views[i],
            forall|p: int|
                a_views.len() <= p < acc@.len() ==> exists|j: int|
                    0 <= j < done && (#[trigger] b_views[j]).index == (#[trigger] item_views(
                        acc@,
                    )[p]).index,
        decreases rest@.len(),
    {
        let ghost acc_views = item_views(acc@);
        let ghost rest_views = item_views(rest@);
        let entry = rest.remove(0);
        proof {
            assert(entry@ == rest_views[0]);
            assert(rest_views[0] == b_views[done]);
            assert forall|i: int| 0 <= i < rest@.len() implies item_views(rest@)[i] == b_views.skip(
                done + 1,
            )[i] by {
                assert(rest@[i]@ == rest_views[i + 1]);
                assert(rest_views[i + 1] == b_views[done + i + 1]);
            }
            assert(item_views(rest@) =~= b_views.skip(done + 1));
            assert(decreases_to!(b_views => b_views[done]));
            assert(decreases_to!(b_views[done] => b_views[done].errors));
            lemma_item_position(acc_views, entry@.index);
        }
        match find_item(&acc, entry.index) {
            Some(position) => {
                proof {
                    // The position lies among the items of `a`, which is still untouched there.
                    if position >= a_views.len() {
                        let j = choose|j: int|
                            0 <= j < done && (#[trigger] b_views[j]).index == acc_views[position as int].index;
                        assert(b_views[j].index == b_views[done].index);
                        assert(false);
                    }
                    assert(forall|j: int|
                        0 <= j < done ==> (#[trigger] b_views[j]).index
                            != a_views[position as int].index) by {
                        assert forall|j: int| 0 <= j < done implies (#[trigger] b_views[j]).index
                            != a_views[position as int].index by {
                            assert(b_views[j].index != b_views[done].index);
                        }
                    }
                    assert(acc_views[position as int] == a_views[position as int]);
                    assert(mergeable(a_views[position as int].errors, b_views[done].errors));
                }
                let held = acc.remove(position);
                proof {
                    assert(held@ == acc_views[position as int]);
                }
                let index = entry.index;
                let errors = merged(held.errors, entry.errors);
                acc.insert(position, ItemErrors { index, errors });
                proof {
                    let updated = acc_views.update(
                        position as int,
                        ItemErrorsView {
                            index: entry@.index,
                            errors: merge_view(acc_views[position as int].errors, entry@.errors),
                        },
                    );
                    assert(item_views(acc@) =~= updated);
                    assert(updated == merge_items(a_views, b_views, (done + 1) as nat));
                    assert forall|i: int|
                        0 <= i < a_views.len() && (forall|j: int|
                            0 <= j < done + 1 ==> (#[trigger] b_views[j]).index
                                != a_views[i].index) implies #[trigger] item_views(acc@)[i]
                        == a_views[i] by {
                        if i == position {
                            assert(b_views[done].index == a_views[i].index);
                        } else {
                            assert(forall|j: int|
                                0 <= j < done ==> (#[trigger] b_views[j]).index
                                    != a_views[i].index);
                            assert(acc_views[i] == a_views[i]);
                        }
                    }
                    assert forall|p: int| a_views.len() <= p < acc@.len() implies exists|j: int|
                        0 <= j < done + 1 && (#[trigger] b_views[j]).index == (
                        #[trigger] item_views(acc@)[p]).index by {
                        let j = choose|j: int|
                            0 <= j < done && (#[trigger] b_views[j]).index == acc_views[p].index;
                        assert(b_views[j].index == item_views(acc@)[p].index);
                    }
                    assert forall|i: int, j: int|
                        0 <= i < updated.len() && 0 <= j < updated.len() && i
                            != j implies #[trigger] updated[i].index
                        != #[trigger] updated[j].index by {
                        assert(updated[i].index == acc_views[i].index);
                        assert(updated[j].index == acc_views[j].index);
                    }
                    assert forall|i: int| 0 <= i < updated.len() implies (
                    #[trigger] updated[i]).errors.wf() by {
                        if i != position {
                            assert(updated[i] == acc_views[i]);
                        }
                    }
                    if items_shaped(a_views) && items_shaped(b_views) {
                        assert forall|i: int| 0 <= i < updated.len() implies (
                        #[trigger] updated[i]).errors.array_shaped() by {
                            if i != position {
                                assert(updated[i] == acc_views[i]);
                            } else {
                                assert(acc_views[i].errors.array_shaped());
                                assert(b_views[done].errors.array_shaped());
                            }
                        }
                    }
                }
            },
            None => {
                acc.push(entry);
                proof {
                    let pushed = acc_views.push(b_views[done]);
                    assert(item_views(acc@) =~= pushed);
                    assert forall|i: int|
                        0 <= i < a_views.len() && (forall|j: int|
                            0 <= j < done + 1 ==> (#[trigger] b_views[j]).index
                                != a_views[i].index) implies #[trigger] item_views(acc@)[i]
                        == a_views[i] by {
                        assert(forall|j: int|
                            0 <= j < done ==> (#[trigger] b_views[j]).index != a_views[i].index);
                        assert(acc_views[i] == a_views[i]);
                    }
                    assert forall|p: int| a_views.len() <= p < acc@.len() implies exists|j: int|
                        0 <= j < done + 1 && (#[trigger] b_views[j]).index == (
                        #[trigger] item_views(acc@)[p]).index by {
                        if p < acc_views.len() {
                            let j = choose|j: int|
                                0 <= j < done && (#[trigger] b_views[j]).index
                                    == acc_views[p].index;
                            assert(b_views[j].index == item_views(acc@)[p].index);
                        } else {
                            assert(b_views[done].index == item_views(acc@)[p].index);
                        }
                    }
                    assert forall|i: int, j: int|
                        0 <= i < pushed.len() && 0 <= j < pushed.len() && i
                            != j implies #[trigger] pushed[i].index
                        != #[trigger] pushed[j].index by {
                        if i < acc_views.len() {
                            assert(pushed[i] == acc_views[i]);
                        }
                        if j < acc_views.len() {
                            assert(pushed[j] == acc_views[j]);
                        }
                    }
                    assert forall|i: int| 0 <= i < pushed.len() implies (
                    #[trigger] pushed[i]).errors.wf() by {
                        if i < acc_views.len() {
                            assert(pushed[i] == acc_views[i]);
                        }
                    }
                    if items_shaped(a_views) && items_shaped(b_views) {
                        assert forall|i: int| 0 <= i < pushed.len() implies (
                        #[trigger] pushed[i]).errors.array_shaped() by {
                            if i < acc_views.len() {
                                assert(pushed[i] == acc_views[i]);
                            } else {
                                assert(b_views[done].errors.array_shaped());
                            }
                        }
                    }
                    assert forall|i: int| 0 <= i < a_views.len() implies (#[trigger] item_views(
                        acc@,
                    )[i]).index == a_views[i].index by {
                        assert(pushed[i] == acc_views[i]);
                    }
                }
            },
        }
        proof {
            done = done + 1;
        }
    }
    acc
}

fn merged_fields(a: Vec<FieldErrors>, b: Vec<FieldErrors>) -> (merged_into: Vec<FieldErrors>)
    requires
        fields_wf(field_views(a@)),
        fields_wf(field_views(b@)),
        fields_mergeable(field_views(a@), field_views(b@)),
    ensures
        field_views(merged_into@) == merge_fields(field_views(a@), field_views(b@), b@.len()),
        fields_wf(field_views(merged_into@)),
    decreases field_views(b@), 1nat,
{
    let ghost a_views = field_views(a@);
    let ghost b_views = field_views(b@);
    let mut acc = a;
    let mut rest = b;
    let ghost mut done: int = 0;
    proof {
        assert(field_views(rest@) =~= b_views.skip(0));
    }
    while rest.len() > 0
        invariant
            done + rest@.len() == b_views.len(),
            field_views(rest@) == b_views.skip(done),
            0 <= done,
            field_views(acc@) == merge_fields(a_views, b_views, done as nat),
            b_views == field_views(b@),
            fields_wf(a_views),
            fields_wf(b_views),
            fields_mergeable(a_views, b_views),
            fields_wf(field_views(acc@)),
            acc@.len() >= a_views.len(),
            forall|i: int|
                0 <= i < a_views.len() ==> (#[trigger] field_views(acc@)[i]).name
                    == a_views[i].name,
            forall|i: int|
                0 <= i < a_views.len() && (forall|j: int|
                    0 <= j < done ==> (#[trigger] b_views[j]).name != a_views[i].name)
                    ==> #[trigger] field_views(acc@)[i] == a_views[i],
            forall|p: int|
                a_views.len() <= p < acc@.len() ==> exists|j: int|
                    0 <= j < done && (#[trigger] b_views[j]).name == (#[trigger] field_views(
                        acc@,
                    )[p]).name,
        decreases rest@.len(),
    {
        let ghost acc_views = field_views(acc@);
        let ghost rest_views = field_views(rest@);
        let entry = rest.remove(0);
        proof {
            assert(entry@ == rest_views[0]);
            assert(rest_views[0] == b_views[done]);
            assert forall|i: int| 0 <= i < rest@.len() implies field_views(rest@)[i] == b_views.skip(
                done + 1,
            )[i] by {
                assert(rest@[i]@ == rest_views[i + 1]);
                assert(rest_views[i + 1] == b_views[done + i + 1]);
            }
            assert(field_views(rest@) =~= b_views.skip(done + 1));
            assert(decreases_to!(b_views => b_views[done]));
            assert(decreases_to!(b_views[done] => b_views[done].errors));
            lemma_field_position(acc_views, entry@.name);
        }
        match find_field(&acc, entry.name.as_str()) {
            Some(position) => {
                proof {
                    // The position lies among the items of `a`, which is still untouched there.
                    if position >= a_views.len() {
                        let j = choose|j: int|
                            0 <= j < done && (#[trigger] b_views[j]).name == acc_views[position as int].name;
                        assert(b_views[j].name == b_views[done].name);
                        assert(false);
                    }
                    assert(forall|j: int|
                        0 <= j < done ==> (#[trigger] b_views[j]).name
                            != a_views[position as int].name) by {
                        assert forall|j: int| 0 <= j < done implies (#[trigger] b_views[j]).name
                            != a_views[position as int].name by {
                            assert(b_views[j].name != b_views[done].name);
                        }
                    }
                    assert(acc_views[position as int] == a_views[position as int]);
                    assert(mergeable(a_views[position as int].errors, b_views[done].errors));
                }
                let held = acc.remove(position);
                proof {
                    assert(held@ == acc_views[position as int]);
                }
                let name = entry.name;
                let errors = merged(held.errors, entry.errors);
                acc.insert(position, FieldErrors { name, errors });
                proof {
                    let updated = acc_views.update(
                        position as int,
                        FieldErrorsView {
                            name: entry@.name,
                            errors: merge_view(acc_views[position as int].errors, entry@.errors),
                        },
                    );
                    assert(field_views(acc@) =~= updated);
                    assert(updated == merge_fields(a_views, b_views, (done + 1) as nat));
                    assert forall|i: int|
                        0 <= i < a_views.len() && (forall|j: int|
                            0 <= j < done + 1 ==> (#[trigger] b_views[j]).name
                                != a_views[i].name) implies #[trigger] field_views(acc@)[i]
                        == a_views[i] by {
                        if i == position {
                            assert(b_views[done].name == a_views[i].name);
                        } else {
                            assert(forall|j: int|
                                0 <= j < done ==> (#[trigger] b_views[j]).name
                                    != a_views[i].name);
                            assert(acc_views[i] == a_views[i]);
                        }
                    }
                    assert forall|p: int| a_views.len() <= p < acc@.len() implies exists|j: int|
                        0 <= j < done + 1 && (#[trigger] b_views[j]).name == (
                        #[trigger] field_views(acc@)[p]).name by {
                        let j = choose|j: int|
                            0 <= j < done && (#[trigger] b_views[j]).name == acc_views[p].name;
                        assert(b_views[j].name == field_views(acc@)[p].name);
                    }
                    assert forall|i: int, j: int|
                        0 <= i < updated.len() && 0 <= j < updated.len() && i
                            != j implies #[trigger] updated[i].name
                        != #[trigger] updated[j].name by {
                        assert(updated[i].name == acc_views[i].name);
                        assert(updated[j].name == acc_views[j].name);
                    }
                    assert forall|i: int| 0 <= i < updated.len() implies (
                    #[trigger] updated[i]).errors.wf() by {
                        if i != position {
                            assert(updated[i] == acc_views[i]);
                        }
                    }
                }
            },
            None => {
                acc.push(entry);
                proof {
                    let pushed = acc_views.push(b_views[done]);
                    assert(field_views(acc@) =~= pushed);
                    assert forall|i: int|
                        0 <= i < a_views.len() && (forall|j: int|
                            0 <= j < done + 1 ==> (#[trigger] b_views[j]).name
                                != a_views[i].name) implies #[trigger] field_views(acc@)[i]
                        == a_views[i] by {
                        assert(forall|j: int|
                            0 <= j < done ==> (#[trigger] b_views[j]).name != a_views[i].name);
                        assert(acc_views[i] == a_views[i]);
                    }
                    assert forall|p: int| a_views.len() <= p < acc@.len() implies exists|j: int|
                        0 <= j < done + 1 && (#[trigger] b_views[j]).name == (
                        #[trigger] field_views(acc@)[p]).name by {
                        if p < acc_views.len() {
                            let j = choose|j: int|
                                0 <= j < done && (#[trigger] b_views[j]).name
                                    == acc_views[p].name;
                            assert(b_views[j].name == field_views(acc@)[p].name);
                        } else {
                            assert(b_views[done].name == field_views(acc@)[p].name);
                        }
                    }
                    assert forall|i: int, j: int|
                        0 <= i < pushed.len() && 0 <= j < pushed.len() && i
                            != j implies #[trigger] pushed[i].name
                        != #[trigger] pushed[j].name by {
                        if i < acc_views.len() {
                            assert(pushed[i] == acc_views[i]);
                        }
                        if j < acc_views.len() {
                            assert(pushed[j] == acc_views[j]);
                        }
                    }
                    assert forall|i: int| 0 <= i < pushed.len() implies (
                    #[trigger] pushed[i]).errors.wf() by {
                        if i < acc_views.len() {
                            assert(pushed[i] == acc_views[i]);
                        }
                    }
                    assert forall|i: int| 0 <= i < a_views.len() implies (#[trigger] field_views(
                        acc@,
                    )[i]).name == a_views[i].name by {
                        assert(pushed[i] == acc_views[i]);
                    }
                }
            },
        }
        proof {
            done = done + 1;
        }
    }
    acc
}

/// The merge of two trees.
fn merged(a: Errors, b: Errors) -> (tree: Errors)
    requires
        a@.wf(),
        b@.wf(),
        mergeable(a@, b@),
    ensures
        tree@ == merge_view(a@, b@),
        tree@.wf(),
        a@.array_shaped() && b@.array_shaped() ==> tree@.array_shaped(),
    decreases b@, 0nat,
{
    proof {
        lemma_errors_view(a);
        lemma_errors_view(b);
    }
    match a {
        Errors::Array(mut a) => match b {
            Errors::Array(mut b) => {
                let ghost head = error_views(a.errors@);
                let ghost tail = error_views(b.errors@);
                a.errors.append(&mut b.errors);
                proof {
                    assert(error_views(a.errors@) =~= head + tail);
                }
                let items = merged_items(a.items, b.items);
                let tree = Errors::Array(ArrayErrors { errors: a.errors, items });
                proof {
                    lemma_errors_view(tree);
                }
                tree
            },
            Errors::Object(_) => {
                vstd::pervasive::unreached()
            },
            Errors::NewType(mut errors) => {
                let ghost head = error_views(a.errors@);
                let ghost tail = error_views(errors@);
                a.errors.append(&mut errors);
                proof {
                    assert(error_views(a.errors@) =~= head + tail);
                }
                let tree = Errors::Array(a);
                proof {
                    lemma_errors_view(tree);
                }
                tree
            },
        },
        Errors::NewType(mut a) => match b {
            Errors::Array(mut b) => {
                let ghost head = error_views(a@);
                let ghost tail = error_views(b.errors@);
                a.append(&mut b.errors);
                proof {
                    assert(error_views(a@) =~= head + tail);
                }
                let tree = Errors::Array(ArrayErrors::new(a, b.items));
                proof {
                    lemma_errors_view(tree);
                }
                tree
            },
            Errors::Object(_) => {
                vstd::pervasive::unreached()
            },
            Errors::NewType(mut b) => {
                let ghost head = error_views(a@);
                let ghost tail = error_views(b@);
                a.append(&mut b);
                proof {
                    assert(error_views(a@) =~= head + tail);
                }
                let tree = Errors::NewType(a);
                proof {
                    lemma_errors_view(tree);
                }
                tree
            },
        },
        Errors::Object(a) => match b {
            Errors::Object(b) => {
                let fields = merged_fields(a.fields, b.fields);
                let tree = Errors::Object(ObjectErrors { fields });
                proof {
                    lemma_errors_view(tree);
                }
                tree
            },
            _ => {
                vstd::pervasive::unreached()
            },
        },
    }
}

impl ArrayErrors {
    /// The violations of a sequence: its own, and those of its items.
    pub fn new(errors: VecErrors, items: Vec<ItemErrors>) -> (array: Self)
        ensures
            array.errors == errors,
            array.items == items,
    {
        Self { errors, items }
    }
}

fn indices_distinct(items: &Vec<ItemErrors>) -> (distinct: bool)
    ensures
        distinct == distinct_indices(item_views(items@)),
{
    let ghost views = item_views(items@);
    let mut i: usize = 0;
    while i < items.len()
        invariant
            i <= items.len(),
            views == item_views(items@),
            forall|a: int, b: int|
                0 <= a < b < i ==> (#[trigger] views[a]).index != (#[trigger] views[b]).index,
        decreases items.len() - i,
    {
        let mut j: usize = 0;
        while j < i
            invariant
                j <= i < items.len(),
                views == item_views(items@),
                forall|a: int|
                    0 <= a < j ==> (#[trigger] views[a]).index != views[i as int].index,
            decreases i - j,
        {
            if items[j].index == items[i].index {
                assert(views[j as int].index == views[i as int].index);
                return false;
            }
            j = j + 1;
        }
        i = i + 1;
    }
    assert forall|a: int, b: int|
        0 <= a < views.len() && 0 <= b < views.len() && a != b implies (#[trigger] views[a]).index
        != (#[trigger] views[b]).index by {
        if a < b {
        } else {
            assert(views[b].index != views[a].index);
        }
    }
    true
}

fn names_distinct(fields: &Vec<FieldErrors>) -> (distinct: bool)
    ensures
        distinct == distinct_names(field_views(fields@)),
{
    let ghost views = field_views(fields@);
    let mut i: usize = 0;
    while i < fields.len()
        invariant
            i <= fields.len(),
            views == field_views(fields@),
            forall|a: int, b: int|
                0 <= a < b < i ==> (#[trigger] views[a]).name != (#[trigger] views[b]).name,
        decreases fields.len() - i,
    {
        let mut j: usize = 0;
        while j < i
            invariant
                j <= i < fields.len(),
                views == field_views(fields@),
                forall|a: int| 0 <= a < j ==> (#[trigger] views[a]).name != views[i as int].name,
            decreases i - j,
        {
            if crate::text::str_eq(fields[j].name.as_str(), fields[i].name.as_str()) {
                assert(views[j as int].name == views[i as int].name);
                return false;
            }
            j = j + 1;
        }
        i = i + 1;
    }
    assert forall|a: int, b: int|
        0 <= a < views.len() && 0 <= b < views.len() && a != b implies (#[trigger] views[a]).name
        != (#[trigger] views[b]).name by {
        if a < b {
        } else {
            assert(views[b].name != views[a].name);
        }
    }
    true
}

fn shapes_agree(a: &Errors, b: &Errors) -> (agree: bool)
    ensures
        agree == mergeable(a@, b@),
    decreases b@,
{
    proof {
        lemma_errors_view(*a);
        lemma_errors_view(*b);
    }
    match a {
        Errors::Array(a_array) => match b {
            Errors::Array(b_array) => {
                let ghost a_views = item_views(a_array.items@);
                let ghost b_views = item_views(b_array.items@);
                let mut i: usize = 0;
                while i < a_array.items.len()
                    invariant
                        i <= a_array.items.len(),
                        a_views == item_views(a_array.items@),
                        b_views == item_views(b_array.items@),
                        a@ == (ErrorsView::Array {
                            errors: error_views(a_array.errors@),
                            items: a_views,
                        }),
                        b@ == (ErrorsView::Array {
                            errors: error_views(b_array.errors@),
                            items: b_views,
                        }),
                        forall|x: int, y: int|
                            0 <= x < i && 0 <= y < b_views.len() && (#[trigger] a_views[x]).index
                                == (#[trigger] b_views[y]).index ==> mergeable(
                                a_views[x].errors,
                                b_views[y].errors,
                            ),
                    decreases a_array.items.len() - i,
                {
                    let mut j: usize = 0;
                    while j < b_array.items.len()
                        invariant
                            j <= b_array.items.len(),
                            i < a_array.items.len(),
                            a_views == item_views(a_array.items@),
                            b_views == item_views(b_array.items@),
                            a@ == (ErrorsView::Array {
                                errors: error_views(a_array.errors@),
                                items: a_views,
                            }),
                            b@ == (ErrorsView::Array {
                                errors: error_views(b_array.errors@),
                                items: b_views,
                            }),
                            forall|y: int|
                                0 <= y < j && a_views[i as int].index == (
                                #[trigger] b_views[y]).index ==> mergeable(
                                    a_views[i as int].errors,
                                    b_views[y].errors,
                                ),
                        decreases b_array.items.len() - j,
                    {
                        if a_array.items[i].index == b_array.items[j].index {
                            proof {
                                assert(decreases_to!(b@ => b@->Array_items));
                                assert(decreases_to!(b_views => b_views[j as int]));
                                assert(decreases_to!(b_views[j as int] => b_views[j as int].errors));
                                assert(b_array.items@[j as int]@ == b_views[j as int]);
                                assert(a_array.items@[i as int]@ == a_views[i as int]);
                            }
                            if !shapes_agree(&a_array.items[i].errors, &b_array.items[j].errors) {
                                assert(a_views[i as int].index == b_views[j as int].index);
                                return false;
                            }
                        }
                        j = j + 1;
                    }
                    i = i + 1;
                }
                true
            },
            Errors::Object(_) => false,
            Errors::NewType(_) => true,
        },
        Errors::NewType(_) => match b {
            Errors::Object(_) => false,
            _ => true,
        },
        Errors::Object(a_object) => match b {
            Errors::Object(b_object) => {
                let ghost a_views = field_views(a_object.fields@);
                let ghost b_views = field_views(b_object.fields@);
                let mut i: usize = 0;
                while i < a_object.fields.len()
                    invariant
                        i <= a_object.fields.len(),
                        a_views == field_views(a_object.fields@),
                        b_views == field_views(b_object.fields@),
                        a@ == (ErrorsView::Object { fields: a_views }),
                        b@ == (ErrorsView::Object { fields: b_views }),
                        forall|x: int, y: int|
                            0 <= x < i && 0 <= y < b_views.len() && (#[trigger] a_views[x]).name
                                == (#[trigger] b_views[y]).name ==> mergeable(
                                a_views[x].errors,
                                b_views[y].errors,
                            ),
                    decreases a_object.fields.len() - i,
                {
                    let mut j: usize = 0;
                    while j < b_object.fields.len()
                        invariant
                            j <= b_object.fields.len(),
                            i < a_object.fields.len(),
                            a_views == field_views(a_object.fields@),
                            b_views == field_views(b_object.fields@),
                            a@ == (ErrorsView::Object { fields: a_views }),
                            b@ == (ErrorsView::Object { fields: b_views }),
                            forall|y: int|
                                0 <= y < j && a_views[i as int].name == (
                                #[trigger] b_views[y]).name ==> mergeable(
                                    a_views[i as int].errors,
                                    b_views[y].errors,
                                ),
                        decreases b_object.fields.len() - j,
                    {
                        if crate::text::str_eq(
                            a_object.fields[i].name.as_str(),
                            b_object.fields[j].name.as_str(),
                        ) {
                            proof {
                                assert(decreases_to!(b@ => b@->Object_fields));
                                assert(decreases_to!(b_views => b_views[j as int]));
                                assert(decreases_to!(b_views[j as int] => b_views[j as int].errors));
                                assert(b_object.fields@[j as int]@ == b_views[j as int]);
                                assert(a_object.fields@[i as int]@ == a_views[i as int]);
                            }
                            if !shapes_agree(&a_object.fields[i].errors, &b_object.fields[j].errors) {
                                assert(a_views[i as int].name == b_views[j as int].name);
                                return false;
                            }
                        }
                        j = j + 1;
                    }
                    i = i + 1;
                }
                true
            },
            _ => false,
        },
    }
}

impl Errors {
    /// Whether the tree holds no violation.
    pub fn is_empty(&self) -> (empty: bool)
        ensures
            empty == self@.is_empty(),
    {
        proof {
            lemma_errors_view(*self);
        }
        match self {
            Errors::Array(array) => array.errors.len() == 0 && array.items.len() == 0,
            Errors::Object(object) => object.fields.len() == 0,
            Errors::NewType(errors) => errors.len() == 0,
        }
    }

    /// Whether every map of the tree is a map.
    pub fn is_wf(&self) -> (wf: bool)
        ensures
            wf == self@.wf(),
        decreases self@,
    {
        proof {
            lemma_errors_view(*self);
        }
        match self {
            Errors::Array(array) => {
                if !indices_distinct(&array.items) {
                    return false;
                }
                let ghost views = item_views(array.items@);
                let mut i: usize = 0;
                while i < array.items.len()
                    invariant
                        i <= array.items.len(),
                        views == item_views(array.items@),
                        self@ == (ErrorsView::Array {
                            errors: error_views(array.errors@),
                            items: views,
                        }),
                        forall|j: int| 0 <= j < i ==> (#[trigger] views[j]).errors.wf(),
                    decreases array.items.len() - i,
                {
                    proof {
                        assert(decreases_to!(self@ => self@->Array_items));
                        assert(decreases_to!(views => views[i as int]));
                        assert(decreases_to!(views[i as int] => views[i as int].errors));
                        assert(array.items@[i as int]@ == views[i as int]);
                    }
                    if !array.items[i].errors.is_wf() {
                        assert(!views[i as int].errors.wf());
                        return false;
                    }
                    i = i + 1;
                }
                true
            },
            Errors::Object(object) => {
                if !names_distinct(&object.fields) {
                    return false;
                }
                let ghost views = field_views(object.fields@);
                let mut i: usize = 0;
                while i < object.fields.len()
                    invariant
                        i <= object.fields.len(),
                        views == field_views(object.fields@),
                        self@ == (ErrorsView::Object { fields: views }),
                        forall|j: int| 0 <= j < i ==> (#[trigger] views[j]).errors.wf(),
                    decreases object.fields.len() - i,
                {
                    proof {
                        assert(decreases_to!(self@ => self@->Object_fields));
                        assert(decreases_to!(views => views[i as int]));
                        assert(decreases_to!(views[i as int] => views[i as int].errors));
                        assert(object.fields@[i as int]@ == views[i as int]);
                    }
                    if !object.fields[i].errors.is_wf() {
                        assert(!views[i as int].errors.wf());
                        return false;
                    }
                    i = i + 1;
                }
                true
            },
            Errors::NewType(_) => true,
        }
    }

    /// Whether `other` can be merged into the tree: both are well formed
    /// and describe values of one shape.
    pub fn can_merge(&self, other: &Errors) -> (yes: bool)
        ensures
            yes == (self@.wf() && other@.wf() && mergeable(self@, other@)),
    {
        self.is_wf() && other.is_wf() && shapes_agree(self, other)
    }

    /// Merges `other`, which describes the same value, into the tree.
    ///
    /// Two trees of different shapes describe no one value: a tree that
    /// [`Errors::can_merge`] refuses is not merged.
    pub fn merge(&mut self, other: Errors)
        requires
            old(self)@.wf(),
            other@.wf(),
            mergeable(old(self)@, other@),
        ensures
            final(self)@ == merge_view(old(self)@, other@),
            final(self)@.wf(),
            old(self)@.array_shaped() && other@.array_shaped() ==> final(self)@.array_shaped(),
    {
        let mut held = Errors::NewType(Vec::new());
        core::mem::swap(self, &mut held);
        *self = merged(held, other);
    }
}

/// Merging never loses an item: the merged map is at least as long as
/// `a`, and holds something as soon as one item of `b` is merged in.
pub proof fn lemma_merge_items_len(a: Seq<ItemErrorsView>, b: Seq<ItemErrorsView>, count: nat)
    requires
        count <= b.len(),
    ensures
        merge_items(a, b, count).len() >= a.len(),
        count > 0 ==> merge_items(a, b, count).len() > 0,
    decreases count,
{
    if count > 0 {
        lemma_merge_items_len(a, b, (count - 1) as nat);
        lemma_item_position(merge_items(a, b, (count - 1) as nat), b[count - 1].index);
    }
}

/// Merging never loses a field.
pub proof fn lemma_merge_fields_len(a: Seq<FieldErrorsView>, b: Seq<FieldErrorsView>, count: nat)
    requires
        count <= b.len(),
    ensures
        merge_fields(a, b, count).len() >= a.len(),
        count > 0 ==> merge_fields(a, b, count).len() > 0,
    decreases count,
{
    if count > 0 {
        lemma_merge_fields_len(a, b, (count - 1) as nat);
        lemma_field_position(merge_fields(a, b, (count - 1) as nat), b[count - 1].name);
    }
}

/// The merge of two trees holds no violation exactly when neither of
/// them holds one. This holds of two trees of one kind of shape: both of
/// objects, or each a list or the tree of a sequence.
pub proof fn lemma_merge_is_empty(a: ErrorsView, b: ErrorsView)
    requires
        a is Object <==> b is Object,
    ensures
        merge_view(a, b).is_empty() <==> a.is_empty() && b.is_empty(),
{
    match (a, b) {
        (
            ErrorsView::Array { errors: _, items: a_items },
            ErrorsView::Array { errors: _, items: b_items },
        ) => {
            lemma_merge_items_len(a_items, b_items, b_items.len());
        },
        (ErrorsView::Object { fields: a_fields }, ErrorsView::Object { fields: b_fields }) => {
            lemma_merge_fields_len(a_fields, b_fields, b_fields.len());
        },
        _ => {},
    }
}

/// For the question whether any violation is left, the order of a merge
/// does not matter.
pub proof fn lemma_merge_emptiness_commutes(a: ErrorsView, b: ErrorsView)
    requires
        a is Object <==> b is Object,
    ensures
        merge_view(a, b).is_empty() == merge_view(b, a).is_empty(),
{
    lemma_merge_is_empty(a, b);
    lemma_merge_is_empty(b, a);
}

/// For the question whether any violation is left, the grouping of merges
/// does not matter.
pub proof fn lemma_merge_emptiness_associates(a: ErrorsView, b: ErrorsView, c: ErrorsView)
    requires
        a is Object <==> b is Object,
        b is Object <==> c is Object,
    ensures
        merge_view(merge_view(a, b), c).is_empty() == merge_view(a, merge_view(b, c)).is_empty(),
{
    lemma_merge_is_empty(a, b);
    lemma_merge_is_empty(b, c);
    lemma_merge_is_empty(merge_view(a, b), c);
    lemma_merge_is_empty(a, merge_view(b, c));
}

/// What a merge holds for one index: what both maps hold for it, merged;
/// else what the one map holds that holds anything; else nothing.
pub open spec fn merged_item(a: Option<ErrorsView>, b: Option<ErrorsView>) -> Option<ErrorsView> {
    match (a, b) {
        (Some(x), Some(y)) => Some(merge_view(x, y)),
        (Some(x), None) => Some(x),
        (None, Some(y)) => Some(y),
        (None, None) => None,
    }
}

/// What a map holds for an index.
pub open spec fn item_at(items: Seq<ItemErrorsView>, index: nat) -> Option<ErrorsView> {
    match item_position(items, index) {
        Some(position) => Some(items[position].errors),
        None => None,
    }
}

/// In a map without repeated indices, an index is found where it stands.
pub proof fn lemma_item_at(items: Seq<ItemErrorsView>, position: int)
    requires
        distinct_indices(items),
        0 <= position < items.len(),
    ensures
        item_position(items, items[position].index) == Some(position),
{
    lemma_item_position(items, items[position].index);
}

/// The merged map, index by index, while the first `count` items of `b`
/// are merged in: every index is looked up as [`merged_item`] says, the
/// indices stay distinct, and the items of `a` keep their places.
pub proof fn lemma_merge_items_lookup(
    a: Seq<ItemErrorsView>,
    b: Seq<ItemErrorsView>,
    count: nat,
)
    requires
        distinct_indices(a),
        distinct_indices(b),
        count <= b.len(),
    ensures
        distinct_indices(merge_items(a, b, count)),
        merge_items(a, b, count).len() >= a.len(),
        forall|i: int|
            0 <= i < a.len() ==> (#[trigger] merge_items(a, b, count)[i]).index == a[i].index,
        forall|p: int|
            a.len() <= p < merge_items(a, b, count).len() ==> exists|j: int|
                0 <= j < count && (#[trigger] b[j]).index == (#[trigger] merge_items(
                    a,
                    b,
                    count,
                )[p]).index,
        forall|index: nat| #[trigger]
            item_at(merge_items(a, b, count), index) == merged_item(
                item_at(a, index),
                item_at(b.take(count as int), index),
            ),
    decreases count,
{
    let merged = merge_items(a, b, count);
    if count == 0 {
        assert(b.take(0) =~= Seq::<ItemErrorsView>::empty());
        assert forall|index: nat| #[trigger]
            item_at(merged, index) == merged_item(item_at(a, index), item_at(b.take(0), index)) by {
            lemma_item_position(a, index);
        }
    } else {
        let before = merge_items(a, b, (count - 1) as nat);
        let entry = b[count - 1];
        lemma_merge_items_lookup(a, b, (count - 1) as nat);
        lemma_item_position(before, entry.index);
        let taken = b.take(count as int);
        let taken_before = b.take(count - 1);
        assert(taken.drop_last() =~= taken_before);
        assert(taken.last() == entry);
        // The entry is new among the items of `b` that were merged in before.
        assert(item_position(taken_before, entry.index) is None) by {
            lemma_item_position(taken_before, entry.index);
            if item_position(taken_before, entry.index) is Some {
                let q = item_position(taken_before, entry.index)->0;
                assert(taken_before[q] == b[q]);
                assert(b[q].index == b[count - 1].index);
            }
        }
        match item_position(before, entry.index) {
            Some(position) => {
                if position >= a.len() {
                    let j = choose|j: int|
                        0 <= j < count - 1 && (#[trigger] b[j]).index == before[position].index;
                    assert(b[j].index == b[count - 1].index);
                    assert(false);
                }
                assert(item_at(before, entry.index) == Some(before[position].errors));
                assert(item_at(a, entry.index) == Some(before[position].errors)) by {
                    lemma_item_position(a, entry.index);
                    lemma_item_at(a, position);
                }
                assert forall|i: int, j: int|
                    0 <= i < merged.len() && 0 <= j < merged.len() && i
                        != j implies #[trigger] merged[i].index != #[trigger] merged[j].index by {
                    assert(merged[i].index == before[i].index);
                    assert(merged[j].index == before[j].index);
                }
                assert forall|p: int| a.len() <= p < merged.len() implies exists|j: int|
                    0 <= j < count && (#[trigger] b[j]).index == (#[trigger] merged[p]).index by {
                    let j = choose|j: int|
                        0 <= j < count - 1 && (#[trigger] b[j]).index == before[p].index;
                    assert(b[j].index == merged[p].index);
                }
                assert forall|index: nat| #[trigger]
                    item_at(merged, index) == merged_item(
                        item_at(a, index),
                        item_at(taken, index),
                    ) by {
                    lemma_item_position(merged, index);
                    lemma_item_position(before, index);
                    lemma_item_position(taken, index);
                    lemma_item_position(taken_before, index);
                    assert(item_at(before, index) == merged_item(
                        item_at(a, index),
                        item_at(taken_before, index),
                    ));
                    if index == entry.index {
                        lemma_item_at(merged, position);
                        assert(item_position(taken, index) == Some(count - 1));
                    } else {
                        match item_position(before, index) {
                            Some(found) => {
                                assert(merged[found] == before[found]);
                                lemma_item_at(merged, found);
                            },
                            None => {
                                if item_position(merged, index) is Some {
                                    let found = item_position(merged, index)->0;
                                    assert(before[found].index == merged[found].index);
                                }
                            },
                        }
                        assert(item_position(taken, index) == item_position(taken_before, index));
                    }
                }
            },
            None => {
                assert(merged =~= before.push(entry));
                assert(item_position(a, entry.index) is None) by {
                    lemma_item_position(a, entry.index);
                    if item_position(a, entry.index) is Some {
                        let i = item_position(a, entry.index)->0;
                        assert(before[i].index == a[i].index);
                    }
                }
                assert forall|i: int, j: int|
                    0 <= i < merged.len() && 0 <= j < merged.len() && i
                        != j implies #[trigger] merged[i].index != #[trigger] merged[j].index by {
                    if i < before.len() {
                        assert(merged[i] == before[i]);
                    }
                    if j < before.len() {
                        assert(merged[j] == before[j]);
                    }
                }
                assert forall|i: int| 0 <= i < a.len() implies (#[trigger] merged[i]).index
                    == a[i].index by {
                    assert(merged[i] == before[i]);
                }
                assert forall|p: int| a.len() <= p < merged.len() implies exists|j: int|
                    0 <= j < count && (#[trigger] b[j]).index == (#[trigger] merged[p]).index by {
                    if p < before.len() {
                        let j = choose|j: int|
                            0 <= j < count - 1 && (#[trigger] b[j]).index == before[p].index;
                        assert(merged[p] == before[p]);
                        assert(b[j].index == merged[p].index);
                    } else {
                        assert(b[count - 1].index == merged[p].index);
                    }
                }
                assert forall|index: nat| #[trigger]
                    item_at(merged, index) == merged_item(
                        item_at(a, index),
                        item_at(taken, index),
                    ) by {
                    lemma_item_position(merged, index);
                    lemma_item_position(before, index);
                    lemma_item_position(taken, index);
                    lemma_item_position(taken_before, index);
                    assert(item_at(before, index) == merged_item(
                        item_at(a, index),
                        item_at(taken_before, index),
                    ));
                    if index == entry.index {
                        lemma_item_at(merged, before.len() as int);
                        assert(item_position(taken, index) == Some(count - 1));
                    } else {
                        match item_position(before, index) {
                            Some(found) => {
                                assert(merged[found] == before[found]);
                                lemma_item_at(merged, found);
                            },
                            None => {
                                if item_position(merged, index) is Some {
                                    let found = item_position(merged, index)->0;
                                    assert(merged[found] == before[found]);
                                }
                            },
                        }
                        assert(item_position(taken, index) == item_position(taken_before, index));
                    }
                }
            },
        }
    }
}

/// The merge of the trees of two sequences, index by index: for each
/// index that either tree holds violations for, the merge holds what both
/// hold, merged in turn, or what the one holds, carried over.
pub proof fn lemma_merge_by_index(a: ErrorsView, b: ErrorsView, index: nat)
    requires
        a is Array,
        b is Array,
        a.wf(),
        b.wf(),
    ensures
        merge_view(a, b).item(index) == merged_item(a.item(index), b.item(index)),
{
    let a_items = a->Array_items;
    let b_items = b->Array_items;
    lemma_merge_items_lookup(a_items, b_items, b_items.len());
    assert(b_items.take(b_items.len() as int) =~= b_items);
    assert(item_at(merge_items(a_items, b_items, b_items.len()), index) == merged_item(
        item_at(a_items, index),
        item_at(b_items.take(b_items.len() as int), index),
    ));
}

} // verus!
