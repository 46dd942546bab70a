//! The violations as a structured record, and the record as text.
//!
//! A list of violations is written as the list of their messages; the
//! violations of a sequence as its own list under `errors` and those of
//! its items, by index, under `items`; the violations of an object as
//! those of its fields, by name.

use vstd::prelude::*;
use crate::syntax::{Path, PathView};
use crate::text::{join, join_strings, usize_to_string};
use crate::validation::error::{
    error_views,
    field_views,
    item_views,
    lemma_errors_view,
    Error,
    ErrorView,
    Errors,
    ErrorsView,
    FieldErrorsView,
    ItemErrorsView,
};
use crate::validation::params::{Params, ParamsView, ToDefaultMessage};
use crate::validator::{Message, MessageView};

verus! {

/// A message that only the user's function can write: the function, and
/// the parameters to call it with.
#[derive(Debug, PartialEq, Eq)]
pub struct Call {
    pub function: Path,
    pub params: Params,
}

/// One entry of a map.
#[derive(Debug, PartialEq, Eq)]
pub struct Entry {
    pub key: String,
    pub value: Record,
}

/// A structured record.
#[derive(Debug, PartialEq, Eq)]
pub enum Record {
    /// A message.
    Text(String),
    /// A message that the caller owes: what the named function writes for the parameters.
    Call(Call),
    List(Vec<Record>),
    Object(Vec<Entry>),
}

pub ghost struct EntryView {
    pub key: Seq<char>,
    pub value: RecordView,
}

pub ghost enum RecordView {
    Text(Seq<char>),
    Call { function: PathView, params: ParamsView },
    List(Seq<RecordView>),
    Object(Seq<EntryView>),
}

/// The mathematical value of a record.
pub open spec fn record_view(record: Record) -> RecordView
    decreases record,
{
    match record {
        Record::Text(text) => RecordView::Text(text@),
        Record::Call(call) => RecordView::Call { function: call.function@, params: call.params@ },
        Record::List(items) => RecordView::List(
            Seq::new(
                items@.len(),
                |i: int|
                    if 0 <= i < items@.len() {
                        record_view(items@[i])
                    } else {
                        RecordView::Text(Seq::empty())
                    },
            ),
        ),
        Record::Object(entries) => RecordView::Object(
            Seq::new(
                entries@.len(),
                |i: int|
                    if 0 <= i < entries@.len() {
                        EntryView {
                            key: entries@[i].key@,
                            value: record_view(entries@[i].value),
                        }
                    } else {
                        EntryView { key: Seq::empty(), value: RecordView::Text(Seq::empty()) }
                    },
            ),
        ),
    }
}

impl View for Record {
    type V = RecordView;

    open spec fn view(&self) -> RecordView {
        record_view(*self)
    }
}

impl View for Entry {
    type V = EntryView;

    open spec fn view(&self) -> EntryView {
        EntryView { key: self.key@, value: self.value@ }
    }
}

/// The views of a vector of records.
pub open spec fn record_views(records: Seq<Record>) -> Seq<RecordView> {
    Seq::new(records.len(), |i: int| records[i]@)
}

/// The views of a vector of entries.
pub open spec fn entry_views(entries: Seq<Entry>) -> Seq<EntryView> {
    Seq::new(entries.len(), |i: int| entries[i]@)
}

/// The view of a record, by its kind.
pub proof fn lemma_record_view(record: Record)
    ensures
        record@ == (match record {
            Record::Text(text) => RecordView::Text(text@),
            Record::Call(call) => RecordView::Call {
                function: call.function@,
                params: call.params@,
            },
            Record::List(items) => RecordView::List(record_views(items@)),
            Record::Object(entries) => RecordView::Object(entry_views(entries@)),
        }),
{
    match record {
        Record::List(items) => {
            assert(record@->List_0 =~= record_views(items@));
        },
        Record::Object(entries) => {
            assert(record@->Object_0 =~= entry_views(entries@));
        },
        _ => {},
    }
}

/// The record of a tree of violations.
pub open spec fn record_of(errors: ErrorsView) -> RecordView
    decreases errors,
{
    match errors {
        ErrorsView::NewType { errors: list } => RecordView::List(
            Seq::new(
                list.len(),
                |i: int|
                    if 0 <= i < list.len() {
                        match list[i] {
                            ErrorView::Violation(violation) => match violation.message {
                                MessageView::Function(function) => RecordView::Call {
                                    function,
                                    params: violation.params,
                                },
                                MessageView::Literal(text) => RecordView::Text(text),
                                MessageView::Default => RecordView::Text(
                                    violation.params.message(),
                                ),
                            },
                            ErrorView::Nested(nested) => record_of(nested),
                            ErrorView::Custom(text) => RecordView::Text(text),
                        }
                    } else {
                        RecordView::Text(Seq::empty())
                    },
            ),
        ),
        ErrorsView::Array { errors: list, items } => RecordView::Object(
            seq![
                EntryView {
                    key: "errors"@,
                    value: RecordView::List(
                        Seq::new(
                            list.len(),
                            |i: int|
                                if 0 <= i < list.len() {
                                    match list[i] {
                                        ErrorView::Violation(
                                            violation,
                                        ) => match violation.message {
                                            MessageView::Function(function) => RecordView::Call {
                                                function,
                                                params: violation.params,
                                            },
                                            MessageView::Literal(text) => RecordView::Text(text),
                                            MessageView::Default => RecordView::Text(
                                                violation.params.message(),
                                            ),
                                        },
                                        ErrorView::Nested(nested) => record_of(nested),
                                        ErrorView::Custom(text) => RecordView::Text(text),
                                    }
                                } else {
                                    RecordView::Text(Seq::empty())
                                },
                        ),
                    ),
                },
                EntryView {
                    key: "items"@,
                    value: RecordView::Object(
                        Seq::new(
                            items.len(),
                            |i: int|
                                if 0 <= i < items.len() {
                                    EntryView {
                                        key: crate::text::decimal(items[i].index),
                                        value: record_of(items[i].errors),
                                    }
                                } else {
                                    EntryView {
                                        key: Seq::empty(),
                                        value: RecordView::Text(Seq::empty()),
                                    }
                                },
                        ),
                    ),
                },
            ],
        ),
        ErrorsView::Object { fields } => RecordView::Object(
            Seq::new(
                fields.len(),
                |i: int|
                    if 0 <= i < fields.len() {
                        EntryView { key: fields[i].name, value: record_of(fields[i].errors) }
                    } else {
                        EntryView { key: Seq::empty(), value: RecordView::Text(Seq::empty()) }
                    },
            ),
        ),
    }
}

/// The record of one violation: its message, the call that the caller
/// owes for it, or the record of the nested tree.
pub open spec fn error_record(error: ErrorView) -> RecordView {
    match error {
        ErrorView::Violation(violation) => match violation.message {
            MessageView::Function(function) => RecordView::Call {
                function,
                params: violation.params,
            },
            MessageView::Literal(text) => RecordView::Text(text),
            MessageView::Default => RecordView::Text(violation.params.message()),
        },
        ErrorView::Nested(nested) => record_of(nested),
        ErrorView::Custom(text) => RecordView::Text(text),
    }
}

/// The records of a list of violations.
pub open spec fn error_records(errors: Seq<ErrorView>) -> Seq<RecordView> {
    Seq::new(errors.len(), |i: int| error_record(errors[i]))
}

/// The entries of the items of a sequence.
pub open spec fn item_entries(items: Seq<ItemErrorsView>) -> Seq<EntryView> {
    Seq::new(
        items.len(),
        |i: int|
            EntryView { key: crate::text::decimal(items[i].index), value: record_of(items[i].errors) },
    )
}

/// The entries of the fields of an object.
pub open spec fn field_entries_of(fields: Seq<FieldErrorsView>) -> Seq<EntryView> {
    Seq::new(
        fields.len(),
        |i: int| EntryView { key: fields[i].name, value: record_of(fields[i].errors) },
    )
}

/// The record of a tree, by its shape.
pub proof fn lemma_record_of(errors: ErrorsView)
    ensures
        record_of(errors) == (match errors {
            ErrorsView::NewType { errors: list } => RecordView::List(error_records(list)),
            ErrorsView::Array { errors: list, items } => RecordView::Object(
                seq![
                    EntryView { key: "errors"@, value: RecordView::List(error_records(list)) },
                    EntryView { key: "items"@, value: RecordView::Object(item_entries(items)) },
                ],
            ),
            ErrorsView::Object { fields } => RecordView::Object(field_entries_of(fields)),
        }),
{
    match errors {
        ErrorsView::NewType { errors: list } => {
            assert(record_of(errors)->List_0 =~= error_records(list));
        },
        ErrorsView::Array { errors: list, items } => {
            let found = record_of(errors)->Object_0;
            assert(found[0].value->List_0 =~= error_records(list));
            assert(found[1].value->Object_0 =~= item_entries(items));
            assert(found =~= seq![
                EntryView { key: "errors"@, value: RecordView::List(error_records(list)) },
                EntryView { key: "items"@, value: RecordView::Object(item_entries(items)) },
            ]);
        },
        ErrorsView::Object { fields } => {
            assert(record_of(errors)->Object_0 =~= field_entries_of(fields));
        },
    }
}

fn list_of(records: Vec<Record>) -> (record: Record)
    ensures
        record@ == RecordView::List(record_views(records@)),
{
    let record = Record::List(records);
    proof {
        lemma_record_view(record);
    }
    record
}

fn map_of(entries: Vec<Entry>) -> (record: Record)
    ensures
        record@ == RecordView::Object(entry_views(entries@)),
{
    let record = Record::Object(entries);
    proof {
        lemma_record_view(record);
    }
    record
}

fn to_records(errors: &Vec<Error>, Ghost(tree): Ghost<ErrorsView>) -> (records: Vec<Record>)
    requires
        decreases_to!(tree => error_views(errors@)),
    ensures
        record_views(records@) == error_records(error_views(errors@)),
    decreases tree, 0nat,
{
    let ghost views = error_views(errors@);
    let mut records: Vec<Record> = Vec::new();
    let mut i: usize = 0;
    while i < errors.len()
        invariant
            i <= errors.len(),
            views == error_views(errors@),
            decreases_to!(tree => views),
            records.len() == i,
            forall|j: int| 0 <= j < i ==> (#[trigger] records@[j])@ == error_record(views[j]),
        decreases errors.len() - i,
    {
        proof {
            assert(views[i as int] == errors@[i as int]@);
            assert(decreases_to!(views => views[i as int]));
        }
        let record = match &errors[i] {
            Error::Violation(violation) => match &violation.message {
                Message::Function(function) => {
                    let record = Record::Call(
                        Call { function: function.clone(), params: violation.params.clone() },
                    );
                    proof {
                        lemma_record_view(record);
                    }
                    record
                },
                Message::Literal(text) => Record::Text(text.clone()),
                Message::Default => Record::Text(violation.params.to_default_message()),
            },
            Error::Nested(nested) => {
                proof {
                    assert(decreases_to!(views[i as int] => views[i as int]->Nested_0));
                }
                nested.to_record()
            },
            Error::Custom(text) => Record::Text(text.clone()),
        };
        records.push(record);
        i = i + 1;
    }
    assert(record_views(records@) =~= error_records(views));
    records
}

impl Errors {
    /// The violations as a structured record.
    pub fn to_record(&self) -> (record: Record)
        ensures
            record@ == record_of(self@),
        decreases self@, 1nat,
    {
        proof {
            lemma_errors_view(*self);
            lemma_record_of(self@);
        }
        match self {
            Errors::NewType(errors) => list_of(to_records(errors, Ghost(self@))),
            Errors::Array(array) => {
                let own = list_of(to_records(&array.errors, Ghost(self@)));
                let ghost views = item_views(array.items@);
                let mut items: Vec<Entry> = Vec::new();
                let mut i: usize = 0;
                while i < array.items.len()
                    invariant
                        i <= array.items.len(),
                        views == item_views(array.items@),
                        self@ == (ErrorsView::Array {
                            errors: error_views(array.errors@),
                            items: views,
                        }),
                        items.len() == i,
                        forall|j: int|
                            0 <= j < i ==> (#[trigger] items@[j])@ == item_entries(views)[j],
                    decreases array.items.len() - i,
                {
                    proof {
                        assert(views[i as int] == array.items@[i as int]@);
                        assert(decreases_to!(self@ => self@->Array_items));
                        assert(decreases_to!(views => views[i as int]));
                        assert(decreases_to!(views[i as int] => views[i as int].errors));
                    }
                    items.push(
                        Entry {
                            key: usize_to_string(array.items[i].index),
                            value: array.items[i].errors.to_record(),
                        },
                    );
                    i = i + 1;
                }
                assert(entry_views(items@) =~= item_entries(views));
                let mut entries: Vec<Entry> = Vec::new();
                entries.push(Entry { key: String::from_str("errors"), value: own });
                entries.push(Entry { key: String::from_str("items"), value: map_of(items) });
                assert(entry_views(entries@) =~= seq![
                    EntryView {
                        key: "errors"@,
                        value: RecordView::List(error_records(error_views(array.errors@))),
                    },
                    EntryView { key: "items"@, value: RecordView::Object(item_entries(views)) },
                ]);
                map_of(entries)
            },
            Errors::Object(object) => {
                let ghost views = field_views(object.fields@);
                let mut entries: Vec<Entry> = Vec::new();
                let mut i: usize = 0;
                while i < object.fields.len()
                    invariant
                        i <= object.fields.len(),
                        views == field_views(object.fields@),
                        self@ == (ErrorsView::Object { fields: views }),
                        entries.len() == i,
                        forall|j: int|
                            0 <= j < i ==> (#[trigger] entries@[j])@ == field_entries_of(views)[j],
                    decreases object.fields.len() - i,
                {
                    proof {
                        assert(views[i as int] == object.fields@[i as int]@);
                        assert(decreases_to!(self@ => self@->Object_fields));
                        assert(decreases_to!(views => views[i as int]));
                        assert(decreases_to!(views[i as int] => views[i as int].errors));
                    }
                    entries.push(
                        Entry {
                            key: object.fields[i].name.clone(),
                            value: object.fields[i].errors.to_record(),
                        },
                    );
                    i = i + 1;
                }
                assert(entry_views(entries@) =~= field_entries_of(views));
                map_of(entries)
            },
        }
    }
}

/// A string as JSON writes it: between double quotes, with what needs it escaped.
pub uninterp spec fn json_string(text: Seq<char>) -> Option<Seq<char>>;

/// `serde_json::to_string` of a string: the string as a JSON string, or
/// nothing where the serializer fails.
#[verifier::external_body]
fn to_json_string(text: &str) -> (json: Option<String>)
    ensures
        match json {
            Some(written) => json_string(text@) == Some(written@),
            None => json_string(text@) is None,
        },
{
    match serde_json::to_string(text) {
        Ok(json) => Some(json),
        Err(_) => None,
    }
}

/// How an entry of a map is written: the key as a JSON string, a colon, the value.
pub open spec fn entry_text(key: Seq<char>, value: Seq<char>) -> Seq<char> {
    key + ":"@ + value
}

/// The record as JSON text, without white space. There is no text for a
/// record that holds a message that the caller still owes.
pub open spec fn json_of(record: RecordView) -> Option<Seq<char>>
    decreases record, 1nat,
{
    match record {
        RecordView::Text(text) => json_string(text),
        RecordView::Call { .. } => None,
        RecordView::List(items) => if forall|i: int|
            0 <= i < items.len() ==> json_of(#[trigger] items[i]) is Some {
            Some("["@ + join(item_texts(items), ","@) + "]"@)
        } else {
            None
        },
        RecordView::Object(entries) => if forall|i: int|
            0 <= i < entries.len() ==> json_string((#[trigger] entries[i]).key) is Some && json_of(
                entries[i].value,
            ) is Some {
            Some("{"@ + join(entry_texts(entries), ","@) + "}"@)
        } else {
            None
        },
    }
}

/// The texts of the items of a list.
pub open spec fn item_texts(items: Seq<RecordView>) -> Seq<Seq<char>>
    decreases items, 0nat,
{
    Seq::new(
        items.len(),
        |i: int|
            if 0 <= i < items.len() {
                json_of(items[i])->0
            } else {
                Seq::empty()
            },
    )
}

/// The texts of the entries of a map.
pub open spec fn entry_texts(entries: Seq<EntryView>) -> Seq<Seq<char>>
    decreases entries, 0nat,
{
    Seq::new(
        entries.len(),
        |i: int|
            if 0 <= i < entries.len() {
                entry_text(json_string(entries[i].key)->0, json_of(entries[i].value)->0)
            } else {
                Seq::empty()
            },
    )
}

impl Record {
    /// The record as JSON text.
    pub fn to_json(&self) -> (json: Option<String>)
        ensures
            match json {
                Some(written) => json_of(self@) == Some(written@),
                None => json_of(self@) is None,
            },
        decreases self@,
    {
        proof {
            lemma_record_view(*self);
        }
        match self {
            Record::Text(text) => to_json_string(text.as_str()),
            Record::Call(_) => None,
            Record::List(items) => {
                let ghost views = record_views(items@);
                let mut parts: Vec<String> = Vec::new();
                let mut i: usize = 0;
                while i < items.len()
                    invariant
                        i <= items.len(),
                        views == record_views(items@),
                        self@ == RecordView::List(views),
                        parts.len() == i,
                        forall|j: int| 0 <= j < i ==> json_of(#[trigger] views[j]) is Some,
                        forall|j: int|
                            0 <= j < i ==> (#[trigger] parts@[j])@ == json_of(views[j])->0,
                    decreases items.len() - i,
                {
                    proof {
                        assert(views[i as int] == items@[i as int]@);
                        assert(decreases_to!(self@ => self@->List_0));
                        assert(decreases_to!(views => views[i as int]));
                    }
                    match items[i].to_json() {
                        Some(part) => {
                            parts.push(part);
                        },
                        None => {
                            assert(json_of(views[i as int]) is None);
                            return None;
                        },
                    }
                    i = i + 1;
                }
                let mut json = String::from_str("[");
                json.append(join_strings(&parts, ",").as_str());
                json.append("]");
                proof {
                    reveal_with_fuel(json_of, 2);
                    assert(crate::text::views(parts@) =~= item_texts(views));
                }
                Some(json)
            },
            Record::Object(entries) => {
                let ghost views = entry_views(entries@);
                let mut parts: Vec<String> = Vec::new();
                let mut i: usize = 0;
                while i < entries.len()
                    invariant
                        i <= entries.len(),
                        views == entry_views(entries@),
                        self@ == RecordView::Object(views),
                        parts.len() == i,
                        forall|j: int|
                            0 <= j < i ==> json_string((#[trigger] views[j]).key) is Some
                                && json_of(views[j].value) is Some,
                        forall|j: int|
                            0 <= j < i ==> (#[trigger] parts@[j])@ == entry_text(
                                json_string(views[j].key)->0,
                                json_of(views[j].value)->0,
                            ),
                    decreases entries.len() - i,
                {
                    proof {
                        assert(views[i as int] == entries@[i as int]@);
                        assert(decreases_to!(self@ => self@->Object_0));
                        assert(decreases_to!(views => views[i as int]));
                        assert(decreases_to!(views[i as int] => views[i as int].value));
                    }
                    let key = to_json_string(entries[i].key.as_str());
                    let value = entries[i].value.to_json();
                    match (key, value) {
                        (Some(key), Some(value)) => {
                            let mut part = key;
                            part.append(":");
                            part.append(value.as_str());
                            parts.push(part);
                        },
                        _ => {
                            assert(json_string(views[i as int].key) is None || json_of(
                                views[i as int].value,
                            ) is None);
                            return None;
                        },
                    }
                    i = i + 1;
                }
                let mut json = String::from_str("{");
                json.append(join_strings(&parts, ",").as_str());
                json.append("}");
                proof {
                    reveal_with_fuel(json_of, 2);
                    assert(crate::text::views(parts@) =~= entry_texts(views));
                }
                Some(json)
            },
        }
    }
}

impl Errors {
    /// The violations as JSON text: the text of their record.
    pub fn to_json(&self) -> (json: Option<String>)
        ensures
            match json {
                Some(written) => json_of(record_of(self@)) == Some(written@),
                None => json_of(record_of(self@)) is None,
            },
    {
        self.to_record().to_json()
    }
}

} // verus!
