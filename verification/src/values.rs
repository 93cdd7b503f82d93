//! Typed values and records: what a caller hands in to be stored and gets
//! back when it reads.

use vstd::prelude::*;
use crate::field_types::{distinct_names, first_index};
use crate::numbers::is_float_text;
use crate::text::same_text;

verus! {

broadcast use vstd::std_specs::vec::axiom_vec_index_decreases;

/// The value of one field.
#[derive(Debug, PartialEq, Eq)]
pub enum Value {
    /// The one value that stands for nothing.
    Null,
    Str(String),
    Int(i64),
    /// A number with a fraction, as the text that denotes it.
    Float(String),
    Bool(bool),
    /// An instant, in seconds since the start of 1970, UTC.
    Datetime(i64),
    /// A day, as the instant at which it starts, in seconds since the start
    /// of 1970, UTC.
    Date(i64),
    List(Vec<Value>),
    Tuple(Vec<Value>),
    /// Entries by key, in order; no key occurs twice.
    Dict(Vec<(String, Value)>),
    /// An entity of another collection, as its fields by name.
    Nested(Vec<(String, Value)>),
}

/// The mathematical content of a `Value`.
pub ghost enum ValueView {
    Null,
    Str(Seq<char>),
    Int(i64),
    Float(Seq<char>),
    Bool(bool),
    Datetime(i64),
    Date(i64),
    List(Seq<ValueView>),
    Tuple(Seq<ValueView>),
    Dict(FieldsView),
    Nested(FieldsView),
}

/// Values by name, in order.
pub type FieldsView = Seq<(Seq<char>, ValueView)>;

/// The mathematical content of the value `v`.
pub open spec fn value_view(v: Value) -> ValueView
    decreases v,
{
    match v {
        Value::Null => ValueView::Null,
        Value::Str(s) => ValueView::Str(s@),
        Value::Int(i) => ValueView::Int(i),
        Value::Float(s) => ValueView::Float(s@),
        Value::Bool(b) => ValueView::Bool(b),
        Value::Datetime(t) => ValueView::Datetime(t),
        Value::Date(t) => ValueView::Date(t),
        Value::List(items) => ValueView::List(values_view(items)),
        Value::Tuple(items) => ValueView::Tuple(values_view(items)),
        Value::Dict(entries) => ValueView::Dict(fields_view(entries)),
        Value::Nested(fields) => ValueView::Nested(fields_view(fields)),
    }
}

/// The mathematical content of the values `items`.
pub open spec fn values_view(items: Vec<Value>) -> Seq<ValueView>
    decreases items,
{
    Seq::new(
        items.len() as nat,
        |i: int|
            if 0 <= i < items.len() {
                value_view(items[i])
            } else {
                ValueView::Null
            },
    )
}

/// The mathematical content of the named values `fields`.
pub open spec fn fields_view(fields: Vec<(String, Value)>) -> FieldsView
    decreases fields,
{
    Seq::new(
        fields.len() as nat,
        |i: int|
            if 0 <= i < fields.len() {
                (fields[i].0@, value_view(fields[i].1))
            } else {
                (Seq::empty(), ValueView::Null)
            },
    )
}

impl View for Value {
    type V = ValueView;

    open spec fn view(&self) -> ValueView {
        value_view(*self)
    }
}

/// The names of `fields`, in order.
pub open spec fn field_names(fields: FieldsView) -> Seq<Seq<char>> {
    Seq::new(fields.len(), |i: int| fields[i].0)
}

/// The value that `fields` holds under `name`: that of the first entry of
/// that name.
pub open spec fn value_of_field(fields: FieldsView, name: Seq<char>) -> Option<ValueView> {
    match first_index(field_names(fields), name, 0) {
        Some(i) => Some(fields[i].1),
        None => None,
    }
}

/// `fields` with `value` under `name`: in the place of the first entry of
/// that name if there is one, at the end if there is none.
pub open spec fn with_field(fields: FieldsView, name: Seq<char>, value: ValueView) -> FieldsView {
    match first_index(field_names(fields), name, 0) {
        Some(i) => fields.update(i, (name, value)),
        None => fields.push((name, value)),
    }
}

/// Whether the value `v` is well formed: a number with a fraction is
/// written as one, and no key occurs twice in a dictionary and no name twice
/// in an entity, at any depth.
pub open spec fn value_wf(v: ValueView) -> bool
    decreases v,
{
    match v {
        ValueView::Float(text) => is_float_text(text),
        ValueView::List(items) => forall|i: int|
            0 <= i < items.len() ==> value_wf(#[trigger] items[i]),
        ValueView::Tuple(items) => forall|i: int|
            0 <= i < items.len() ==> value_wf(#[trigger] items[i]),
        ValueView::Dict(entries) => fields_wf(entries),
        ValueView::Nested(fields) => fields_wf(fields),
        _ => true,
    }
}

/// Whether the named values `fields` are well formed: no name occurs twice,
/// and each value is well formed.
pub open spec fn fields_wf(fields: FieldsView) -> bool
    decreases fields,
{
    &&& distinct_names(field_names(fields))
    &&& forall|i: int| 0 <= i < fields.len() ==> value_wf((#[trigger] fields[i]).1)
}

/// Putting a well-formed value under a name keeps named values well formed.
pub proof fn lemma_with_field_wf(fields: FieldsView, name: Seq<char>, value: ValueView)
    requires
        fields_wf(fields),
        value_wf(value),
    ensures
        fields_wf(with_field(fields, name, value)),
{
    let names = field_names(fields);
    crate::field_types::lemma_first_index(names, name, 0);
    let after = with_field(fields, name, value);
    match first_index(names, name, 0) {
        Some(i) => {
            assert(field_names(after) == names);
            assert forall|j: int| 0 <= j < after.len() implies value_wf((#[trigger] after[j]).1) by {
                if j != i {
                    assert(after[j] == fields[j]);
                }
            }
        },
        None => {
            assert(field_names(after) == names.push(name));
            assert forall|j: int| 0 <= j < after.len() implies value_wf((#[trigger] after[j]).1) by {
                if j < fields.len() {
                    assert(after[j] == fields[j]);
                }
            }
        },
    }
}

/// The position of the first entry of `fields` under `name`.
pub fn find_field(fields: &Vec<(String, Value)>, name: &str) -> (found: Option<usize>)
    ensures
        match found {
            Some(i) => first_index(field_names(fields_view(*fields)), name@, 0) == Some(i as int)
                && i < fields.len(),
            None => first_index(field_names(fields_view(*fields)), name@, 0) is None,
        },
{
    let mut i: usize = 0;
    while i < fields.len()
        invariant
            i <= fields.len(),
            first_index(field_names(fields_view(*fields)), name@, 0) == first_index(
                field_names(fields_view(*fields)),
                name@,
                i as int,
            ),
        decreases fields.len() - i,
    {
        if same_text(fields[i].0.as_str(), name) {
            return Some(i);
        }
        i += 1;
    }
    None
}

/// Puts `value` under `name` into `fields`, in the place of the entry of
/// that name if there is one.
pub fn put_field(fields: &mut Vec<(String, Value)>, name: String, value: Value)
    ensures
        fields_view(*final(fields)) == with_field(fields_view(*old(fields)), name@, value@),
{
    match find_field(fields, name.as_str()) {
        Some(i) => {
            fields.set(i, (name, value));
        },
        None => {
            fields.push((name, value));
        },
    }
}

/// A record: the fields of one entity by name.
#[derive(Debug, PartialEq, Eq)]
pub enum Record {
    /// A record that is meant to hold every field of its schema.
    Full { data: Vec<(String, Value)> },
    /// A record that holds some of the fields: an update or a projection.
    Partial { data: Vec<(String, Value)> },
}

/// The mathematical content of a `Record`.
pub ghost enum RecordView {
    Full { data: FieldsView },
    Partial { data: FieldsView },
}

impl View for Record {
    type V = RecordView;

    open spec fn view(&self) -> RecordView {
        match self {
            Record::Full { data } => RecordView::Full { data: fields_view(*data) },
            Record::Partial { data } => RecordView::Partial { data: fields_view(*data) },
        }
    }
}

/// The fields that the record `r` holds.
pub open spec fn record_data(r: RecordView) -> FieldsView {
    match r {
        RecordView::Full { data } => data,
        RecordView::Partial { data } => data,
    }
}

impl Record {
    /// The fields that the record holds.
    pub fn extract_data(&self) -> (data: &Vec<(String, Value)>)
        ensures
            fields_view(*data) == record_data(self@),
    {
        match self {
            Record::Full { data } => data,
            Record::Partial { data } => data,
        }
    }
}

} // verus!
