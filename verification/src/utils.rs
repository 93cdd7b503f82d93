//! Flattening: from a record, which may hold entities of other collections,
//! to the hashes that are written to the store, each under its key.

use vstd::prelude::*;
use crate::errors::{Error, ErrorView, TypeTag};
use crate::field_types::{tag_of, FieldType, FieldTypeView, Schema, SchemaView};
use crate::keys::{generate_hash_key, hash_key};
use crate::numbers::i64_text;
use crate::parsers::{date_to_text, datetime_to_text};
use crate::reading::no_text_error;
use crate::values::{
    fields_view, find_field, record_data, value_of_field, FieldsView, Record, Value, ValueView,
};
use crate::writing::{plain_text, value_text};

verus! {

broadcast use vstd::std_specs::vec::axiom_vec_index_decreases;

/// One hash as it is written to the store: the collection it belongs to, its
/// key, and its fields as texts.
#[derive(Debug, Clone, PartialEq, Eq)]
pub struct FlatRecord {
    pub collection: String,
    pub key: String,
    pub fields: Vec<(String, String)>,
}

/// Names and texts, in order.
pub type FlatFieldsView = Seq<(Seq<char>, Seq<char>)>;

/// The mathematical content of a `FlatRecord`.
pub ghost struct FlatRecordView {
    pub collection: Seq<char>,
    pub key: Seq<char>,
    pub fields: FlatFieldsView,
}

impl View for FlatRecord {
    type V = FlatRecordView;

    open spec fn view(&self) -> FlatRecordView {
        FlatRecordView {
            collection: self.collection@,
            key: self.key@,
            fields: self.fields.deep_view(),
        }
    }
}

/// The mathematical content of the flat records `records`.
pub open spec fn flat_records_view(records: Seq<FlatRecord>) -> Seq<FlatRecordView> {
    Seq::new(records.len(), |i: int| records[i]@)
}

/// What the fields of a record have given so far: the hashes of the entities
/// it holds, and its own fields as texts.
pub ghost struct Flattened {
    pub nested: Seq<FlatRecordView>,
    pub fields: FlatFieldsView,
}

/// The key under which a record of `collection` is written: made from `id`
/// where one is given, else from the text of the value that the record holds
/// in its primary-key field.
pub open spec fn record_key(
    collection: Seq<char>,
    data: FieldsView,
    primary_key_field: Seq<char>,
    id: Option<Seq<char>>,
) -> Result<Seq<char>, ErrorView> {
    match id {
        Some(id) => Ok(hash_key(collection, id)),
        None => match value_of_field(data, primary_key_field) {
            None => Err(ErrorView::MissingKey { field: primary_key_field }),
            Some(v) => match plain_text(v) {
                Some(text) => Ok(hash_key(collection, text)),
                None => Err(no_text_error(primary_key_field, TypeTag::Str)),
            },
        },
    }
}

/// What the first `n` fields of `schema` give for the record `data`.
///
/// A field that the record does not hold gives nothing. A field that refers
/// to another collection gives, for an entity, the hashes of that entity,
/// flattened by its own schema, and in the record's own fields the key of
/// that entity; for the value that stands for nothing it gives nothing; any
/// other value is a type mismatch. Every other field gives its text. The
/// first failure ends the work.
pub open spec fn flatten_fields(schema: SchemaView, data: FieldsView, n: nat) -> Result<
    Flattened,
    ErrorView,
>
    decreases schema, n,
{
    if n == 0 || n > schema.len() {
        Ok(Flattened { nested: Seq::empty(), fields: Seq::empty() })
    } else {
        match flatten_fields(schema, data, (n - 1) as nat) {
            Err(e) => Err(e),
            Ok(done) => {
                let name = schema[n - 1].0;
                let t = schema[n - 1].1;
                match value_of_field(data, name) {
                    None => Ok(done),
                    Some(v) => match t {
                        FieldTypeView::Nested { model_name, schema: inner, primary_key_field } => {
                            match v {
                                ValueView::Nested(fields) => match flatten(
                                    model_name,
                                    inner,
                                    fields,
                                    primary_key_field,
                                    None,
                                ) {
                                    Err(e) => Err(e),
                                    Ok(records) => Ok(
                                        Flattened {
                                            nested: done.nested + records,
                                            fields: done.fields.push((name, records.last().key)),
                                        },
                                    ),
                                },
                                ValueView::Null => Ok(done),
                                _ => Err(no_text_error(name, TypeTag::Nested)),
                            }
                        },
                        _ => match value_text(t, v) {
                            Some(text) => Ok(
                                Flattened {
                                    nested: done.nested,
                                    fields: done.fields.push((name, text)),
                                },
                            ),
                            None => Err(no_text_error(name, tag_of(t))),
                        },
                    },
                }
            },
        }
    }
}

/// The hashes that the record `data` of `collection` is written as: those of
/// the entities it holds, in the order of the schema's fields, and its own
/// hash last.
pub open spec fn flatten(
    collection: Seq<char>,
    schema: SchemaView,
    data: FieldsView,
    primary_key_field: Seq<char>,
    id: Option<Seq<char>>,
) -> Result<Seq<FlatRecordView>, ErrorView>
    decreases schema, schema.len() + 1,
{
    match flatten_fields(schema, data, schema.len()) {
        Err(e) => Err(e),
        Ok(done) => match record_key(collection, data, primary_key_field, id) {
            Err(e) => Err(e),
            Ok(key) => Ok(done.nested.push(FlatRecordView { collection, key, fields: done.fields })),
        },
    }
}

/// Once a field fails to be flattened, flattening more fields fails in the
/// same way.
pub proof fn lemma_flatten_fields_fails(schema: SchemaView, data: FieldsView, k: nat)
    requires
        k <= schema.len(),
        flatten_fields(schema, data, k) is Err,
    ensures
        flatten_fields(schema, data, schema.len()) == flatten_fields(schema, data, k),
    decreases schema.len() - k,
{
    if k < schema.len() {
        assert(flatten_fields(schema, data, k + 1) == flatten_fields(schema, data, k));
        lemma_flatten_fields_fails(schema, data, k + 1);
    }
}

/// What flattening gives is never empty: the record's own hash is its last.
pub proof fn lemma_flatten_not_empty(
    collection: Seq<char>,
    schema: SchemaView,
    data: FieldsView,
    primary_key_field: Seq<char>,
    id: Option<Seq<char>>,
)
    ensures
        flatten(collection, schema, data, primary_key_field, id) matches Ok(records)
            ==> records.len() > 0 && records.last().collection == collection
            && Ok::<Seq<char>, ErrorView>(records.last().key) == record_key(
            collection,
            data,
            primary_key_field,
            id,
        ),
{
}

/// The mathematical content of the outcome of flattening.
pub open spec fn flat_result(r: Result<Vec<FlatRecord>, Error>) -> Result<
    Seq<FlatRecordView>,
    ErrorView,
> {
    match r {
        Ok(records) => Ok(flat_records_view(records@)),
        Err(e) => Err(e@),
    }
}

/// The text of a value by its own kind, for a value that is not made of
/// others.
pub fn value_plain_text(v: &Value) -> (r: Option<String>)
    ensures
        match r {
            Some(text) => plain_text(v@) == Some(text@),
            None => plain_text(v@) is None,
        },
{
    match v {
        Value::Str(s) => Some(s.clone()),
        Value::Int(i) => Some(i64_text(*i)),
        Value::Float(_) => FieldType::Float.to_text(v),
        Value::Bool(_) => FieldType::Bool.to_text(v),
        Value::Datetime(timestamp) => datetime_to_text(*timestamp),
        Value::Date(timestamp) => date_to_text(*timestamp),
        _ => None,
    }
}

/// The key under which a record of `collection_name` is written.
pub fn key_of_record(
    collection_name: &str,
    data: &Vec<(String, Value)>,
    primary_key_field: &str,
    id: Option<&str>,
) -> (r: Result<String, Error>)
    ensures
        match r {
            Ok(key) => record_key(collection_name@, fields_view(*data), primary_key_field@, match id {
                Some(id) => Some(id@),
                None => None,
            }) == Ok::<Seq<char>, ErrorView>(key@),
            Err(e) => record_key(collection_name@, fields_view(*data), primary_key_field@, match id {
                Some(id) => Some(id@),
                None => None,
            }) == Err::<Seq<char>, ErrorView>(e@),
        },
{
    match id {
        Some(id) => Ok(generate_hash_key(collection_name, id)),
        None => match find_field(data, primary_key_field) {
            None => Err(Error::MissingKey { field: primary_key_field.to_owned() }),
            Some(i) => {
                assert(fields_view(*data)[i as int].1 == data[i as int].1@);
                match value_plain_text(&data[i].1) {
                    Some(text) => Ok(generate_hash_key(collection_name, text.as_str())),
                    None => Err(
                        Error::TypeMismatch {
                            field: primary_key_field.to_owned(),
                            value: None,
                            expected: TypeTag::Str,
                        },
                    ),
                }
            },
        },
    }
}

impl Record {
    /// The key under which this record of `model_name` is written, made from
    /// the value of its primary-key field.
    pub fn generate_primary_key(&self, model_name: &str, primary_key_field: &str) -> (r: Result<
        String,
        Error,
    >)
        ensures
            match r {
                Ok(key) => record_key(model_name@, record_data(self@), primary_key_field@, None)
                    == Ok::<Seq<char>, ErrorView>(key@),
                Err(e) => record_key(model_name@, record_data(self@), primary_key_field@, None)
                    == Err::<Seq<char>, ErrorView>(e@),
            },
    {
        key_of_record(model_name, self.extract_data(), primary_key_field, None)
    }
}

/// Prepares a record for inserting: flattens the record `data` of the
/// collection `collection_name` into the hashes to write, those of the
/// entities it holds first and its own last. The record's key is made from
/// `id` where one is given, else from its primary-key field.
#[verifier::loop_isolation(false)]
#[verifier::rlimit(50)]
pub fn prepare_record_to_insert(
    collection_name: &str,
    schema: &Schema,
    data: &Vec<(String, Value)>,
    primary_key_field: &str,
    id: Option<&str>,
) -> (r: Result<Vec<FlatRecord>, Error>)
    ensures
        flat_result(r) == flatten(
            collection_name@,
            schema@,
            fields_view(*data),
            primary_key_field@,
            match id {
                Some(id) => Some(id@),
                None => None,
            },
        ),
    decreases schema,
{
    let ghost fields = fields_view(*data);
    let mut results: Vec<FlatRecord> = Vec::new();
    let mut parent_record: Vec<(String, String)> = Vec::new();
    assert(flat_records_view(results@) == Seq::<FlatRecordView>::empty());
    assert(parent_record.deep_view() == FlatFieldsView::empty());
    let mut i: usize = 0;
    while i < schema.mapping.len()
        invariant
            i <= schema.mapping.len(),
            flatten_fields(schema@, fields, i as nat) == Ok::<Flattened, ErrorView>(
                Flattened {
                    nested: flat_records_view(results@),
                    fields: parent_record.deep_view(),
                },
            ),
        decreases schema.mapping.len() - i,
    {
        let field = &schema.mapping[i].0;
        let type_ = &schema.mapping[i].1;
        assert(schema@[i as int] == (field@, type_@));
        let ghost done_nested = flat_records_view(results@);
        let ghost done_fields = parent_record.deep_view();
        if let Some(at) = find_field(data, field.as_str()) {
            let v = &data[at].1;
            assert(fields[at as int].1 == v@);
            match type_ {
                FieldType::Nested {
                    model_name,
                    primary_key_field: nested_pk_field,
                    schema: nested_schema,
                } => {
                    match v {
                        Value::Nested(nested) => {
                            match prepare_record_to_insert(
                                model_name.as_str(),
                                nested_schema,
                                nested,
                                nested_pk_field.as_str(),
                                None,
                            ) {
                                Ok(mut records) => {
                                    proof {
                                        lemma_flatten_not_empty(
                                            model_name@,
                                            nested_schema@,
                                            fields_view(*nested),
                                            nested_pk_field@,
                                            None,
                                        );
                                    }
                                    let ghost added = flat_records_view(records@);
                                    let key = records[records.len() - 1].key.clone();
                                    assert(key@ == added.last().key);
                                    parent_record.push((field.clone(), key));
                                    results.append(&mut records);
                                    assert(parent_record.deep_view() == done_fields.push(
                                        (field@, key@),
                                    ));
                                    assert(flat_records_view(results@) == done_nested + added);
                                },
                                Err(e) => {
                                    proof {
                                        assert(flatten_fields(schema@, fields, (i + 1) as nat)
                                            == Err::<Flattened, ErrorView>(e@));
                                        lemma_flatten_fields_fails(schema@, fields, (i + 1) as nat);
                                    }
                                    return Err(e);
                                },
                            }
                        },
                        Value::Null => {},
                        _ => {
                            let e = Error::TypeMismatch {
                                field: field.clone(),
                                value: None,
                                expected: TypeTag::Nested,
                            };
                            proof {
                                assert(flatten_fields(schema@, fields, (i + 1) as nat) == Err::<
                                    Flattened,
                                    ErrorView,
                                >(e@));
                                lemma_flatten_fields_fails(schema@, fields, (i + 1) as nat);
                            }
                            return Err(e);
                        },
                    }
                },
                _ => {
                    match type_.to_text(v) {
                        Some(text) => {
                            parent_record.push((field.clone(), text));
                            assert(parent_record.deep_view() == done_fields.push((field@, text@)));
                        },
                        None => {
                            let e = Error::TypeMismatch {
                                field: field.clone(),
                                value: None,
                                expected: type_.tag(),
                            };
                            proof {
                                assert(flatten_fields(schema@, fields, (i + 1) as nat) == Err::<
                                    Flattened,
                                    ErrorView,
                                >(e@));
                                lemma_flatten_fields_fails(schema@, fields, (i + 1) as nat);
                            }
                            return Err(e);
                        },
                    }
                },
            }
        }
        i += 1;
    }
    let primary_key = match key_of_record(collection_name, data, primary_key_field, id) {
        Ok(key) => key,
        Err(e) => {
            return Err(e);
        },
    };
    let ghost done_nested = flat_records_view(results@);
    let record = FlatRecord {
        collection: collection_name.to_owned(),
        key: primary_key,
        fields: parent_record,
    };
    results.push(record);
    assert(flat_records_view(results@) == done_nested.push(record@));
    Ok(results)
}

} // verus!
