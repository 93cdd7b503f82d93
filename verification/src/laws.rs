//! What holds of the mapper as a whole: laws that relate writing to reading,
//! a batch to its records, and a response to the entities behind it.

use vstd::prelude::*;
use vstd::utf8::{encode_utf8, encode_utf8_decode_utf8, encode_utf8_valid_utf8};
use crate::errors::{ErrorView, MismatchView};
use crate::field_types::{
    distinct_names, first_index, lemma_first_index, schema_names, type_of_field, FieldTypeView,
    SchemaView,
};
use crate::numbers::lemma_i64_text_round_trip;
use crate::reading::{parse_text, read_entity, read_pairs, read_value};
use crate::requests::{insert_commands, records_commands};
use crate::responses::{read_entities, record_of, records_of, response_records};
use crate::store::{flatten_many, lemma_flatten_many_fails, CollectionView};
use crate::store_values::{store_text, StoreValueView};
use crate::utils::{
    flatten, flatten_fields, record_key, FlatFieldsView, FlatRecordView, Flattened,
};
use crate::values::{
    field_names, record_data, value_of_field, with_field, FieldsView, RecordView, ValueView,
};
use crate::writing::value_text;

verus! {

/// Whether `t` is a scalar type: a text, an integer, a number with a
/// fraction, a truth value, an instant, a day, or the type of the value that
/// stands for nothing.
pub open spec fn is_scalar(t: FieldTypeView) -> bool {
    t is Str || t is Int || t is Float || t is Bool || t is Datetime || t is Date || t is Null
}

/// A value of a scalar type is read back from the text that it is written
/// as. An instant is held in UTC, so it is read back as the same instant
/// whatever offset it was first given in.
pub proof fn lemma_scalar_round_trip(t: FieldTypeView, v: ValueView)
    requires
        is_scalar(t),
        value_text(t, v) is Some,
    ensures
        parse_text(t, value_text(t, v)->0) == Ok::<ValueView, MismatchView>(v),
{
    match (t, v) {
        (FieldTypeView::Int, ValueView::Int(i)) => {
            lemma_i64_text_round_trip(i);
        },
        (FieldTypeView::Bool, ValueView::Bool(b)) => {
            assert(crate::reading::true_text().len() == 4);
            assert(crate::reading::false_text().len() == 5);
        },
        _ => {},
    }
}

/// A text is read back from the bytes that it is stored as.
pub proof fn lemma_stored_text(text: Seq<char>)
    ensures
        store_text(StoreValueView::Data(encode_utf8(text))) == Some(text),
{
    encode_utf8_valid_utf8(text);
    encode_utf8_decode_utf8(text);
}

/// A value of a scalar type is read back from the store's reply that holds
/// the text it was written as.
pub proof fn lemma_stored_scalar_round_trip(field: Seq<char>, t: FieldTypeView, v: ValueView)
    requires
        is_scalar(t),
        value_text(t, v) is Some,
    ensures
        read_value(field, t, StoreValueView::Data(encode_utf8(value_text(t, v)->0))) == Ok::<
            ValueView,
            ErrorView,
        >(v),
{
    lemma_stored_text(value_text(t, v)->0);
    lemma_scalar_round_trip(t, v);
}

/// A batch is written as a whole or not at all: if one record of it cannot
/// be written, the batch gives no hashes to write.
pub proof fn lemma_batch_all_or_nothing(collection: CollectionView, items: Seq<RecordView>, i: int)
    requires
        0 <= i < items.len(),
        flatten(
            collection.name,
            collection.meta.schema,
            record_data(items[i]),
            collection.meta.primary_key_field,
            None,
        ) is Err,
    ensures
        flatten_many(collection, items, items.len()) is Err,
{
    lemma_batch_fails_from(collection, items, i, (i + 1) as nat);
    lemma_flatten_many_fails(collection, items, (i + 1) as nat);
}

/// Flattening the first `n` records fails if the record at `i`, one of
/// them, cannot be written.
proof fn lemma_batch_fails_from(collection: CollectionView, items: Seq<RecordView>, i: int, n: nat)
    requires
        0 <= i < n <= items.len(),
        flatten(
            collection.name,
            collection.meta.schema,
            record_data(items[i]),
            collection.meta.primary_key_field,
            None,
        ) is Err,
    ensures
        flatten_many(collection, items, n) is Err,
    decreases n,
{
    if n - 1 > i {
        lemma_batch_fails_from(collection, items, i, (n - 1) as nat);
    }
}

/// What writes a batch is one transaction: it opens with `MULTI`, closes
/// with `EXEC`, and every write stands between them.
pub proof fn lemma_insert_is_one_transaction(records: Seq<FlatRecordView>, ttl: Option<u64>)
    ensures
        insert_commands(records, ttl).len() == records_commands(records, ttl, records.len()).len()
            + 2,
        insert_commands(records, ttl).first() == seq!["MULTI"@],
        insert_commands(records, ttl).last() == seq!["EXEC"@],
        insert_commands(records, ttl).subrange(1, insert_commands(records, ttl).len() - 1)
            == records_commands(records, ttl, records.len()),
{
}

/// Reading gives at most one record for each entity of a response: none is
/// made up.
pub proof fn lemma_read_entities_len(schema: SchemaView, entities: Seq<StoreValueView>, n: nat)
    requires
        n <= entities.len(),
    ensures
        read_entities(schema, entities, n) matches Ok(records) ==> records.len() <= n,
    decreases n,
{
    if n > 0 {
        lemma_read_entities_len(schema, entities, (n - 1) as nat);
    }
}

/// What is read from the first `n` entities depends on those entities only.
proof fn lemma_read_entities_prefix(
    schema: SchemaView,
    a: Seq<StoreValueView>,
    b: Seq<StoreValueView>,
    n: nat,
)
    requires
        n <= a.len(),
        n <= b.len(),
        a.take(n as int) == b.take(n as int),
    ensures
        read_entities(schema, a, n) == read_entities(schema, b, n),
    decreases n,
{
    if n > 0 {
        assert(a.take(n - 1) == a.take(n as int).take(n - 1));
        assert(b.take(n - 1) == b.take(n as int).take(n - 1));
        lemma_read_entities_prefix(schema, a, b, (n - 1) as nat);
        assert(a[n - 1] == a.take(n as int)[n - 1]);
        assert(b[n - 1] == b.take(n as int)[n - 1]);
    }
}

/// With an empty entity at `at`, the first `n + 1` entities give what the
/// first `n` give without it.
proof fn lemma_read_entities_shift(
    schema: SchemaView,
    entities: Seq<StoreValueView>,
    at: int,
    n: nat,
)
    requires
        0 <= at <= n <= entities.len(),
    ensures
        read_entities(
            schema,
            entities.insert(at, StoreValueView::Bulk(Seq::empty())),
            n + 1,
        ) == read_entities(schema, entities, n),
    decreases n,
{
    let with = entities.insert(at, StoreValueView::Bulk(Seq::empty()));
    if n == at {
        assert(with.take(at) == entities.take(at));
        lemma_read_entities_prefix(schema, with, entities, at as nat);
        assert(with[at] == StoreValueView::Bulk(Seq::empty()));
    } else {
        lemma_read_entities_shift(schema, entities, at, (n - 1) as nat);
        assert(with[n as int] == entities[n - 1]);
    }
}

/// An entity that is not there changes nothing: a response that holds an
/// empty sequence among its entities gives the records that it gives
/// without it. Reading tolerates the entity that was never inserted or has
/// expired: it is no error and leaves no placeholder.
pub proof fn lemma_absent_entity_gives_no_record(
    schema: SchemaView,
    entities: Seq<StoreValueView>,
    at: int,
)
    requires
        0 <= at <= entities.len(),
    ensures
        read_entities(
            schema,
            entities.insert(at, StoreValueView::Bulk(Seq::empty())),
            entities.len() + 1,
        ) == read_entities(schema, entities, entities.len()),
{
    lemma_read_entities_shift(schema, entities, at, entities.len());
}

/// The response to a request for two entities of which one is there and the
/// other is not gives exactly one record, that of the one that is there.
pub proof fn lemma_one_found_one_missing(
    schema: SchemaView,
    full: bool,
    found: Seq<StoreValueView>,
    fields: FieldsView,
)
    requires
        found.len() > 0,
        read_entity(schema, found) == Ok::<FieldsView, ErrorView>(fields),
    ensures
        response_records(
            schema,
            full,
            StoreValueView::Bulk(
                seq![
                    StoreValueView::Bulk(
                        seq![StoreValueView::Bulk(found), StoreValueView::Bulk(Seq::empty())],
                    ),
                ],
            ),
        ) == Ok::<Seq<RecordView>, ErrorView>(seq![record_of(full, fields)]),
        response_records(
            schema,
            full,
            StoreValueView::Bulk(
                seq![
                    StoreValueView::Bulk(
                        seq![StoreValueView::Bulk(Seq::empty()), StoreValueView::Bulk(found)],
                    ),
                ],
            ),
        ) == Ok::<Seq<RecordView>, ErrorView>(seq![record_of(full, fields)]),
{
    let one = seq![StoreValueView::Bulk(found)];
    assert(read_entities(schema, one, 0) == Ok::<Seq<FieldsView>, ErrorView>(Seq::empty()));
    assert(read_entities(schema, one, 1) == Ok::<Seq<FieldsView>, ErrorView>(
        Seq::<FieldsView>::empty().push(fields),
    ));
    lemma_absent_entity_gives_no_record(schema, one, 1);
    lemma_absent_entity_gives_no_record(schema, one, 0);
    assert(one.insert(1, StoreValueView::Bulk(Seq::empty())) == seq![
        StoreValueView::Bulk(found),
        StoreValueView::Bulk(Seq::empty()),
    ]);
    assert(one.insert(0, StoreValueView::Bulk(Seq::empty())) == seq![
        StoreValueView::Bulk(Seq::empty()),
        StoreValueView::Bulk(found),
    ]);
    assert(records_of(full, Seq::<FieldsView>::empty().push(fields)) == seq![
        record_of(full, fields),
    ]);
}

/// Whether `schema` declares scalar fields only, each name once.
pub open spec fn is_flat_schema(schema: SchemaView) -> bool {
    &&& distinct_names(schema_names(schema))
    &&& forall|i: int| 0 <= i < schema.len() ==> is_scalar(#[trigger] schema[i].1)
}

/// Whether the record `data` holds exactly the fields of the flat schema
/// `schema`, in the schema's order, each with a value of its type.
pub open spec fn fits_flat(schema: SchemaView, data: FieldsView) -> bool {
    &&& data.len() == schema.len()
    &&& forall|i: int|
        0 <= i < schema.len() ==> (#[trigger] data[i]).0 == schema[i].0 && value_text(
            schema[i].1,
            data[i].1,
        ) is Some
}

/// The fields of the record `data` of the flat schema `schema` as texts.
pub open spec fn flat_texts(schema: SchemaView, data: FieldsView) -> FlatFieldsView {
    Seq::new(schema.len(), |i: int| (schema[i].0, value_text(schema[i].1, data[i].1)->0))
}

/// What the store returns for the hash `fields`: its names and texts in
/// turn, each as a string of bytes.
pub open spec fn hash_reply(fields: FlatFieldsView) -> Seq<StoreValueView> {
    Seq::new(
        2 * fields.len(),
        |j: int|
            StoreValueView::Data(
                encode_utf8(
                    if j % 2 == 0 {
                        fields[j / 2].0
                    } else {
                        fields[j / 2].1
                    },
                ),
            ),
    )
}

/// Where no name occurs twice, a name is found at its own position.
pub proof fn lemma_found_at(names: Seq<Seq<char>>, i: int)
    requires
        distinct_names(names),
        0 <= i < names.len(),
    ensures
        first_index(names, names[i], 0) == Some(i),
{
    lemma_first_index(names, names[i], 0);
}

/// Where no name occurs twice, a name is not found before its own position.
pub proof fn lemma_not_found_before(names: Seq<Seq<char>>, i: int)
    requires
        distinct_names(names),
        0 <= i < names.len(),
    ensures
        first_index(names.take(i), names[i], 0) is None,
{
    lemma_first_index(names.take(i), names[i], 0);
}

/// The first `n` fields of a flat record flatten to their texts, and to no
/// hash of another entity.
pub proof fn lemma_flatten_flat_fields(schema: SchemaView, data: FieldsView, n: nat)
    requires
        is_flat_schema(schema),
        fits_flat(schema, data),
        n <= schema.len(),
    ensures
        flatten_fields(schema, data, n) == Ok::<Flattened, ErrorView>(
            Flattened { nested: Seq::empty(), fields: flat_texts(schema, data).take(n as int) },
        ),
    decreases n,
{
    if n > 0 {
        lemma_flatten_flat_fields(schema, data, (n - 1) as nat);
        let names = field_names(data);
        assert(names == schema_names(schema));
        lemma_found_at(names, n - 1);
        assert(value_of_field(data, schema[n - 1].0) == Some(data[n - 1].1));
        assert(flat_texts(schema, data).take(n - 1).push(flat_texts(schema, data)[n - 1])
            == flat_texts(schema, data).take(n as int));
    } else {
        assert(flat_texts(schema, data).take(0) == FlatFieldsView::empty());
    }
}

/// The first `n` pairs of the reply for the hash of a flat record give the
/// first `n` fields of the record.
pub proof fn lemma_read_flat_pairs(schema: SchemaView, data: FieldsView, n: nat)
    requires
        is_flat_schema(schema),
        fits_flat(schema, data),
        n <= schema.len(),
    ensures
        read_pairs(schema, hash_reply(flat_texts(schema, data)), n) == Ok::<FieldsView, ErrorView>(
            data.take(n as int),
        ),
    decreases n,
{
    let items = hash_reply(flat_texts(schema, data));
    if n > 0 {
        lemma_read_flat_pairs(schema, data, (n - 1) as nat);
        let name = schema[n - 1].0;
        let t = schema[n - 1].1;
        let v = data[n - 1].1;
        assert(items[2 * n - 2] == StoreValueView::Data(encode_utf8(name)));
        assert(items[2 * n - 1] == StoreValueView::Data(encode_utf8(value_text(t, v)->0)));
        lemma_stored_text(name);
        lemma_found_at(schema_names(schema), n - 1);
        assert(type_of_field(schema, name) == Some(t));
        lemma_stored_scalar_round_trip(name, t, v);
        let names = field_names(data);
        assert(names == schema_names(schema));
        lemma_not_found_before(names, n - 1);
        assert(field_names(data.take(n - 1)) == names.take(n - 1));
        assert(with_field(data.take(n - 1), name, v) == data.take(n - 1).push((name, v)));
        assert(data.take(n - 1).push((name, v)) == data.take(n as int));
    } else {
        assert(data.take(0) == FieldsView::empty());
    }
}

/// A flat record is read back from the reply for the hash that it is
/// written as: reading what was written gives the record, field for field.
pub proof fn lemma_flat_record_round_trip(
    collection: Seq<char>,
    schema: SchemaView,
    data: FieldsView,
    primary_key_field: Seq<char>,
    id: Option<Seq<char>>,
)
    requires
        is_flat_schema(schema),
        fits_flat(schema, data),
        flatten(collection, schema, data, primary_key_field, id) is Ok,
    ensures
        flatten(collection, schema, data, primary_key_field, id)->Ok_0.len() == 1,
        read_entity(
            schema,
            hash_reply(flatten(collection, schema, data, primary_key_field, id)->Ok_0.last().fields),
        ) == Ok::<FieldsView, ErrorView>(data),
{
    lemma_flatten_flat_fields(schema, data, schema.len());
    lemma_read_flat_pairs(schema, data, schema.len());
    assert(flat_texts(schema, data).take(schema.len() as int) == flat_texts(schema, data));
    assert(data.take(schema.len() as int) == data);
}

/// Whether `schema` has one level of nesting at most: each field is a
/// scalar or refers to a collection of scalar fields, and no name occurs
/// twice.
pub open spec fn is_one_level_schema(schema: SchemaView) -> bool {
    &&& distinct_names(schema_names(schema))
    &&& forall|i: int|
        0 <= i < schema.len() ==> is_scalar(#[trigger] schema[i].1) || (
        schema[i].1 matches FieldTypeView::Nested { schema: inner, .. } && is_flat_schema(inner))
}

/// Whether the record `data` holds exactly the fields of `schema`, in the
/// schema's order: under a scalar field a value of its type that has a
/// text, under a reference an entity that fits the schema referred to.
pub open spec fn fits(schema: SchemaView, data: FieldsView) -> bool {
    &&& data.len() == schema.len()
    &&& forall|i: int|
        0 <= i < schema.len() ==> (#[trigger] data[i]).0 == schema[i].0 && match schema[i].1 {
            FieldTypeView::Nested { schema: inner, .. } => data[i].1 matches ValueView::Nested(
                fields,
            ) && fits_flat(inner, fields),
            t => value_text(t, data[i].1) is Some,
        }
}

/// The hash that the entity `v` under a field of the type `t` is written as.
pub open spec fn nested_hash(t: FieldTypeView, v: ValueView) -> FlatRecordView
    recommends
        t is Nested,
        v is Nested,
{
    FlatRecordView {
        collection: t->model_name,
        key: record_key(t->model_name, v->Nested_0, t->primary_key_field, None)->Ok_0,
        fields: flat_texts(t->schema, v->Nested_0),
    }
}

/// The fields of the record `data` as texts: the key of the entity under a
/// reference, the text of the value under any other field.
pub open spec fn parent_texts(schema: SchemaView, data: FieldsView) -> FlatFieldsView {
    Seq::new(
        schema.len(),
        |i: int|
            (
                schema[i].0,
                if schema[i].1 is Nested {
                    nested_hash(schema[i].1, data[i].1).key
                } else {
                    value_text(schema[i].1, data[i].1)->0
                },
            ),
    )
}

/// The hashes of the entities under the first `n` fields of `data`.
pub open spec fn nested_hashes(schema: SchemaView, data: FieldsView, n: nat) -> Seq<FlatRecordView>
    decreases n,
{
    if n == 0 || n > schema.len() {
        Seq::empty()
    } else if schema[n - 1].1 is Nested {
        nested_hashes(schema, data, (n - 1) as nat).push(
            nested_hash(schema[n - 1].1, data[n - 1].1),
        )
    } else {
        nested_hashes(schema, data, (n - 1) as nat)
    }
}

/// The keys of the hashes `hashes`, in order.
pub open spec fn keys_of(hashes: Seq<FlatRecordView>) -> Seq<Seq<char>> {
    Seq::new(hashes.len(), |i: int| hashes[i].key)
}

/// The fields of the hash that `hashes` holds under `key`.
pub open spec fn hash_under(hashes: Seq<FlatRecordView>, key: Seq<char>) -> Option<FlatFieldsView> {
    match first_index(keys_of(hashes), key, 0) {
        Some(i) => Some(hashes[i].fields),
        None => None,
    }
}

/// What the script that reads every field returns for the hash `fields` of
/// a store that holds `hashes`: the names and texts of the hash in turn,
/// where under each name that `schema` declares as a reference the reply for
/// the hash under that key stands in the place of the key.
pub open spec fn expanded_reply(
    schema: SchemaView,
    fields: FlatFieldsView,
    hashes: Seq<FlatRecordView>,
) -> Seq<StoreValueView> {
    Seq::new(
        2 * fields.len(),
        |j: int|
            if j % 2 == 0 {
                StoreValueView::Data(encode_utf8(fields[j / 2].0))
            } else if type_of_field(schema, fields[j / 2].0) matches Some(
                FieldTypeView::Nested { .. },
            ) {
                StoreValueView::Bulk(
                    match hash_under(hashes, fields[j / 2].1) {
                        Some(found) => hash_reply(found),
                        None => Seq::empty(),
                    },
                )
            } else {
                StoreValueView::Data(encode_utf8(fields[j / 2].1))
            },
    )
}

/// The first `n` fields of a record with one level of nesting flatten to
/// their texts and to the hashes of the entities among them.
pub proof fn lemma_flatten_nested_fields(schema: SchemaView, data: FieldsView, n: nat)
    requires
        is_one_level_schema(schema),
        fits(schema, data),
        n <= schema.len(),
        flatten_fields(schema, data, n) is Ok,
    ensures
        flatten_fields(schema, data, n) == Ok::<Flattened, ErrorView>(
            Flattened {
                nested: nested_hashes(schema, data, n),
                fields: parent_texts(schema, data).take(n as int),
            },
        ),
        forall|i: int|
            0 <= i < n && (#[trigger] schema[i].1) is Nested ==> flatten(
                schema[i].1->model_name,
                schema[i].1->schema,
                data[i].1->Nested_0,
                schema[i].1->primary_key_field,
                None,
            ) is Ok,
    decreases n,
{
    if n > 0 {
        lemma_flatten_nested_fields(schema, data, (n - 1) as nat);
        let names = field_names(data);
        assert(names == schema_names(schema));
        lemma_found_at(names, n - 1);
        let t = schema[n - 1].1;
        let v = data[n - 1].1;
        assert(data[n - 1].0 == schema[n - 1].0);
        assert(value_of_field(data, schema[n - 1].0) == Some(v));
        let texts = parent_texts(schema, data);
        assert(texts.take(n - 1).push(texts[n - 1]) == texts.take(n as int));
        match t {
            FieldTypeView::Nested { model_name, schema: inner, primary_key_field } => {
                let fields = v->Nested_0;
                assert(flatten(model_name, inner, fields, primary_key_field, None) is Ok);
                lemma_flatten_flat_fields(inner, fields, inner.len());
                assert(flat_texts(inner, fields).take(inner.len() as int) == flat_texts(
                    inner,
                    fields,
                ));
                let records = flatten(model_name, inner, fields, primary_key_field, None)->Ok_0;
                assert(records == Seq::<FlatRecordView>::empty().push(nested_hash(t, v)));
                assert(nested_hashes(schema, data, (n - 1) as nat) + records == nested_hashes(
                    schema,
                    data,
                    n,
                ));
            },
            _ => {},
        }
    } else {
        assert(parent_texts(schema, data).take(0) == FlatFieldsView::empty());
    }
}

/// The hashes of the entities under the first fields of a record stay in
/// place as more fields are flattened.
pub proof fn lemma_nested_hashes_grow(schema: SchemaView, data: FieldsView, i: nat, n: nat)
    requires
        i <= n <= schema.len(),
    ensures
        nested_hashes(schema, data, i).len() <= nested_hashes(schema, data, n).len(),
        nested_hashes(schema, data, n).take(nested_hashes(schema, data, i).len() as int)
            == nested_hashes(schema, data, i),
    decreases n - i,
{
    if i < n {
        lemma_nested_hashes_grow(schema, data, i, (n - 1) as nat);
        let shorter = nested_hashes(schema, data, (n - 1) as nat);
        let longer = nested_hashes(schema, data, n);
        let k = nested_hashes(schema, data, i).len() as int;
        assert(longer.take(k) == shorter.take(k));
    } else {
        let all = nested_hashes(schema, data, n);
        assert(all.take(all.len() as int) == all);
    }
}

/// The first `n` pairs of the reply for the hash of a record with one level
/// of nesting, with the referred hashes in the place of their keys, give the
/// first `n` fields of the record.
pub proof fn lemma_read_nested_pairs(
    schema: SchemaView,
    data: FieldsView,
    hashes: Seq<FlatRecordView>,
    n: nat,
)
    requires
        is_one_level_schema(schema),
        fits(schema, data),
        n <= schema.len(),
        flatten_fields(schema, data, schema.len()) is Ok,
        distinct_names(keys_of(hashes)),
        nested_hashes(schema, data, schema.len()).len() <= hashes.len(),
        hashes.take(nested_hashes(schema, data, schema.len()).len() as int) == nested_hashes(
            schema,
            data,
            schema.len(),
        ),
    ensures
        read_pairs(schema, expanded_reply(schema, parent_texts(schema, data), hashes), n) == Ok::<
            FieldsView,
            ErrorView,
        >(data.take(n as int)),
    decreases n,
{
    let texts = parent_texts(schema, data);
    let items = expanded_reply(schema, texts, hashes);
    if n > 0 {
        lemma_read_nested_pairs(schema, data, hashes, (n - 1) as nat);
        let name = schema[n - 1].0;
        let t = schema[n - 1].1;
        let v = data[n - 1].1;
        assert(texts[n - 1].0 == name);
        assert(items[2 * n - 2] == StoreValueView::Data(encode_utf8(name)));
        lemma_stored_text(name);
        lemma_found_at(schema_names(schema), n - 1);
        assert(type_of_field(schema, name) == Some(t));
        match t {
            FieldTypeView::Nested { model_name, schema: inner, primary_key_field } => {
                let fields = v->Nested_0;
                let hash = nested_hash(t, v);
                let all = nested_hashes(schema, data, schema.len());
                lemma_flatten_nested_fields(schema, data, schema.len());
                lemma_nested_hashes_grow(schema, data, n, schema.len());
                let at = nested_hashes(schema, data, n).len() - 1;
                assert(nested_hashes(schema, data, n)[at] == hash);
                assert(all.take(nested_hashes(schema, data, n).len() as int)[at] == all[at]);
                assert(hashes.take(all.len() as int)[at] == hashes[at]);
                assert(hashes[at] == hash);
                assert(keys_of(hashes)[at] == hash.key);
                lemma_found_at(keys_of(hashes), at);
                assert(hash_under(hashes, hash.key) == Some(hash.fields));
                assert(texts[n - 1].1 == hash.key);
                assert(items[2 * n - 1] == StoreValueView::Bulk(hash_reply(hash.fields)));
                assert(flatten(model_name, inner, fields, primary_key_field, None) is Ok);
                lemma_first_index(field_names(fields), primary_key_field, 0);
                assert(fields.len() > 0);
                lemma_flat_record_round_trip(model_name, inner, fields, primary_key_field, None);
                lemma_flatten_flat_fields(inner, fields, inner.len());
                assert(flat_texts(inner, fields).take(inner.len() as int) == flat_texts(
                    inner,
                    fields,
                ));
                assert(hash_reply(hash.fields).len() > 0);
                assert(read_value(name, t, items[2 * n - 1]) == Ok::<ValueView, ErrorView>(v));
            },
            _ => {
                assert(items[2 * n - 1] == StoreValueView::Data(
                    encode_utf8(value_text(t, v)->0),
                ));
                lemma_stored_scalar_round_trip(name, t, v);
            },
        }
        let names = field_names(data);
        assert(names == schema_names(schema));
        lemma_not_found_before(names, n - 1);
        assert(field_names(data.take(n - 1)) == names.take(n - 1));
        assert(data[n - 1] == (name, v));
        assert(with_field(data.take(n - 1), name, v) == data.take(n - 1).push((name, v)));
        assert(data.take(n - 1).push((name, v)) == data.take(n as int));
    } else {
        assert(data.take(0) == FieldsView::empty());
    }
}

/// Reading what was written gives the record back, field for field: a
/// record with one level of nesting that holds exactly the fields of its
/// schema is read, by that schema, from what the store returns for its hash
/// once the hashes that flattening gave are stored, each under a key of its
/// own.
pub proof fn lemma_flatten_unflatten(
    collection: Seq<char>,
    schema: SchemaView,
    data: FieldsView,
    primary_key_field: Seq<char>,
    id: Option<Seq<char>>,
)
    requires
        is_one_level_schema(schema),
        fits(schema, data),
        flatten(collection, schema, data, primary_key_field, id) is Ok,
        distinct_names(keys_of(flatten(collection, schema, data, primary_key_field, id)->Ok_0)),
    ensures
        ({
            let hashes = flatten(collection, schema, data, primary_key_field, id)->Ok_0;
            read_entity(schema, expanded_reply(schema, hashes.last().fields, hashes)) == Ok::<
                FieldsView,
                ErrorView,
            >(data)
        }),
{
    let hashes = flatten(collection, schema, data, primary_key_field, id)->Ok_0;
    lemma_flatten_nested_fields(schema, data, schema.len());
    let texts = parent_texts(schema, data);
    assert(texts.take(schema.len() as int) == texts);
    let nested = nested_hashes(schema, data, schema.len());
    assert(hashes.last().fields == texts);
    assert(hashes.take(nested.len() as int) == nested);
    lemma_read_nested_pairs(schema, data, hashes, schema.len());
    assert(data.take(schema.len() as int) == data);
}

} // verus!
