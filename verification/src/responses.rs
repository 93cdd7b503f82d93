//! Reading what a script call returned: the entities of a response, each as
//! its fields by name.

use vstd::prelude::*;
use crate::collections::CollectionMeta;
use crate::errors::{Error, ErrorView};
use crate::field_types::SchemaView;
use crate::reading::{lemma_read_entity_wf, read_entity, read_fields};
use crate::store_values::{store_sequence, StoreValue, StoreValueView};
use crate::values::{fields_view, fields_wf, record_data, FieldsView, Record, RecordView};

verus! {

broadcast use vstd::std_specs::vec::axiom_vec_index_decreases;

/// The entities that the response `result` of a pipeline with one script
/// call holds: the sequence that is the first item of the sequence `result`.
pub open spec fn response_entities(result: StoreValueView) -> Option<Seq<StoreValueView>> {
    match store_sequence(result) {
        None => None,
        Some(replies) => if replies.len() == 0 {
            None
        } else {
            store_sequence(replies[0])
        },
    }
}

/// The records that the first `n` of `entities` give, in order. An empty
/// sequence gives no record: the hash was not there. Any other sequence
/// gives the record that its names and replies denote. An entity that is no
/// sequence makes the response malformed. The first failure ends the work.
pub open spec fn read_entities(schema: SchemaView, entities: Seq<StoreValueView>, n: nat) -> Result<
    Seq<FieldsView>,
    ErrorView,
>
    decreases n,
{
    if n == 0 || n > entities.len() {
        Ok(Seq::empty())
    } else {
        match read_entities(schema, entities, (n - 1) as nat) {
            Err(e) => Err(e),
            Ok(records) => match entities[n - 1] {
                StoreValueView::Bulk(items) => if items.len() == 0 {
                    Ok(records)
                } else {
                    match read_entity(schema, items) {
                        Err(e) => Err(e),
                        Ok(fields) => Ok(records.push(fields)),
                    }
                },
                _ => Err(ErrorView::MalformedResponse),
            },
        }
    }
}

/// The records that the response `result` to a script call gives, read by
/// `schema`.
pub open spec fn read_response(schema: SchemaView, result: StoreValueView) -> Result<
    Seq<FieldsView>,
    ErrorView,
> {
    match response_entities(result) {
        None => Err(ErrorView::MalformedResponse),
        Some(entities) => read_entities(schema, entities, entities.len()),
    }
}

/// Once an entity fails to be read, reading more entities fails in the same
/// way.
pub proof fn lemma_read_entities_fails(schema: SchemaView, entities: Seq<StoreValueView>, k: nat)
    requires
        k <= entities.len(),
        read_entities(schema, entities, k) is Err,
    ensures
        read_entities(schema, entities, entities.len()) == read_entities(schema, entities, k),
    decreases entities.len() - k,
{
    if k < entities.len() {
        assert(read_entities(schema, entities, k + 1) == read_entities(schema, entities, k));
        lemma_read_entities_fails(schema, entities, k + 1);
    }
}

/// The fields of every record that is read of a response are well formed:
/// no name occurs twice.
pub proof fn lemma_read_entities_wf(schema: SchemaView, entities: Seq<StoreValueView>, n: nat)
    ensures
        read_entities(schema, entities, n) matches Ok(records) ==> forall|i: int|
            0 <= i < records.len() ==> fields_wf(#[trigger] records[i]),
    decreases n,
{
    if !(n == 0 || n > entities.len()) {
        lemma_read_entities_wf(schema, entities, (n - 1) as nat);
        match entities[n - 1] {
            StoreValueView::Bulk(items) => {
                lemma_read_entity_wf(schema, items);
            },
            _ => {},
        }
    }
}

/// The mathematical content of the records `records`.
pub open spec fn records_view(records: Seq<Record>) -> Seq<RecordView> {
    Seq::new(records.len(), |i: int| records[i]@)
}

/// The record that holds `fields`: a full one, or a partial one.
pub open spec fn record_of(full: bool, fields: FieldsView) -> RecordView {
    if full {
        RecordView::Full { data: fields }
    } else {
        RecordView::Partial { data: fields }
    }
}

/// The records that hold the fields `all`, each a full one or each a partial
/// one.
pub open spec fn records_of(full: bool, all: Seq<FieldsView>) -> Seq<RecordView> {
    Seq::new(all.len(), |i: int| record_of(full, all[i]))
}

/// The records that the response `result` to a script call gives: full ones
/// where every field was asked for, partial ones where some were.
pub open spec fn response_records(schema: SchemaView, full: bool, result: StoreValueView)
    -> Result<Seq<RecordView>, ErrorView> {
    match read_response(schema, result) {
        Ok(all) => Ok(records_of(full, all)),
        Err(e) => Err(e),
    }
}

/// The mathematical content of the outcome of reading a response.
pub open spec fn response_result(r: Result<Vec<Record>, Error>) -> Result<
    Seq<RecordView>,
    ErrorView,
> {
    match r {
        Ok(records) => Ok(records_view(records@)),
        Err(e) => Err(e@),
    }
}

/// Parses the response `result` to a script call: a sequence whose first
/// item is the sequence of the entities found, each a sequence of names and
/// replies in turn. Gives a record for each entity that was there, read by
/// the schema of `meta`: a full record if `full`, else a partial one.
pub fn parse_lua_script_response(meta: &CollectionMeta, full: bool, result: &StoreValue) -> (r:
    Result<Vec<Record>, Error>)
    ensures
        response_result(r) == response_records(meta@.schema, full, result@),
        r matches Ok(records) ==> forall|i: int|
            0 <= i < records.len() ==> fields_wf(record_data((#[trigger] records[i])@)),
{
    proof {
        match response_entities(result@) {
            Some(entities) => {
                lemma_read_entities_wf(meta@.schema, entities, entities.len());
            },
            None => {},
        }
    }
    let replies = match result.as_sequence() {
        Some(replies) => replies,
        None => {
            return Err(Error::MalformedResponse);
        },
    };
    if replies.len() == 0 {
        return Err(Error::MalformedResponse);
    }
    assert(store_sequence(result@)->0[0] == replies@[0]@);
    let results = match replies[0].as_sequence() {
        Some(results) => results,
        None => {
            return Err(Error::MalformedResponse);
        },
    };
    let ghost entities = Seq::new(results@.len(), |i: int| results@[i]@);
    assert(response_entities(result@) == Some(entities));
    let mut list_of_results: Vec<Record> = Vec::new();
    let ghost mut all: Seq<FieldsView> = Seq::empty();
    assert(records_view(list_of_results@) == records_of(full, all));
    let mut i: usize = 0;
    while i < results.len()
        invariant
            i <= results.len(),
            entities == Seq::new(results@.len(), |i: int| results@[i]@),
            response_entities(result@) == Some(entities),
            read_entities(meta@.schema, entities, i as nat) == Ok::<Seq<FieldsView>, ErrorView>(
                all,
            ),
            records_view(list_of_results@) == records_of(full, all),
        decreases results.len() - i,
    {
        assert(entities[i as int] == results@[i as int]@);
        match &results[i] {
            StoreValue::Bulk(items) => {
                if items.len() > 0 {
                    match read_fields(&meta.schema, items) {
                        Ok(data) => {
                            let ghost before = records_view(list_of_results@);
                            let ghost fields = fields_view(data);
                            proof {
                                all = all.push(fields);
                            }
                            let record = if full {
                                Record::Full { data }
                            } else {
                                Record::Partial { data }
                            };
                            assert(record@ == record_of(full, fields));
                            list_of_results.push(record);
                            assert(records_view(list_of_results@) == before.push(
                                record_of(full, fields),
                            ));
                            assert(records_view(list_of_results@) == records_of(full, all));
                        },
                        Err(e) => {
                            proof {
                                assert(read_entities(meta@.schema, entities, (i + 1) as nat)
                                    == Err::<Seq<FieldsView>, ErrorView>(e@));
                                lemma_read_entities_fails(meta@.schema, entities, (i + 1) as nat);
                            }
                            return Err(e);
                        },
                    }
                }
            },
            _ => {
                proof {
                    assert(read_entities(meta@.schema, entities, (i + 1) as nat) == Err::<
                        Seq<FieldsView>,
                        ErrorView,
                    >(ErrorView::MalformedResponse));
                    lemma_read_entities_fails(meta@.schema, entities, (i + 1) as nat);
                }
                return Err(Error::MalformedResponse);
            },
        }
        i += 1;
    }
    proof {
        assert forall|i: int| 0 <= i < list_of_results.len() implies fields_wf(
            record_data((#[trigger] list_of_results[i])@),
        ) by {
            assert(records_view(list_of_results@)[i] == record_of(full, all[i]));
        }
    }
    Ok(list_of_results)
}

} // verus!
