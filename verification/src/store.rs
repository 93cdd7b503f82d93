//! The store's registry of collections, and the operations of one
//! collection: each as the request to send, and as the reading of what came
//! back.

use vstd::prelude::*;
use vstd::string::*;
use crate::collections::{CollectionMeta, CollectionMetaView};
use crate::errors::{Error, ErrorView};
use crate::field_types::{nested_fields_of, schema_wf, Schema};
use crate::pipelines::{add_command, empty_pipeline, holds_commands, lemma_encoded_push, CommandView};
use crate::requests::{
    first_unknown, generate_hash_keys, get_all_partial_records_in_collection,
    get_all_records_in_collection, get_partial_records_by_id, get_records_by_id, hash_keys,
    insert_commands, insert_records, remove_commands, remove_records, select_all,
    select_all_partial, select_by_id, select_partial_by_id,
};
use crate::responses::{
    parse_lua_script_response, records_view, response_records, response_result,
};
use crate::schema::{
    find_collection, meta_of, registry_names, registry_view, registry_wf, schema_of, RegistryView,
    SchemaDescriptor,
};
use crate::store_values::StoreValue;
use crate::utils::{
    flat_records_view, flatten, prepare_record_to_insert, FlatRecord, FlatRecordView,
};
use crate::values::{record_data, Record, RecordView};

verus! {

/// The registry of the collections of one store.
pub struct Store {
    collections_meta: Vec<(String, CollectionMeta)>,
    default_ttl: Option<u64>,
    is_in_use: bool,
}

/// The handle of one collection: its name, what the store keeps of it, and
/// the time to live of what is written through it unless a call says
/// otherwise.
#[derive(Debug, PartialEq, Eq)]
pub struct Collection {
    pub name: String,
    pub meta: CollectionMeta,
    pub default_ttl: Option<u64>,
}

/// The mathematical content of a `Collection`.
pub ghost struct CollectionView {
    pub name: Seq<char>,
    pub meta: CollectionMetaView,
    pub default_ttl: Option<u64>,
}

/// Whether the handle `collection` is well formed: its schema is, and the
/// referring fields that it keeps are those of its schema.
pub open spec fn collection_wf(collection: CollectionView) -> bool {
    &&& schema_wf(collection.meta.schema)
    &&& collection.meta.nested_fields == nested_fields_of(collection.meta.schema)
}

impl View for Collection {
    type V = CollectionView;

    open spec fn view(&self) -> CollectionView {
        CollectionView { name: self.name@, meta: self.meta@, default_ttl: self.default_ttl }
    }
}

/// The registry after the collection `name` is registered with the
/// description `descriptor` and the primary-key field `primary_key_field`.
///
/// A store that has handed out a collection takes no registration. A name
/// is registered once. The collections that the fields refer to must be
/// registered before.
pub open spec fn registered(
    registry: RegistryView,
    in_use: bool,
    name: Seq<char>,
    descriptor: SchemaDescriptor,
    primary_key_field: Seq<char>,
) -> Result<RegistryView, ErrorView> {
    if in_use {
        Err(ErrorView::AlreadyInUse)
    } else if meta_of(registry, name) is Some {
        Err(ErrorView::AlreadyRegistered { name })
    } else {
        match schema_of(descriptor, registry) {
            Err(e) => Err(e),
            Ok(schema) => Ok(
                registry.push(
                    (
                        name,
                        CollectionMetaView {
                            schema,
                            primary_key_field,
                            nested_fields: nested_fields_of(schema),
                        },
                    ),
                ),
            ),
        }
    }
}

/// The time to live of a write: that of the call, or else the default.
pub open spec fn effective_ttl(ttl: Option<u64>, default_ttl: Option<u64>) -> Option<u64> {
    match ttl {
        Some(seconds) => Some(seconds),
        None => default_ttl,
    }
}

/// The command that removes every key from the store, at once or in the
/// background.
pub open spec fn clear_command(asynchronous: bool) -> CommandView {
    seq![
        "FLUSHALL"@,
        if asynchronous {
            "ASYNC"@
        } else {
            "SYNC"@
        },
    ]
}

impl Store {
    /// The collections that are registered.
    pub closed spec fn registry(&self) -> RegistryView {
        registry_view(self.collections_meta@)
    }

    /// Whether the store has handed out a collection.
    pub closed spec fn in_use(&self) -> bool {
        self.is_in_use
    }

    /// The time to live of what is written, unless a call says otherwise.
    pub closed spec fn ttl(&self) -> Option<u64> {
        self.default_ttl
    }

    /// The registry is well formed: no name is registered twice, and each
    /// schema is well formed.
    pub open spec fn wf(&self) -> bool {
        registry_wf(self.registry())
    }

    /// A store without collections.
    pub fn new(default_ttl: Option<u64>) -> (store: Store)
        ensures
            store.registry() == RegistryView::empty(),
            !store.in_use(),
            store.ttl() == default_ttl,
            store.wf(),
    {
        let store = Store { collections_meta: Vec::new(), default_ttl, is_in_use: false };
        assert(store.registry() == RegistryView::empty());
        store
    }

    /// The request that clears all keys of the store.
    pub fn clear(&self, asynchronous: bool) -> (pipe: redis::Pipeline)
        ensures
            holds_commands(pipe, seq![clear_command(asynchronous)]),
    {
        let arg = if asynchronous {
            "ASYNC"
        } else {
            "SYNC"
        };
        let mut flush: Vec<String> = Vec::new();
        flush.push("FLUSHALL".to_owned());
        flush.push(arg.to_owned());
        assert(flush.deep_view() == clear_command(asynchronous));
        let mut pipe = empty_pipeline();
        add_command(&mut pipe, &flush);
        proof {
            lemma_encoded_push(Seq::empty(), flush.deep_view());
            assert(Seq::<CommandView>::empty().push(flush.deep_view()) == seq![flush.deep_view()]);
        }
        pipe
    }

    /// Registers the collection `model_name` with the fields that
    /// `descriptor` declares and the primary-key field `primary_key_field`.
    pub fn create_collection(
        &mut self,
        model_name: &str,
        descriptor: &SchemaDescriptor,
        primary_key_field: String,
    ) -> (r: Result<(), Error>)
        ensures
            final(self).in_use() == old(self).in_use(),
            final(self).ttl() == old(self).ttl(),
            old(self).wf() ==> final(self).wf(),
            match registered(
                old(self).registry(),
                old(self).in_use(),
                model_name@,
                *descriptor,
                primary_key_field@,
            ) {
                Ok(registry) => r is Ok && final(self).registry() == registry,
                Err(e) => r matches Err(err) && err@ == e && final(self).registry() == old(
                    self,
                ).registry(),
            },
    {
        if self.is_in_use {
            return Err(Error::AlreadyInUse);
        }
        if find_collection(&self.collections_meta, model_name).is_some() {
            return Err(Error::AlreadyRegistered { name: model_name.to_owned() });
        }
        let schema = match Schema::from_descriptor(descriptor, &self.collections_meta) {
            Ok(schema) => schema,
            Err(e) => {
                return Err(e);
            },
        };
        let nested_fields = schema.extract_nested_fields();
        let meta = CollectionMeta::new(Box::new(schema), primary_key_field, nested_fields);
        let ghost before = self.registry();
        self.collections_meta.push((model_name.to_owned(), meta));
        proof {
            let after = self.registry();
            assert(after == before.push((model_name@, meta@)));
            crate::field_types::lemma_first_index(registry_names(before), model_name@, 0);
            assert(registry_names(after) == registry_names(before).push(model_name@));
            if registry_wf(before) {
                assert forall|i: int| 0 <= i < after.len() implies schema_wf(
                    (#[trigger] after[i]).1.schema,
                ) && after[i].1.nested_fields == nested_fields_of(after[i].1.schema) by {
                    if i < before.len() {
                        assert(after[i] == before[i]);
                    }
                }
            }
        }
        Ok(())
    }

    /// The handle of the collection `model_name`. From then on the store
    /// takes no registration.
    pub fn get_collection(&mut self, model_name: &str) -> (r: Result<Collection, Error>)
        ensures
            final(self).registry() == old(self).registry(),
            final(self).ttl() == old(self).ttl(),
            old(self).wf() ==> (r matches Ok(collection) ==> collection_wf(collection@)),
            match meta_of(old(self).registry(), model_name@) {
                Some(meta) => r matches Ok(collection) && collection@ == (CollectionView {
                    name: model_name@,
                    meta,
                    default_ttl: old(self).ttl(),
                }) && final(self).in_use(),
                None => r matches Err(e) && e@ == (ErrorView::NotRegistered { name: model_name@ })
                    && final(self).in_use() == old(self).in_use(),
            },
    {
        match find_collection(&self.collections_meta, model_name) {
            Some(i) => {
                assert(self.registry()[i as int].1 == self.collections_meta[i as int].1@);
                self.is_in_use = true;
                Ok(
                    Collection::new(
                        model_name.to_owned(),
                        self.collections_meta[i].1.duplicate(),
                        self.default_ttl,
                    ),
                )
            },
            None => Err(Error::NotRegistered { name: model_name.to_owned() }),
        }
    }
}

/// The hashes that the first `n` of `items` are written as, one record's
/// after the other's, or the error of the first record that cannot be
/// written.
pub open spec fn flatten_many(collection: CollectionView, items: Seq<RecordView>, n: nat) -> Result<
    Seq<FlatRecordView>,
    ErrorView,
>
    decreases n,
{
    if n == 0 || n > items.len() {
        Ok(Seq::empty())
    } else {
        match flatten_many(collection, items, (n - 1) as nat) {
            Err(e) => Err(e),
            Ok(records) => match flatten(
                collection.name,
                collection.meta.schema,
                record_data(items[n - 1]),
                collection.meta.primary_key_field,
                None,
            ) {
                Err(e) => Err(e),
                Ok(more) => Ok(records + more),
            },
        }
    }
}

/// Once a record fails to be flattened, flattening more records fails in the
/// same way.
pub proof fn lemma_flatten_many_fails(collection: CollectionView, items: Seq<RecordView>, k: nat)
    requires
        k <= items.len(),
        flatten_many(collection, items, k) is Err,
    ensures
        flatten_many(collection, items, items.len()) == flatten_many(collection, items, k),
    decreases items.len() - k,
{
    if k < items.len() {
        assert(flatten_many(collection, items, k + 1) == flatten_many(collection, items, k));
        lemma_flatten_many_fails(collection, items, k + 1);
    }
}

/// The record that a read of one entity gives: the last of the records
/// found, if any was.
pub open spec fn last_record(records: Seq<RecordView>) -> Option<RecordView> {
    if records.len() == 0 {
        None
    } else {
        Some(records.last())
    }
}

/// The one text `text`, as a sequence of texts.
fn single(text: &str) -> (texts: Vec<String>)
    ensures
        texts.deep_view() == seq![text@],
{
    let mut texts: Vec<String> = Vec::new();
    texts.push(text.to_owned());
    assert(texts.deep_view() == seq![text@]);
    texts
}

impl Collection {
    /// The handle of the collection `name`.
    pub fn new(name: String, meta: CollectionMeta, default_ttl: Option<u64>) -> (collection:
        Collection)
        ensures
            collection@ == (CollectionView { name: name@, meta: meta@, default_ttl }),
    {
        Collection { name, meta, default_ttl }
    }

    /// The time to live of a write through this collection.
    fn ttl_of(&self, ttl: Option<u64>) -> (r: Option<u64>)
        ensures
            r == effective_ttl(ttl, self.default_ttl),
    {
        match ttl {
            None => self.default_ttl,
            Some(v) => Some(v),
        }
    }

    /// The request that inserts `item`: one transaction that writes the
    /// record and the entities it holds. If the record cannot be written,
    /// there is no request.
    pub fn add_one(&self, item: &Record, ttl: Option<u64>) -> (r: Result<redis::Pipeline, Error>)
        ensures
            match flatten(
                self@.name,
                self@.meta.schema,
                record_data(item@),
                self@.meta.primary_key_field,
                None,
            ) {
                Ok(records) => r matches Ok(pipe) && holds_commands(
                    pipe,
                    insert_commands(records, effective_ttl(ttl, self@.default_ttl)),
                ),
                Err(e) => r matches Err(err) && err@ == e,
            },
    {
        let records = match prepare_record_to_insert(
            self.name.as_str(),
            &self.meta.schema,
            item.extract_data(),
            self.meta.primary_key_field.as_str(),
            None,
        ) {
            Ok(records) => records,
            Err(e) => {
                return Err(e);
            },
        };
        let ttl = self.ttl_of(ttl);
        Ok(insert_records(&records, &ttl))
    }

    /// The request that inserts `items` in a batch: one transaction that
    /// writes every record and the entities they hold. If any one of the
    /// records cannot be written, there is no request, and so nothing of the
    /// batch is written.
    pub fn add_many(&self, items: &Vec<Record>, ttl: Option<u64>) -> (r: Result<
        redis::Pipeline,
        Error,
    >)
        ensures
            match flatten_many(self@, records_view(items@), items.len() as nat) {
                Ok(records) => r matches Ok(pipe) && holds_commands(
                    pipe,
                    insert_commands(records, effective_ttl(ttl, self@.default_ttl)),
                ),
                Err(e) => r matches Err(err) && err@ == e,
            },
    {
        let ghost views = records_view(items@);
        let mut records: Vec<FlatRecord> = Vec::new();
        assert(flat_records_view(records@) == Seq::<FlatRecordView>::empty());
        let mut i: usize = 0;
        while i < items.len()
            invariant
                i <= items.len(),
                views == records_view(items@),
                flatten_many(self@, views, i as nat) == Ok::<Seq<FlatRecordView>, ErrorView>(
                    flat_records_view(records@),
                ),
            decreases items.len() - i,
        {
            assert(views[i as int] == items[i as int]@);
            match prepare_record_to_insert(
                self.name.as_str(),
                &self.meta.schema,
                items[i].extract_data(),
                self.meta.primary_key_field.as_str(),
                None,
            ) {
                Ok(mut records_to_insert) => {
                    let ghost before = flat_records_view(records@);
                    let ghost more = flat_records_view(records_to_insert@);
                    records.append(&mut records_to_insert);
                    assert(flat_records_view(records@) == before + more);
                },
                Err(e) => {
                    proof {
                        assert(flatten_many(self@, views, (i + 1) as nat) == Err::<
                            Seq<FlatRecordView>,
                            ErrorView,
                        >(e@));
                        lemma_flatten_many_fails(self@, views, (i + 1) as nat);
                    }
                    return Err(e);
                },
            }
            i += 1;
        }
        let ttl = self.ttl_of(ttl);
        Ok(insert_records(&records, &ttl))
    }

    /// The request that updates the record `id` with the fields of `data`:
    /// one transaction that writes those fields under the key of `id`.
    pub fn update_one(&self, id: &str, data: &Record, ttl: Option<u64>) -> (r: Result<
        redis::Pipeline,
        Error,
    >)
        ensures
            match flatten(
                self@.name,
                self@.meta.schema,
                record_data(data@),
                self@.meta.primary_key_field,
                Some(id@),
            ) {
                Ok(records) => r matches Ok(pipe) && holds_commands(
                    pipe,
                    insert_commands(records, effective_ttl(ttl, self@.default_ttl)),
                ),
                Err(e) => r matches Err(err) && err@ == e,
            },
    {
        let records = match prepare_record_to_insert(
            self.name.as_str(),
            &self.meta.schema,
            data.extract_data(),
            self.meta.primary_key_field.as_str(),
            Some(id),
        ) {
            Ok(records) => records,
            Err(e) => {
                return Err(e);
            },
        };
        let ttl = self.ttl_of(ttl);
        Ok(insert_records(&records, &ttl))
    }

    /// The request that deletes the records `ids`: one transaction that
    /// removes their hashes and takes their keys out of the index.
    pub fn delete_many(&self, ids: &Vec<String>) -> (pipe: redis::Pipeline)
        ensures
            holds_commands(
                pipe,
                remove_commands(self@.name, hash_keys(self@.name, ids.deep_view())),
            ),
    {
        let primary_keys = generate_hash_keys(self.name.as_str(), ids);
        remove_records(self.name.as_str(), &primary_keys)
    }

    /// The request for the record `id`.
    pub fn get_one(&self, id: &str) -> (pipe: redis::Pipeline)
        ensures
            holds_commands(pipe, seq![select_by_id(self@.name, self@.meta.nested_fields, seq![id@])]),
    {
        get_records_by_id(self.name.as_str(), &self.meta, &single(id))
    }

    /// The request for all records of this collection.
    pub fn get_all(&self) -> (pipe: redis::Pipeline)
        ensures
            holds_commands(pipe, seq![select_all(self@.name, self@.meta.nested_fields)]),
    {
        get_all_records_in_collection(self.name.as_str(), &self.meta)
    }

    /// The request for the records `ids`.
    pub fn get_many(&self, ids: &Vec<String>) -> (pipe: redis::Pipeline)
        ensures
            holds_commands(
                pipe,
                seq![select_by_id(self@.name, self@.meta.nested_fields, ids.deep_view())],
            ),
    {
        get_records_by_id(self.name.as_str(), &self.meta, ids)
    }

    /// The request for the fields `fields` of the record `id`.
    pub fn get_one_partially(&self, id: &str, fields: &Vec<String>) -> (r: Result<
        redis::Pipeline,
        Error,
    >)
        ensures
            match r {
                Ok(pipe) => first_unknown(self@.meta.schema, fields.deep_view(), 0) is None
                    && holds_commands(
                    pipe,
                    seq![
                        select_partial_by_id(
                            self@.name,
                            self@.meta.nested_fields,
                            seq![id@],
                            fields.deep_view(),
                        ),
                    ],
                ),
                Err(e) => first_unknown(self@.meta.schema, fields.deep_view(), 0) matches Some(name)
                    && e@ == (ErrorView::UnknownField { field: name }),
            },
    {
        get_partial_records_by_id(self.name.as_str(), &self.meta, &single(id), fields)
    }

    /// The request for the fields `fields` of all records of this
    /// collection.
    pub fn get_all_partially(&self, fields: &Vec<String>) -> (r: Result<redis::Pipeline, Error>)
        ensures
            match r {
                Ok(pipe) => first_unknown(self@.meta.schema, fields.deep_view(), 0) is None
                    && holds_commands(
                    pipe,
                    seq![
                        select_all_partial(self@.name, self@.meta.nested_fields, fields.deep_view()),
                    ],
                ),
                Err(e) => first_unknown(self@.meta.schema, fields.deep_view(), 0) matches Some(name)
                    && e@ == (ErrorView::UnknownField { field: name }),
            },
    {
        get_all_partial_records_in_collection(self.name.as_str(), &self.meta, fields)
    }

    /// The request for the fields `fields` of the records `ids`.
    pub fn get_many_partially(&self, ids: &Vec<String>, fields: &Vec<String>) -> (r: Result<
        redis::Pipeline,
        Error,
    >)
        ensures
            match r {
                Ok(pipe) => first_unknown(self@.meta.schema, fields.deep_view(), 0) is None
                    && holds_commands(
                    pipe,
                    seq![
                        select_partial_by_id(
                            self@.name,
                            self@.meta.nested_fields,
                            ids.deep_view(),
                            fields.deep_view(),
                        ),
                    ],
                ),
                Err(e) => first_unknown(self@.meta.schema, fields.deep_view(), 0) matches Some(name)
                    && e@ == (ErrorView::UnknownField { field: name }),
            },
    {
        get_partial_records_by_id(self.name.as_str(), &self.meta, ids, fields)
    }

    /// The records that the store's answer `response` to a request for
    /// records holds: full records if `full`, else partial ones. An entity
    /// that was not there gives no record.
    pub fn records_from(&self, full: bool, response: &StoreValue) -> (r: Result<Vec<Record>, Error>)
        ensures
            response_result(r) == response_records(self@.meta.schema, full, response@),
    {
        parse_lua_script_response(&self.meta, full, response)
    }

    /// The record that the store's answer `response` to a request for one
    /// record holds, if the record was there.
    pub fn record_from(&self, full: bool, response: &StoreValue) -> (r: Result<
        Option<Record>,
        Error,
    >)
        ensures
            match response_records(self@.meta.schema, full, response@) {
                Ok(records) => match last_record(records) {
                    Some(record) => r matches Ok(Some(found)) && found@ == record,
                    None => r matches Ok(None),
                },
                Err(e) => r matches Err(err) && err@ == e,
            },
    {
        let mut records = match parse_lua_script_response(&self.meta, full, response) {
            Ok(records) => records,
            Err(e) => {
                return Err(e);
            },
        };
        let ghost views = records_view(records@);
        assert(records.len() > 0 ==> views.last() == records@.last()@);
        Ok(records.pop())
    }
}

} // verus!
