//! The requests that the mapper sends to the store: the pipelines that write
//! and remove hashes in one transaction, and the script calls that read them.

use vstd::prelude::*;
use vstd::string::*;
use crate::collections::CollectionMeta;
use crate::errors::{Error, ErrorView};
use crate::field_types::{first_index, type_of_field, SchemaView};
use crate::keys::{
    collection_key_pattern, generate_collection_key_pattern, generate_hash_key, get_model_index,
    hash_key, model_index,
};
use crate::numbers::{digits_of, u64_text};
use crate::pipelines::{
    add_command, empty_pipeline, encoded_commands, holds_commands, lemma_encoded_push,
    pipeline_commands, CommandView,
};
use crate::text::same_text;
use crate::utils::{FlatFieldsView, FlatRecord, FlatRecordView, flat_records_view};

verus! {

/// The script that reads every field of the entities under the given keys.
/// Its arguments are the names of the fields that are to be replaced by the
/// hash they refer to.
pub const SELECT_ALL_FIELDS_FOR_SOME_IDS_SCRIPT: &'static str = r"local result = {} local nested_fields = {} for _, key in ipairs(ARGV) do nested_fields[key] = true end for _, key in ipairs(KEYS) do local parent = redis.call('HGETALL', key) for i, k in ipairs(parent) do if nested_fields[k] then local nested = redis.call('HGETALL', parent[i + 1]) parent[i + 1] = nested end end table.insert(result, parent) end return result";

/// The script that reads the named fields of the entities under the given
/// keys. Its arguments are the names of the fields, and then again the name
/// of each field that is to be replaced by the hash it refers to.
pub const SELECT_SOME_FIELDS_FOR_SOME_IDS_SCRIPT: &'static str = r"local result = {} local table_unpack = table.unpack or unpack local columns = { } local nested_columns = {} local args_tracker = {} for i, k in ipairs(ARGV) do if args_tracker[k] then nested_columns[k] = true else table.insert(columns, k) args_tracker[k] = true end end for _, key in ipairs(KEYS) do local data = redis.call('HMGET', key, table_unpack(columns)) local parsed_data = {} for i, v in ipairs(data) do if v then table.insert(parsed_data, columns[i]) if nested_columns[columns[i]] then v = redis.call('HGETALL', v) end table.insert(parsed_data, v) end end table.insert(result, parsed_data) end return result";

/// The script that reads every field of every entity of a collection. Its
/// arguments are the pattern of the collection's keys and the names of the
/// fields that are to be replaced by the hash they refer to.
pub const SELECT_ALL_FIELDS_FOR_ALL_IDS_SCRIPT: &'static str = r"local filtered = {} local cursor = '0' local nested_fields = {} for i, key in ipairs(ARGV) do if i > 1 then nested_fields[key] = true end end repeat local result = redis.call('SCAN', cursor, 'MATCH', ARGV[1]) for _, key in ipairs(result[2]) do if redis.call('TYPE', key).ok == 'hash' then local parent = redis.call('HGETALL', key) for i, k in ipairs(parent) do if nested_fields[k] then local nested = redis.call('HGETALL', parent[i + 1]) parent[i + 1] = nested end end table.insert(filtered, parent) end end cursor = result[1] until (cursor == '0') return filtered";

/// The script that reads the named fields of every entity of a collection.
/// Its arguments are the pattern of the collection's keys, the names of the
/// fields, and then again the name of each field that is to be replaced by
/// the hash it refers to.
pub const SELECT_SOME_FIELDS_FOR_ALL_IDS_SCRIPT: &'static str = r"local filtered = {} local cursor = '0' local table_unpack = table.unpack or unpack local columns = {} local nested_columns = {} local args_tracker = {} for i, k in ipairs(ARGV) do if i > 1 then if args_tracker[k] then nested_columns[k] = true else  table.insert(columns, k) args_tracker[k] = true end end end repeat local result = redis.call('SCAN', cursor, 'MATCH', ARGV[1]) for _, key in ipairs(result[2]) do if redis.call('TYPE', key).ok == 'hash' then  local data = redis.call('HMGET', key, table_unpack(columns)) local parsed_data = {} for i, v in ipairs(data) do table.insert(parsed_data, columns[i]) if nested_columns[columns[i]] then v = redis.call('HGETALL', v) end table.insert(parsed_data, v) end table.insert(filtered, parsed_data) end end cursor = result[1] until (cursor == '0') return filtered";

/// The names and texts of `fields` in turn, as the arguments of a command.
pub open spec fn flat_field_args(fields: FlatFieldsView) -> Seq<Seq<char>>
    decreases fields.len(),
{
    if fields.len() == 0 {
        Seq::empty()
    } else {
        flat_field_args(fields.drop_last()) + seq![fields.last().0, fields.last().1]
    }
}

/// The commands that write one hash: the hash is set field by field, its key
/// is added to the index of its collection, and, where a time to live is
/// given, the key and the index expire after that many seconds.
pub open spec fn record_commands(record: FlatRecordView, ttl: Option<u64>) -> Seq<CommandView> {
    let index = model_index(record.collection);
    let write = seq![
        seq!["HSET"@, record.key] + flat_field_args(record.fields),
        seq!["SADD"@, index, record.key],
    ];
    match ttl {
        Some(seconds) => write + seq![
            seq!["EXPIRE"@, record.key, digits_of(seconds as nat)],
            seq!["EXPIRE"@, index, digits_of(seconds as nat)],
        ],
        None => write,
    }
}

/// The commands that write the first `n` of `records`, in order.
pub open spec fn records_commands(records: Seq<FlatRecordView>, ttl: Option<u64>, n: nat) -> Seq<
    CommandView,
>
    decreases n,
{
    if n == 0 || n > records.len() {
        Seq::empty()
    } else {
        records_commands(records, ttl, (n - 1) as nat) + record_commands(records[n - 1], ttl)
    }
}

/// The commands that write `records` as one transaction: everything stands
/// between `MULTI` and `EXEC`.
pub open spec fn insert_commands(records: Seq<FlatRecordView>, ttl: Option<u64>) -> Seq<
    CommandView,
> {
    seq![seq!["MULTI"@]] + records_commands(records, ttl, records.len()) + seq![seq!["EXEC"@]]
}

/// The commands that remove the hashes under `keys` and take the keys out of
/// the index of `collection`, as one transaction.
pub open spec fn remove_commands(collection: Seq<char>, keys: Seq<Seq<char>>) -> Seq<CommandView> {
    seq![
        seq!["MULTI"@],
        seq!["DEL"@] + keys,
        seq!["SREM"@, model_index(collection)] + keys,
        seq!["EXEC"@],
    ]
}

/// The keys of the entities `ids` of `collection`.
pub open spec fn hash_keys(collection: Seq<char>, ids: Seq<Seq<char>>) -> Seq<Seq<char>> {
    Seq::new(ids.len(), |i: int| hash_key(collection, ids[i]))
}

/// Those of the first `n` of `nested_fields` that `fields` names, in order.
pub open spec fn requested_nested(fields: Seq<Seq<char>>, nested_fields: Seq<Seq<char>>, n: nat)
    -> Seq<Seq<char>>
    decreases n,
{
    if n == 0 || n > nested_fields.len() {
        Seq::empty()
    } else if first_index(fields, nested_fields[n - 1], 0) is Some {
        requested_nested(fields, nested_fields, (n - 1) as nat).push(nested_fields[n - 1])
    } else {
        requested_nested(fields, nested_fields, (n - 1) as nat)
    }
}

/// The first of `fields`, from position `from` on, that `schema` does not
/// declare.
pub open spec fn first_unknown(schema: SchemaView, fields: Seq<Seq<char>>, from: int) -> Option<
    Seq<char>,
>
    decreases fields.len() - from,
{
    if from < 0 || from >= fields.len() {
        None
    } else if type_of_field(schema, fields[from]) is None {
        Some(fields[from])
    } else {
        first_unknown(schema, fields, from + 1)
    }
}

/// The script call that reads every field of the entities `ids`: the script,
/// the number of keys, the keys, and the names of the fields to expand.
pub open spec fn select_by_id(
    collection: Seq<char>,
    nested_fields: Seq<Seq<char>>,
    ids: Seq<Seq<char>>,
) -> CommandView {
    seq!["EVAL"@, SELECT_ALL_FIELDS_FOR_SOME_IDS_SCRIPT@, digits_of(ids.len())] + hash_keys(
        collection,
        ids,
    ) + nested_fields
}

/// The script call that reads the fields `fields` of the entities `ids`: the
/// script, the number of keys, the keys, the names of the fields, and again
/// the names of those among them that are to be expanded.
pub open spec fn select_partial_by_id(
    collection: Seq<char>,
    nested_fields: Seq<Seq<char>>,
    ids: Seq<Seq<char>>,
    fields: Seq<Seq<char>>,
) -> CommandView {
    seq!["EVAL"@, SELECT_SOME_FIELDS_FOR_SOME_IDS_SCRIPT@, digits_of(ids.len())] + hash_keys(
        collection,
        ids,
    ) + fields + requested_nested(fields, nested_fields, nested_fields.len())
}

/// The script call that reads every field of every entity of `collection`:
/// the script, no keys, the pattern of the collection's keys, and the names
/// of the fields to expand.
pub open spec fn select_all(collection: Seq<char>, nested_fields: Seq<Seq<char>>) -> CommandView {
    seq![
        "EVAL"@,
        SELECT_ALL_FIELDS_FOR_ALL_IDS_SCRIPT@,
        digits_of(0),
        collection_key_pattern(collection),
    ] + nested_fields
}

/// The script call that reads the fields `fields` of every entity of
/// `collection`: the script, no keys, the pattern of the collection's keys,
/// the names of the fields, and again the names of those among them that are
/// to be expanded.
pub open spec fn select_all_partial(
    collection: Seq<char>,
    nested_fields: Seq<Seq<char>>,
    fields: Seq<Seq<char>>,
) -> CommandView {
    seq![
        "EVAL"@,
        SELECT_SOME_FIELDS_FOR_ALL_IDS_SCRIPT@,
        digits_of(0),
        collection_key_pattern(collection),
    ] + fields + requested_nested(fields, nested_fields, nested_fields.len())
}

/// A command with the name `name` and no argument yet.
fn command(name: &str) -> (cmd: Vec<String>)
    ensures
        cmd.deep_view() == seq![name@],
        cmd.len() == 1,
{
    let mut cmd: Vec<String> = Vec::new();
    cmd.push(name.to_owned());
    assert(cmd.deep_view() == seq![name@]);
    cmd
}

/// Adds the argument `arg` to `cmd`.
fn push_arg(cmd: &mut Vec<String>, arg: String)
    ensures
        final(cmd).deep_view() == old(cmd).deep_view().push(arg@),
        final(cmd).len() == old(cmd).len() + 1,
{
    cmd.push(arg);
    assert(cmd.deep_view() == old(cmd).deep_view().push(arg@));
}

/// Adds the arguments `args` to `cmd`, in order.
fn push_args(cmd: &mut Vec<String>, args: &Vec<String>)
    ensures
        final(cmd).deep_view() == old(cmd).deep_view() + args.deep_view(),
        final(cmd).len() >= old(cmd).len(),
{
    let ghost before = cmd.deep_view();
    let mut i: usize = 0;
    while i < args.len()
        invariant
            i <= args.len(),
            cmd.len() >= old(cmd).len(),
            cmd.deep_view() == before + args.deep_view().take(i as int),
        decreases args.len() - i,
    {
        let ghost so_far = cmd.deep_view();
        push_arg(cmd, args[i].clone());
        assert(args.deep_view()[i as int] == args[i as int]@);
        assert(before + args.deep_view().take(i + 1) == so_far.push(args[i as int]@));
        i += 1;
    }
    assert(args.deep_view().take(args.len() as int) == args.deep_view());
}

/// Adds `command` behind the commands `held` that `pipe` holds.
fn queue(pipe: &mut redis::Pipeline, command: &Vec<String>, Ghost(held): Ghost<Seq<CommandView>>)
    requires
        command.len() > 0,
        holds_commands(*old(pipe), held),
    ensures
        holds_commands(*final(pipe), held.push(command.deep_view())),
{
    add_command(pipe, command);
    proof {
        lemma_encoded_push(held, command.deep_view());
    }
}

/// Whether `names` holds `name`.
fn holds_name(names: &Vec<String>, name: &str) -> (r: bool)
    ensures
        r == first_index(names.deep_view(), name@, 0) is Some,
{
    let mut i: usize = 0;
    while i < names.len()
        invariant
            i <= names.len(),
            first_index(names.deep_view(), name@, 0) == first_index(
                names.deep_view(),
                name@,
                i as int,
            ),
        decreases names.len() - i,
    {
        assert(names.deep_view()[i as int] == names[i as int]@);
        if same_text(names[i].as_str(), name) {
            return true;
        }
        i += 1;
    }
    false
}

/// Adds to `cmd` those of `nested_fields` that `fields` names.
fn push_requested_nested(cmd: &mut Vec<String>, fields: &Vec<String>, nested_fields: &Vec<String>)
    ensures
        final(cmd).deep_view() == old(cmd).deep_view() + requested_nested(
            fields.deep_view(),
            nested_fields.deep_view(),
            nested_fields.len() as nat,
        ),
        final(cmd).len() >= old(cmd).len(),
{
    let ghost before = cmd.deep_view();
    let mut i: usize = 0;
    while i < nested_fields.len()
        invariant
            i <= nested_fields.len(),
            cmd.len() >= old(cmd).len(),
            cmd.deep_view() == before + requested_nested(
                fields.deep_view(),
                nested_fields.deep_view(),
                i as nat,
            ),
        decreases nested_fields.len() - i,
    {
        assert(nested_fields.deep_view()[i as int] == nested_fields[i as int]@);
        let ghost so_far = requested_nested(fields.deep_view(), nested_fields.deep_view(), i as nat);
        if holds_name(fields, nested_fields[i].as_str()) {
            push_arg(cmd, nested_fields[i].clone());
            assert(before + so_far.push(nested_fields[i as int]@) == (before + so_far).push(
                nested_fields[i as int]@,
            ));
        }
        i += 1;
    }
}

/// The keys of the entities `ids` of `collection_name`.
pub fn generate_hash_keys(collection_name: &str, ids: &Vec<String>) -> (keys: Vec<String>)
    ensures
        keys.deep_view() == hash_keys(collection_name@, ids.deep_view()),
{
    let mut keys: Vec<String> = Vec::new();
    let mut i: usize = 0;
    while i < ids.len()
        invariant
            i <= ids.len(),
            keys.len() == i,
            forall|j: int|
                0 <= j < i ==> (#[trigger] keys[j])@ == hash_key(collection_name@, ids[j]@),
        decreases ids.len() - i,
    {
        keys.push(generate_hash_key(collection_name, ids[i].as_str()));
        i += 1;
    }
    assert(keys.deep_view() == hash_keys(collection_name@, ids.deep_view()));
    keys
}

/// Adds to `pipe` the commands that write the hash `record`: the hash is
/// set, its key joins the index of its collection, and with a time to live
/// `life_span` both expire after that many seconds. Nothing is sent. Gives
/// the key of the hash.
pub fn insert_on_pipeline(pipe: &mut redis::Pipeline, record: &FlatRecord, life_span: &Option<u64>)
    -> (name: String)
    ensures
        pipeline_commands(*final(pipe)) == pipeline_commands(*old(pipe)) + encoded_commands(
            record_commands(record@, *life_span),
        ),
        name@ == record@.key,
{
    let ghost before = pipeline_commands(*pipe);
    let index = get_model_index(record.collection.as_str());
    let mut hset = command("HSET");
    push_arg(&mut hset, record.key.clone());
    let mut k: usize = 0;
    while k < record.fields.len()
        invariant
            k <= record.fields.len(),
            hset.len() > 0,
            hset.deep_view() == seq!["HSET"@, record.key@] + flat_field_args(
                record.fields.deep_view().take(k as int),
            ),
        decreases record.fields.len() - k,
    {
        let ghost fields = record.fields.deep_view();
        assert(fields[k as int] == (record.fields[k as int].0@, record.fields[k as int].1@));
        assert(fields.take(k + 1).drop_last() == fields.take(k as int));
        push_arg(&mut hset, record.fields[k].0.clone());
        push_arg(&mut hset, record.fields[k].1.clone());
        assert(hset.deep_view() == seq!["HSET"@, record.key@] + (flat_field_args(
            fields.take(k as int),
        ) + seq![fields[k as int].0, fields[k as int].1]));
        k += 1;
    }
    assert(record.fields.deep_view().take(record.fields.len() as int) == record.fields.deep_view());
    add_command(pipe, &hset);
    let mut sadd = command("SADD");
    push_arg(&mut sadd, index.clone());
    push_arg(&mut sadd, record.key.clone());
    add_command(pipe, &sadd);
    let ghost view = record@;
    let ghost index_text = model_index(view.collection);
    assert(sadd.deep_view() =~= seq!["SADD"@, index_text, view.key]);
    if let Some(seconds) = life_span {
        let text = u64_text(*seconds);
        let mut expire_key = command("EXPIRE");
        push_arg(&mut expire_key, record.key.clone());
        push_arg(&mut expire_key, text.clone());
        add_command(pipe, &expire_key);
        let mut expire_index = command("EXPIRE");
        push_arg(&mut expire_index, index);
        push_arg(&mut expire_index, text);
        add_command(pipe, &expire_index);
        proof {
            let e1 = seq!["EXPIRE"@, view.key, digits_of(*seconds as nat)];
            let e2 = seq!["EXPIRE"@, index_text, digits_of(*seconds as nat)];
            assert(expire_key.deep_view() =~= e1);
            assert(expire_index.deep_view() =~= e2);
            let written = record_commands(view, *life_span);
            assert(written =~= seq![hset.deep_view(), sadd.deep_view(), e1, e2]);
            assert(pipeline_commands(*pipe) =~= before + encoded_commands(written));
        }
    } else {
        proof {
            let written = record_commands(view, *life_span);
            assert(written =~= seq![hset.deep_view(), sadd.deep_view()]);
            assert(pipeline_commands(*pipe) =~= before + encoded_commands(written));
        }
    }
    record.key.clone()
}

/// Commands as bytes, one run after another, are the two runs as bytes.
pub proof fn lemma_encoded_concat(first: Seq<CommandView>, second: Seq<CommandView>)
    ensures
        encoded_commands(first + second) == encoded_commands(first) + encoded_commands(second),
{
    assert(encoded_commands(first + second) =~= encoded_commands(first) + encoded_commands(second));
}

/// The pipeline that writes `records` to the store in one transaction. Each
/// hash is set, its key joins the index of its collection, and with a time
/// to live `ttl` both expire after that many seconds.
pub fn insert_records(records: &Vec<FlatRecord>, ttl: &Option<u64>) -> (pipe: redis::Pipeline)
    ensures
        holds_commands(pipe, insert_commands(flat_records_view(records@), *ttl)),
{
    let ghost views = flat_records_view(records@);
    let mut pipe = empty_pipeline();
    let ghost mut held: Seq<CommandView> = Seq::empty();
    let multi = command("MULTI");
    queue(&mut pipe, &multi, Ghost(held));
    proof {
        held = held.push(multi.deep_view());
        assert(held == seq![seq!["MULTI"@]] + records_commands(views, *ttl, 0));
    }
    let mut i: usize = 0;
    while i < records.len()
        invariant
            i <= records.len(),
            views == flat_records_view(records@),
            holds_commands(pipe, held),
            held == seq![seq!["MULTI"@]] + records_commands(views, *ttl, i as nat),
        decreases records.len() - i,
    {
        assert(views[i as int] == records[i as int]@);
        insert_on_pipeline(&mut pipe, &records[i], ttl);
        proof {
            lemma_encoded_concat(held, record_commands(views[i as int], *ttl));
            held = held + record_commands(views[i as int], *ttl);
            assert(seq![seq!["MULTI"@]] + records_commands(views, *ttl, i as nat)
                + record_commands(views[i as int], *ttl) == seq![seq!["MULTI"@]]
                + records_commands(views, *ttl, (i + 1) as nat));
        }
        i += 1;
    }
    let exec = command("EXEC");
    queue(&mut pipe, &exec, Ghost(held));
    proof {
        held = held.push(exec.deep_view());
        assert(held == insert_commands(views, *ttl));
    }
    pipe
}

/// The pipeline that removes the hashes under `keys` from the store and
/// their keys from the index of `collection_name`, in one transaction.
pub fn remove_records(collection_name: &str, keys: &Vec<String>) -> (pipe: redis::Pipeline)
    ensures
        holds_commands(pipe, remove_commands(collection_name@, keys.deep_view())),
{
    let mut pipe = empty_pipeline();
    let ghost mut held: Seq<CommandView> = Seq::empty();
    let multi = command("MULTI");
    queue(&mut pipe, &multi, Ghost(held));
    proof {
        held = held.push(multi.deep_view());
    }
    let mut del = command("DEL");
    push_args(&mut del, keys);
    queue(&mut pipe, &del, Ghost(held));
    proof {
        held = held.push(del.deep_view());
    }
    let mut srem = command("SREM");
    push_arg(&mut srem, get_model_index(collection_name));
    push_args(&mut srem, keys);
    queue(&mut pipe, &srem, Ghost(held));
    proof {
        held = held.push(srem.deep_view());
    }
    let exec = command("EXEC");
    queue(&mut pipe, &exec, Ghost(held));
    proof {
        held = held.push(exec.deep_view());
        assert(srem.deep_view() =~= seq!["SREM"@, model_index(collection_name@)]
            + keys.deep_view());
        assert(held =~= remove_commands(collection_name@, keys.deep_view()));
    }
    pipe
}

/// The first of `fields` that the schema of `meta` does not declare.
pub fn find_unknown_field(meta: &CollectionMeta, fields: &Vec<String>) -> (r: Option<String>)
    ensures
        match r {
            Some(name) => first_unknown(meta@.schema, fields.deep_view(), 0) == Some(name@),
            None => first_unknown(meta@.schema, fields.deep_view(), 0) is None,
        },
{
    let mut i: usize = 0;
    while i < fields.len()
        invariant
            i <= fields.len(),
            first_unknown(meta@.schema, fields.deep_view(), 0) == first_unknown(
                meta@.schema,
                fields.deep_view(),
                i as int,
            ),
        decreases fields.len() - i,
    {
        assert(fields.deep_view()[i as int] == fields[i as int]@);
        if meta.schema.get_type(fields[i].as_str()).is_none() {
            return Some(fields[i].clone());
        }
        i += 1;
    }
    None
}

/// The request for every field of the entities `ids` of `collection_name`:
/// one script call, which also puts the hash of each referred entity in the
/// place of its key.
pub fn get_records_by_id(collection_name: &str, meta: &CollectionMeta, ids: &Vec<String>) -> (pipe:
    redis::Pipeline)
    ensures
        holds_commands(
            pipe,
            seq![select_by_id(collection_name@, meta@.nested_fields, ids.deep_view())],
        ),
{
    let keys = generate_hash_keys(collection_name, ids);
    let mut eval = command("EVAL");
    push_arg(&mut eval, SELECT_ALL_FIELDS_FOR_SOME_IDS_SCRIPT.to_owned());
    push_arg(&mut eval, u64_text(ids.len() as u64));
    push_args(&mut eval, &keys);
    push_args(&mut eval, &meta.nested_fields);
    assert(ids.deep_view().len() == ids.len());
    assert(eval.deep_view() =~= select_by_id(
        collection_name@,
        meta@.nested_fields,
        ids.deep_view(),
    ));
    let mut pipe = empty_pipeline();
    queue(&mut pipe, &eval, Ghost(Seq::empty()));
    assert(Seq::<CommandView>::empty().push(eval.deep_view()) == seq![eval.deep_view()]);
    pipe
}

/// The request for the fields `fields` of the entities `ids` of
/// `collection_name`: one script call. A field that the schema does not
/// declare is refused.
pub fn get_partial_records_by_id(
    collection_name: &str,
    meta: &CollectionMeta,
    ids: &Vec<String>,
    fields: &Vec<String>,
) -> (r: Result<redis::Pipeline, Error>)
    ensures
        match r {
            Ok(pipe) => first_unknown(meta@.schema, fields.deep_view(), 0) is None
                && holds_commands(
                pipe,
                seq![
                    select_partial_by_id(
                        collection_name@,
                        meta@.nested_fields,
                        ids.deep_view(),
                        fields.deep_view(),
                    ),
                ],
            ),
            Err(e) => first_unknown(meta@.schema, fields.deep_view(), 0) matches Some(name) && e@
                == (ErrorView::UnknownField { field: name }),
        },
{
    if let Some(name) = find_unknown_field(meta, fields) {
        return Err(Error::UnknownField { field: name });
    }
    let keys = generate_hash_keys(collection_name, ids);
    let mut eval = command("EVAL");
    push_arg(&mut eval, SELECT_SOME_FIELDS_FOR_SOME_IDS_SCRIPT.to_owned());
    push_arg(&mut eval, u64_text(ids.len() as u64));
    push_args(&mut eval, &keys);
    push_args(&mut eval, fields);
    push_requested_nested(&mut eval, fields, &meta.nested_fields);
    assert(ids.deep_view().len() == ids.len());
    assert(meta.nested_fields.deep_view().len() == meta.nested_fields.len());
    assert(eval.deep_view() =~= select_partial_by_id(
        collection_name@,
        meta@.nested_fields,
        ids.deep_view(),
        fields.deep_view(),
    ));
    let mut pipe = empty_pipeline();
    queue(&mut pipe, &eval, Ghost(Seq::empty()));
    assert(Seq::<CommandView>::empty().push(eval.deep_view()) == seq![eval.deep_view()]);
    Ok(pipe)
}

/// The request for the fields `fields` of every entity of `collection_name`:
/// one script call, which scans the store for the collection's keys. A field
/// that the schema does not declare is refused.
pub fn get_all_partial_records_in_collection(
    collection_name: &str,
    meta: &CollectionMeta,
    fields: &Vec<String>,
) -> (r: Result<redis::Pipeline, Error>)
    ensures
        match r {
            Ok(pipe) => first_unknown(meta@.schema, fields.deep_view(), 0) is None
                && holds_commands(
                pipe,
                seq![select_all_partial(collection_name@, meta@.nested_fields, fields.deep_view())],
            ),
            Err(e) => first_unknown(meta@.schema, fields.deep_view(), 0) matches Some(name) && e@
                == (ErrorView::UnknownField { field: name }),
        },
{
    if let Some(name) = find_unknown_field(meta, fields) {
        return Err(Error::UnknownField { field: name });
    }
    let mut eval = command("EVAL");
    push_arg(&mut eval, SELECT_SOME_FIELDS_FOR_ALL_IDS_SCRIPT.to_owned());
    push_arg(&mut eval, u64_text(0));
    push_arg(&mut eval, generate_collection_key_pattern(collection_name));
    push_args(&mut eval, fields);
    push_requested_nested(&mut eval, fields, &meta.nested_fields);
    assert(meta.nested_fields.deep_view().len() == meta.nested_fields.len());
    assert(eval.deep_view() =~= select_all_partial(
        collection_name@,
        meta@.nested_fields,
        fields.deep_view(),
    ));
    let mut pipe = empty_pipeline();
    queue(&mut pipe, &eval, Ghost(Seq::empty()));
    assert(Seq::<CommandView>::empty().push(eval.deep_view()) == seq![eval.deep_view()]);
    Ok(pipe)
}

/// The request for every field of every entity of `collection_name`: one
/// script call, which scans the store for the collection's keys.
pub fn get_all_records_in_collection(collection_name: &str, meta: &CollectionMeta) -> (pipe:
    redis::Pipeline)
    ensures
        holds_commands(pipe, seq![select_all(collection_name@, meta@.nested_fields)]),
{
    let mut eval = command("EVAL");
    push_arg(&mut eval, SELECT_ALL_FIELDS_FOR_ALL_IDS_SCRIPT.to_owned());
    push_arg(&mut eval, u64_text(0));
    push_arg(&mut eval, generate_collection_key_pattern(collection_name));
    push_args(&mut eval, &meta.nested_fields);
    assert(eval.deep_view() =~= select_all(collection_name@, meta@.nested_fields));
    let mut pipe = empty_pipeline();
    queue(&mut pipe, &eval, Ghost(Seq::empty()));
    assert(Seq::<CommandView>::empty().push(eval.deep_view()) == seq![eval.deep_view()]);
    pipe
}

} // verus!
