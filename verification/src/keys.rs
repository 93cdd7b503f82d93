//! The key scheme: where the hash of an entity lives in the store, which
//! pattern matches all the hashes of a collection, and which set indexes
//! them.

use vstd::prelude::*;
use vstd::string::*;

verus! {

/// The text `_%&_` that stands between a collection's name and an id.
pub open spec fn key_separator() -> Seq<char> {
    seq!['_', '%', '&', '_']
}

/// The key of the entity `id` of the collection `collection`.
pub open spec fn hash_key(collection: Seq<char>, id: Seq<char>) -> Seq<char> {
    collection + key_separator() + id
}

/// The pattern that matches the keys of the entities of `collection`.
pub open spec fn collection_key_pattern(collection: Seq<char>) -> Seq<char> {
    collection + key_separator() + seq!['*']
}

/// The key of the set that indexes the entities of `collection`.
pub open spec fn model_index(collection: Seq<char>) -> Seq<char> {
    collection + seq!['_', '_', 'i', 'n', 'd', 'e', 'x']
}

/// The key under which the hash of the entity `id` of `collection_name` is
/// stored. Ids are not escaped: the key is the plain concatenation.
pub fn generate_hash_key(collection_name: &str, id: &str) -> (key: String)
    ensures
        key@ == hash_key(collection_name@, id@),
{
    let mut key = String::from_str(collection_name);
    proof {
        reveal_strlit("_%&_");
    }
    key.append("_%&_");
    key.append(id);
    assert("_%&_"@ == key_separator());
    key
}

/// The key under which the hash of the entity `key` of `model_name` is
/// stored; the same key as `generate_hash_key` gives.
pub fn get_primary_key(model_name: &str, key: &str) -> (name: String)
    ensures
        name@ == hash_key(model_name@, key@),
{
    generate_hash_key(model_name, key)
}

/// The pattern that a scan of the store matches against to find every hash
/// of `collection_name`.
pub fn generate_collection_key_pattern(collection_name: &str) -> (pattern: String)
    ensures
        pattern@ == collection_key_pattern(collection_name@),
{
    let mut pattern = String::from_str(collection_name);
    proof {
        reveal_strlit("_%&_*");
    }
    pattern.append("_%&_*");
    assert("_%&_*"@ == key_separator() + seq!['*']);
    assert(collection_name@ + (key_separator() + seq!['*']) == collection_name@ + key_separator()
        + seq!['*']);
    pattern
}

/// The key of the set that holds the keys of all entities of `model_name`.
pub fn get_model_index(model_name: &str) -> (index: String)
    ensures
        index@ == model_index(model_name@),
{
    let mut index = String::from_str(model_name);
    proof {
        reveal_strlit("__index");
    }
    index.append("__index");
    assert("__index"@ == seq!['_', '_', 'i', 'n', 'd', 'e', 'x']);
    index
}

/// Within one collection, different ids have different keys.
pub proof fn lemma_key_injective_in_id(collection: Seq<char>, id1: Seq<char>, id2: Seq<char>)
    requires
        hash_key(collection, id1) == hash_key(collection, id2),
    ensures
        id1 == id2,
{
    let prefix = collection + key_separator();
    let k1 = hash_key(collection, id1);
    let k2 = hash_key(collection, id2);
    assert(k1.skip(prefix.len() as int) == id1);
    assert(k2.skip(prefix.len() as int) == id2);
}

/// Two different collections never share a key for the same id.
pub proof fn lemma_key_injective_in_collection(
    collection1: Seq<char>,
    collection2: Seq<char>,
    id: Seq<char>,
)
    requires
        hash_key(collection1, id) == hash_key(collection2, id),
    ensures
        collection1 == collection2,
{
    let k1 = hash_key(collection1, id);
    let k2 = hash_key(collection2, id);
    assert(k1.len() == collection1.len() + 4 + id.len());
    assert(k2.len() == collection2.len() + 4 + id.len());
    assert(k1.take(collection1.len() as int) == collection1);
    assert(k2.take(collection2.len() as int) == collection2);
}

/// Whether `s` holds an underscore, the character with which the separator
/// begins.
pub open spec fn has_underscore(s: Seq<char>) -> bool {
    exists|i: int| 0 <= i < s.len() && s[i] == '_'
}

/// Where no collection name holds an underscore, the key determines both the
/// collection and the id. (Without that condition it does not: the separator
/// is not escaped, so a name or an id that holds part of it can pass for
/// another pair.)
pub proof fn lemma_key_injective(
    collection1: Seq<char>,
    id1: Seq<char>,
    collection2: Seq<char>,
    id2: Seq<char>,
)
    requires
        !has_underscore(collection1),
        !has_underscore(collection2),
        hash_key(collection1, id1) == hash_key(collection2, id2),
    ensures
        collection1 == collection2,
        id1 == id2,
{
    let k1 = hash_key(collection1, id1);
    let k2 = hash_key(collection2, id2);
    let n1 = collection1.len() as int;
    let n2 = collection2.len() as int;
    assert(k1[n1] == '_');
    assert(k2[n2] == '_');
    if n1 < n2 {
        assert(k2[n1] == collection2[n1]);
        assert(false);
    }
    if n2 < n1 {
        assert(k1[n2] == collection1[n2]);
        assert(false);
    }
    assert(k1.take(n1) == collection1);
    assert(k2.take(n2) == collection2);
    lemma_key_injective_in_id(collection1, id1, id2);
}

} // verus!
