use orredis::keys::{
    generate_collection_key_pattern, generate_hash_key, get_model_index, get_primary_key,
};

#[test]
fn hash_key_joins_collection_and_id() {
    assert_eq!(generate_hash_key("person", "7"), "person_%&_7");
    assert_eq!(generate_hash_key("", ""), "_%&_");
}

#[test]
fn primary_key_is_the_hash_key() {
    assert_eq!(get_primary_key("pet", "rex"), "pet_%&_rex");
    assert_eq!(get_primary_key("pet", "rex"), generate_hash_key("pet", "rex"));
}

#[test]
fn key_pattern_matches_every_id() {
    assert_eq!(generate_collection_key_pattern("person"), "person_%&_*");
}

#[test]
fn model_index_key() {
    assert_eq!(get_model_index("person"), "person__index");
}

#[test]
fn different_collections_do_not_collide_on_one_id() {
    assert_ne!(generate_hash_key("person", "1"), generate_hash_key("pet", "1"));
}

#[test]
fn separator_is_not_escaped() {
    assert_eq!(generate_hash_key("a", "%&_z"), generate_hash_key("a_%&", "z"));
}
