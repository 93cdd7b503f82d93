use orredis::collections::CollectionMeta;
use orredis::errors::Error;
use orredis::field_types::{FieldType, Schema};
use orredis::requests::{
    find_unknown_field, generate_hash_keys, get_all_partial_records_in_collection,
    get_all_records_in_collection, get_partial_records_by_id, get_records_by_id,
    insert_on_pipeline, insert_records, remove_records, SELECT_ALL_FIELDS_FOR_ALL_IDS_SCRIPT,
    SELECT_ALL_FIELDS_FOR_SOME_IDS_SCRIPT, SELECT_SOME_FIELDS_FOR_ALL_IDS_SCRIPT,
    SELECT_SOME_FIELDS_FOR_SOME_IDS_SCRIPT,
};
use orredis::utils::FlatRecord;

fn commands(pipe: &redis::Pipeline) -> Vec<Vec<String>> {
    pipe.cmd_iter()
        .map(|cmd| {
            cmd.args_iter()
                .map(|arg| match arg {
                    redis::Arg::Simple(bytes) => String::from_utf8(bytes.to_vec()).unwrap(),
                    redis::Arg::Cursor => panic!("no cursor is expected"),
                })
                .collect()
        })
        .collect()
}

fn words(items: &[&str]) -> Vec<String> {
    items.iter().map(|s| s.to_string()).collect()
}

fn pet() -> FlatRecord {
    FlatRecord {
        collection: "pet".to_string(),
        key: "pet_%&_Rex".to_string(),
        fields: vec![("name".to_string(), "Rex".to_string())],
    }
}

fn person() -> FlatRecord {
    FlatRecord {
        collection: "person".to_string(),
        key: "person_%&_Ada".to_string(),
        fields: vec![
            ("name".to_string(), "Ada".to_string()),
            ("age".to_string(), "30".to_string()),
            ("pet".to_string(), "pet_%&_Rex".to_string()),
        ],
    }
}

fn person_meta() -> CollectionMeta {
    let pet_schema = Schema { mapping: vec![("name".to_string(), FieldType::Str)] };
    let schema = Schema {
        mapping: vec![
            ("name".to_string(), FieldType::Str),
            ("age".to_string(), FieldType::Int),
            (
                "pet".to_string(),
                FieldType::Nested {
                    model_name: "pet".to_string(),
                    schema: Box::new(pet_schema),
                    primary_key_field: "name".to_string(),
                },
            ),
        ],
    };
    CollectionMeta::new(Box::new(schema), "name".to_string(), words(&["pet"]))
}

#[test]
fn records_are_written_in_one_transaction() {
    let pipe = insert_records(&vec![pet(), person()], &None);
    assert_eq!(
        commands(&pipe),
        vec![
            words(&["MULTI"]),
            words(&["HSET", "pet_%&_Rex", "name", "Rex"]),
            words(&["SADD", "pet__index", "pet_%&_Rex"]),
            words(&["HSET", "person_%&_Ada", "name", "Ada", "age", "30", "pet", "pet_%&_Rex"]),
            words(&["SADD", "person__index", "person_%&_Ada"]),
            words(&["EXEC"]),
        ]
    );
}

#[test]
fn with_a_time_to_live_every_written_key_expires() {
    let pipe = insert_records(&vec![pet()], &Some(3600));
    assert_eq!(
        commands(&pipe),
        vec![
            words(&["MULTI"]),
            words(&["HSET", "pet_%&_Rex", "name", "Rex"]),
            words(&["SADD", "pet__index", "pet_%&_Rex"]),
            words(&["EXPIRE", "pet_%&_Rex", "3600"]),
            words(&["EXPIRE", "pet__index", "3600"]),
            words(&["EXEC"]),
        ]
    );
}

#[test]
fn no_records_give_an_empty_transaction() {
    let pipe = insert_records(&vec![], &Some(5));
    assert_eq!(commands(&pipe), vec![words(&["MULTI"]), words(&["EXEC"])]);
}

#[test]
fn the_pipeline_is_what_goes_over_the_wire() {
    let pipe = insert_records(&vec![pet()], &None);
    let expected = "*1\r\n$5\r\nMULTI\r\n\
                    *4\r\n$4\r\nHSET\r\n$10\r\npet_%&_Rex\r\n$4\r\nname\r\n$3\r\nRex\r\n\
                    *3\r\n$4\r\nSADD\r\n$10\r\npet__index\r\n$10\r\npet_%&_Rex\r\n\
                    *1\r\n$4\r\nEXEC\r\n";
    assert_eq!(pipe.get_packed_pipeline(), expected.as_bytes().to_vec());
}

#[test]
fn text_goes_over_the_wire_in_utf8() {
    let record = FlatRecord {
        collection: "caf\u{e9}".to_string(),
        key: "caf\u{e9}_%&_1".to_string(),
        fields: vec![("name".to_string(), "\u{1f600}".to_string())],
    };
    let mut pipe = redis::pipe();
    pipe.cmd("PING");
    let name = insert_on_pipeline(&mut pipe, &record, &Some(1));
    assert_eq!(name, "caf\u{e9}_%&_1");
    assert_eq!(
        commands(&pipe),
        vec![
            words(&["PING"]),
            words(&["HSET", "caf\u{e9}_%&_1", "name", "\u{1f600}"]),
            words(&["SADD", "caf\u{e9}__index", "caf\u{e9}_%&_1"]),
            words(&["EXPIRE", "caf\u{e9}_%&_1", "1"]),
            words(&["EXPIRE", "caf\u{e9}__index", "1"]),
        ]
    );
}

#[test]
fn records_are_removed_in_one_transaction() {
    let pipe = remove_records("person", &words(&["person_%&_Ada", "person_%&_Bo"]));
    assert_eq!(
        commands(&pipe),
        vec![
            words(&["MULTI"]),
            words(&["DEL", "person_%&_Ada", "person_%&_Bo"]),
            words(&["SREM", "person__index", "person_%&_Ada", "person_%&_Bo"]),
            words(&["EXEC"]),
        ]
    );
}

#[test]
fn keys_of_ids() {
    assert_eq!(
        generate_hash_keys("person", &words(&["Ada", "Bo"])),
        words(&["person_%&_Ada", "person_%&_Bo"])
    );
    assert_eq!(generate_hash_keys("person", &vec![]), Vec::<String>::new());
}

#[test]
fn all_fields_of_some_ids() {
    let pipe = get_records_by_id("person", &person_meta(), &words(&["Ada", "Bo"]));
    assert_eq!(
        commands(&pipe),
        vec![words(&[
            "EVAL",
            SELECT_ALL_FIELDS_FOR_SOME_IDS_SCRIPT,
            "2",
            "person_%&_Ada",
            "person_%&_Bo",
            "pet",
        ])]
    );
}

#[test]
fn some_fields_of_some_ids() {
    let pipe =
        get_partial_records_by_id("person", &person_meta(), &words(&["Ada"]), &words(&["age"]))
            .unwrap();
    assert_eq!(
        commands(&pipe),
        vec![words(&["EVAL", SELECT_SOME_FIELDS_FOR_SOME_IDS_SCRIPT, "1", "person_%&_Ada", "age"])]
    );
}

#[test]
fn a_nested_field_that_is_asked_for_is_named_twice() {
    let pipe = get_partial_records_by_id(
        "person",
        &person_meta(),
        &words(&["Ada"]),
        &words(&["pet", "age"]),
    )
    .unwrap();
    assert_eq!(
        commands(&pipe),
        vec![words(&[
            "EVAL",
            SELECT_SOME_FIELDS_FOR_SOME_IDS_SCRIPT,
            "1",
            "person_%&_Ada",
            "pet",
            "age",
            "pet",
        ])]
    );
}

#[test]
fn all_fields_of_all_ids() {
    let pipe = get_all_records_in_collection("person", &person_meta());
    assert_eq!(
        commands(&pipe),
        vec![words(&["EVAL", SELECT_ALL_FIELDS_FOR_ALL_IDS_SCRIPT, "0", "person_%&_*", "pet"])]
    );
}

#[test]
fn some_fields_of_all_ids() {
    let pipe =
        get_all_partial_records_in_collection("person", &person_meta(), &words(&["name", "pet"]))
            .unwrap();
    assert_eq!(
        commands(&pipe),
        vec![words(&[
            "EVAL",
            SELECT_SOME_FIELDS_FOR_ALL_IDS_SCRIPT,
            "0",
            "person_%&_*",
            "name",
            "pet",
            "pet",
        ])]
    );
}

#[test]
fn a_field_that_the_schema_does_not_declare_is_refused() {
    let meta = person_meta();
    assert_eq!(find_unknown_field(&meta, &words(&["age", "colour", "size"])), Some("colour".to_string()));
    assert_eq!(find_unknown_field(&meta, &words(&["age", "name"])), None);
    let refused = get_partial_records_by_id("person", &meta, &words(&["Ada"]), &words(&["colour"]));
    assert_eq!(refused.err(), Some(Error::UnknownField { field: "colour".to_string() }));
    let refused = get_all_partial_records_in_collection("person", &meta, &words(&["age", "size"]));
    assert_eq!(refused.err(), Some(Error::UnknownField { field: "size".to_string() }));
}

#[test]
fn the_scripts_are_the_ones_the_store_knows() {
    assert!(SELECT_ALL_FIELDS_FOR_SOME_IDS_SCRIPT.starts_with("local result = {} local nested_fields = {}"));
    assert!(SELECT_ALL_FIELDS_FOR_SOME_IDS_SCRIPT.ends_with("table.insert(result, parent) end return result"));
    assert_eq!(SELECT_ALL_FIELDS_FOR_SOME_IDS_SCRIPT.len(), 359);
    assert_eq!(SELECT_SOME_FIELDS_FOR_SOME_IDS_SCRIPT.len(), 616);
    assert_eq!(SELECT_ALL_FIELDS_FOR_ALL_IDS_SCRIPT.len(), 564);
    assert_eq!(SELECT_SOME_FIELDS_FOR_ALL_IDS_SCRIPT.len(), 808);
    assert!(SELECT_SOME_FIELDS_FOR_ALL_IDS_SCRIPT.contains("redis.call('SCAN', cursor, 'MATCH', ARGV[1])"));
}
