use orredis::errors::{Error, TypeTag};
use orredis::field_types::{FieldType, Schema};
use orredis::utils::{key_of_record, prepare_record_to_insert, FlatRecord};
use orredis::values::{find_field, put_field, Record, Value};

fn text(s: &str) -> Value {
    Value::Str(s.to_string())
}

fn pair(name: &str, value: &str) -> (String, String) {
    (name.to_string(), value.to_string())
}

fn pet_schema() -> Schema {
    Schema { mapping: vec![("name".to_string(), FieldType::Str)] }
}

fn person_schema() -> Schema {
    Schema {
        mapping: vec![
            ("name".to_string(), FieldType::Str),
            ("age".to_string(), FieldType::Int),
            (
                "pet".to_string(),
                FieldType::Nested {
                    model_name: "pet".to_string(),
                    schema: Box::new(pet_schema()),
                    primary_key_field: "name".to_string(),
                },
            ),
        ],
    }
}

fn ada() -> Vec<(String, Value)> {
    vec![
        ("name".to_string(), text("Ada")),
        ("age".to_string(), Value::Int(30)),
        ("pet".to_string(), Value::Nested(vec![("name".to_string(), text("Rex"))])),
    ]
}

#[test]
fn a_record_with_a_nested_entity_gives_two_hashes() {
    let flat = prepare_record_to_insert("person", &person_schema(), &ada(), "name", None).unwrap();
    assert_eq!(
        flat,
        vec![
            FlatRecord {
                collection: "pet".to_string(),
                key: "pet_%&_Rex".to_string(),
                fields: vec![pair("name", "Rex")],
            },
            FlatRecord {
                collection: "person".to_string(),
                key: "person_%&_Ada".to_string(),
                fields: vec![pair("name", "Ada"), pair("age", "30"), pair("pet", "pet_%&_Rex")],
            },
        ]
    );
}

#[test]
fn fields_come_in_the_order_of_the_schema() {
    let data = vec![
        ("age".to_string(), Value::Int(5)),
        ("colour".to_string(), text("red")),
        ("name".to_string(), text("Bo")),
    ];
    let flat = prepare_record_to_insert("person", &person_schema(), &data, "name", None).unwrap();
    assert_eq!(
        flat,
        vec![FlatRecord {
            collection: "person".to_string(),
            key: "person_%&_Bo".to_string(),
            fields: vec![pair("name", "Bo"), pair("age", "5")],
        }]
    );
}

#[test]
fn an_absent_nested_entity_is_passed_over() {
    let data = vec![("name".to_string(), text("Ada")), ("pet".to_string(), Value::Null)];
    let flat = prepare_record_to_insert("person", &person_schema(), &data, "name", None).unwrap();
    assert_eq!(
        flat,
        vec![FlatRecord {
            collection: "person".to_string(),
            key: "person_%&_Ada".to_string(),
            fields: vec![pair("name", "Ada")],
        }]
    );
}

#[test]
fn a_record_without_its_primary_key_is_a_key_error() {
    let data = vec![("age".to_string(), Value::Int(30))];
    assert_eq!(
        prepare_record_to_insert("person", &person_schema(), &data, "name", None),
        Err(Error::MissingKey { field: "name".to_string() })
    );
}

#[test]
fn a_nested_entity_without_its_primary_key_is_a_key_error() {
    let data = vec![
        ("name".to_string(), text("Ada")),
        ("pet".to_string(), Value::Nested(vec![])),
    ];
    assert_eq!(
        prepare_record_to_insert("person", &person_schema(), &data, "name", None),
        Err(Error::MissingKey { field: "name".to_string() })
    );
}

#[test]
fn an_update_is_written_under_the_given_id() {
    let data = vec![("age".to_string(), Value::Int(31))];
    let flat =
        prepare_record_to_insert("person", &person_schema(), &data, "name", Some("Ada")).unwrap();
    assert_eq!(
        flat,
        vec![FlatRecord {
            collection: "person".to_string(),
            key: "person_%&_Ada".to_string(),
            fields: vec![pair("age", "31")],
        }]
    );
}

#[test]
fn a_value_of_another_type_is_a_mismatch_that_names_the_field() {
    let data = vec![("name".to_string(), text("Ada")), ("age".to_string(), text("thirty"))];
    assert_eq!(
        prepare_record_to_insert("person", &person_schema(), &data, "name", None),
        Err(Error::TypeMismatch { field: "age".to_string(), value: None, expected: TypeTag::Int })
    );
    let data = vec![("name".to_string(), text("Ada")), ("pet".to_string(), text("Rex"))];
    assert_eq!(
        prepare_record_to_insert("person", &person_schema(), &data, "name", None),
        Err(Error::TypeMismatch { field: "pet".to_string(), value: None, expected: TypeTag::Nested })
    );
}

#[test]
fn the_key_is_made_of_the_text_of_the_primary_key() {
    let schema = Schema { mapping: vec![("id".to_string(), FieldType::Int)] };
    let data = vec![("id".to_string(), Value::Int(42))];
    let flat = prepare_record_to_insert("item", &schema, &data, "id", None).unwrap();
    assert_eq!(flat[0].key, "item_%&_42");
    assert_eq!(key_of_record("item", &data, "id", None), Ok("item_%&_42".to_string()));
    assert_eq!(key_of_record("item", &data, "id", Some("x")), Ok("item_%&_x".to_string()));
    assert_eq!(
        key_of_record("item", &data, "name", None),
        Err(Error::MissingKey { field: "name".to_string() })
    );
    let data = vec![("id".to_string(), Value::List(vec![]))];
    assert_eq!(
        key_of_record("item", &data, "id", None),
        Err(Error::TypeMismatch { field: "id".to_string(), value: None, expected: TypeTag::Str })
    );
}

#[test]
fn entities_are_flattened_through_every_level() {
    let toy = Schema { mapping: vec![("label".to_string(), FieldType::Str)] };
    let pet = Schema {
        mapping: vec![
            ("name".to_string(), FieldType::Str),
            (
                "toy".to_string(),
                FieldType::Nested {
                    model_name: "toy".to_string(),
                    schema: Box::new(toy),
                    primary_key_field: "label".to_string(),
                },
            ),
        ],
    };
    let person = Schema {
        mapping: vec![
            (
                "pet".to_string(),
                FieldType::Nested {
                    model_name: "pet".to_string(),
                    schema: Box::new(pet),
                    primary_key_field: "name".to_string(),
                },
            ),
            ("name".to_string(), FieldType::Str),
        ],
    };
    let data = vec![
        ("name".to_string(), text("Ada")),
        (
            "pet".to_string(),
            Value::Nested(vec![
                ("name".to_string(), text("Rex")),
                ("toy".to_string(), Value::Nested(vec![("label".to_string(), text("ball"))])),
            ]),
        ),
    ];
    let flat = prepare_record_to_insert("person", &person, &data, "name", None).unwrap();
    assert_eq!(
        flat,
        vec![
            FlatRecord {
                collection: "toy".to_string(),
                key: "toy_%&_ball".to_string(),
                fields: vec![pair("label", "ball")],
            },
            FlatRecord {
                collection: "pet".to_string(),
                key: "pet_%&_Rex".to_string(),
                fields: vec![pair("name", "Rex"), pair("toy", "toy_%&_ball")],
            },
            FlatRecord {
                collection: "person".to_string(),
                key: "person_%&_Ada".to_string(),
                fields: vec![pair("pet", "pet_%&_Rex"), pair("name", "Ada")],
            },
        ]
    );
}

#[test]
fn fields_of_a_record_by_name() {
    let mut fields = ada();
    assert_eq!(find_field(&fields, "age"), Some(1));
    assert_eq!(find_field(&fields, "colour"), None);
    put_field(&mut fields, "age".to_string(), Value::Int(31));
    put_field(&mut fields, "colour".to_string(), text("red"));
    assert_eq!(fields.len(), 4);
    assert_eq!(fields[1], ("age".to_string(), Value::Int(31)));
    assert_eq!(fields[3], ("colour".to_string(), text("red")));
    let record = Record::Partial { data: fields };
    assert_eq!(record.extract_data().len(), 4);
    assert_eq!(Record::Full { data: ada() }.extract_data(), &ada());
}

#[test]
fn the_primary_key_of_a_record() {
    let record = Record::Full { data: ada() };
    assert_eq!(record.generate_primary_key("person", "name"), Ok("person_%&_Ada".to_string()));
    assert_eq!(record.generate_primary_key("person", "age"), Ok("person_%&_30".to_string()));
    assert_eq!(
        record.generate_primary_key("person", "id"),
        Err(Error::MissingKey { field: "id".to_string() })
    );
    assert_eq!(
        record.generate_primary_key("person", "pet"),
        Err(Error::TypeMismatch { field: "pet".to_string(), value: None, expected: TypeTag::Str })
    );
}
