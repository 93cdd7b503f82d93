use orredis::collections::CollectionMeta;
use orredis::errors::{Error, TypeTag};
use orredis::field_types::{FieldType, Schema};
use orredis::responses::parse_lua_script_response;
use orredis::store_values::StoreValue;
use orredis::values::{Record, Value};

fn data(s: &str) -> StoreValue {
    StoreValue::Data(s.as_bytes().to_vec())
}

fn text(s: &str) -> Value {
    Value::Str(s.to_string())
}

fn person_meta() -> CollectionMeta {
    let pet_schema = Schema { mapping: vec![("name".to_string(), FieldType::Str)] };
    let schema = Schema {
        mapping: vec![
            ("name".to_string(), FieldType::Str),
            ("age".to_string(), FieldType::Int),
            (
                "pet".to_string(),
                FieldType::Nested {
                    model_name: "pet".to_string(),
                    schema: Box::new(pet_schema),
                    primary_key_field: "name".to_string(),
                },
            ),
        ],
    };
    CollectionMeta::new(Box::new(schema), "name".to_string(), vec!["pet".to_string()])
}

fn response(entities: Vec<StoreValue>) -> StoreValue {
    StoreValue::Bulk(vec![StoreValue::Bulk(entities)])
}

fn ada_entity() -> StoreValue {
    StoreValue::Bulk(vec![
        data("name"),
        data("Ada"),
        data("age"),
        data("30"),
        data("pet"),
        StoreValue::Bulk(vec![data("name"), data("Rex")]),
    ])
}

fn ada_fields() -> Vec<(String, Value)> {
    vec![
        ("name".to_string(), text("Ada")),
        ("age".to_string(), Value::Int(30)),
        ("pet".to_string(), Value::Nested(vec![("name".to_string(), text("Rex"))])),
    ]
}

#[test]
fn entities_become_records() {
    let bo = StoreValue::Bulk(vec![data("name"), data("Bo"), data("age"), data("4")]);
    assert_eq!(
        parse_lua_script_response(&person_meta(), true, &response(vec![ada_entity(), bo])),
        Ok(vec![
            Record::Full { data: ada_fields() },
            Record::Full {
                data: vec![("name".to_string(), text("Bo")), ("age".to_string(), Value::Int(4))]
            },
        ])
    );
}

#[test]
fn a_projection_gives_partial_records() {
    let entity = StoreValue::Bulk(vec![data("age"), data("30")]);
    assert_eq!(
        parse_lua_script_response(&person_meta(), false, &response(vec![entity])),
        Ok(vec![Record::Partial { data: vec![("age".to_string(), Value::Int(30))] }])
    );
}

#[test]
fn an_entity_that_was_not_there_gives_no_record() {
    let found = parse_lua_script_response(
        &person_meta(),
        true,
        &response(vec![ada_entity(), StoreValue::Bulk(vec![])]),
    );
    assert_eq!(found, Ok(vec![Record::Full { data: ada_fields() }]));
    let found = parse_lua_script_response(
        &person_meta(),
        true,
        &response(vec![StoreValue::Bulk(vec![]), StoreValue::Bulk(vec![])]),
    );
    assert_eq!(found, Ok(vec![]));
    assert_eq!(parse_lua_script_response(&person_meta(), true, &response(vec![])), Ok(vec![]));
}

#[test]
fn a_response_of_another_shape_is_malformed() {
    let meta = person_meta();
    for result in [
        StoreValue::Int(1),
        StoreValue::Okay,
        StoreValue::Nil,
        StoreValue::Bulk(vec![]),
        StoreValue::Bulk(vec![StoreValue::Int(1)]),
        StoreValue::Bulk(vec![data("x")]),
        response(vec![StoreValue::Nil]),
        response(vec![data("name")]),
        response(vec![ada_entity(), StoreValue::Int(0)]),
        response(vec![StoreValue::Bulk(vec![data("name")])]),
        response(vec![StoreValue::Bulk(vec![data("name"), data("Ada"), data("age")])]),
        response(vec![StoreValue::Bulk(vec![StoreValue::Nil, data("Ada")])]),
    ] {
        assert_eq!(
            parse_lua_script_response(&meta, true, &result),
            Err(Error::MalformedResponse),
            "result {:?}",
            result
        );
    }
}

#[test]
fn no_value_for_the_entities_is_no_entity() {
    assert_eq!(
        parse_lua_script_response(&person_meta(), true, &StoreValue::Bulk(vec![StoreValue::Nil])),
        Ok(vec![])
    );
}

#[test]
fn the_first_entity_that_fails_decides() {
    let bad_age = StoreValue::Bulk(vec![data("age"), data("old")]);
    let unknown = StoreValue::Bulk(vec![data("colour"), data("red")]);
    assert_eq!(
        parse_lua_script_response(
            &person_meta(),
            true,
            &response(vec![ada_entity(), bad_age, unknown])
        ),
        Err(Error::TypeMismatch {
            field: "age".to_string(),
            value: Some("old".to_string()),
            expected: TypeTag::Int,
        })
    );
    let unknown = StoreValue::Bulk(vec![data("colour"), data("red")]);
    assert_eq!(
        parse_lua_script_response(&person_meta(), false, &response(vec![unknown])),
        Err(Error::UnknownField { field: "colour".to_string() })
    );
}
