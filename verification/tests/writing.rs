use orredis::field_types::{FieldType, Schema};
use orredis::utils::value_plain_text;
use orredis::values::Value;

fn text(s: &str) -> Value {
    Value::Str(s.to_string())
}

fn some(s: &str) -> Option<String> {
    Some(s.to_string())
}

fn list_of(items: FieldType) -> FieldType {
    FieldType::List { items: Box::new(items) }
}

fn pet_type() -> FieldType {
    FieldType::Nested {
        model_name: "pet".to_string(),
        schema: Box::new(Schema { mapping: vec![("name".to_string(), FieldType::Str)] }),
        primary_key_field: "name".to_string(),
    }
}

#[test]
fn scalars_have_a_canonical_text() {
    assert_eq!(FieldType::Str.to_text(&text("Ada")), some("Ada"));
    assert_eq!(FieldType::Int.to_text(&Value::Int(30)), some("30"));
    assert_eq!(FieldType::Int.to_text(&Value::Int(-30)), some("-30"));
    assert_eq!(FieldType::Float.to_text(&Value::Float("2.5".to_string())), some("2.5"));
    assert_eq!(FieldType::Bool.to_text(&Value::Bool(true)), some("true"));
    assert_eq!(FieldType::Bool.to_text(&Value::Bool(false)), some("false"));
    assert_eq!(FieldType::Null.to_text(&Value::Null), some("None"));
}

#[test]
fn instants_are_written_in_utc() {
    assert_eq!(
        FieldType::Datetime.to_text(&Value::Datetime(1664973000)),
        some("2022-10-05 12:30:00.000000+00:00")
    );
    assert_eq!(FieldType::Date.to_text(&Value::Date(1664928000)), some("2022-10-05"));
    assert_eq!(FieldType::Datetime.to_text(&Value::Datetime(i64::MAX)), None);
}

#[test]
fn collections_are_bracketed_and_separated() {
    assert_eq!(
        list_of(FieldType::Int).to_text(&Value::List(vec![Value::Int(1), Value::Int(2), Value::Int(3)])),
        some("[1, 2, 3]")
    );
    assert_eq!(list_of(FieldType::Int).to_text(&Value::List(vec![])), some("[]"));
    assert_eq!(list_of(FieldType::Str).to_text(&Value::List(vec![text("a")])), some("[a]"));
    assert_eq!(
        FieldType::Tuple { items: vec![FieldType::Int, FieldType::Str] }
            .to_text(&Value::Tuple(vec![Value::Int(1), text("a")])),
        some("(1, a)")
    );
    assert_eq!(
        FieldType::Dict { value: Box::new(FieldType::Int) }.to_text(&Value::Dict(vec![
            ("a".to_string(), Value::Int(1)),
            ("b".to_string(), Value::Int(2)),
        ])),
        some("{a: 1, b: 2}")
    );
    assert_eq!(
        list_of(list_of(FieldType::Bool))
            .to_text(&Value::List(vec![Value::List(vec![Value::Bool(true)]), Value::List(vec![])])),
        some("[[true], []]")
    );
}

#[test]
fn a_value_of_another_type_has_no_text() {
    assert_eq!(FieldType::Int.to_text(&text("30")), None);
    assert_eq!(FieldType::Float.to_text(&Value::Float("much".to_string())), None);
    assert_eq!(FieldType::Float.to_text(&Value::Float("".to_string())), None);
    assert_eq!(FieldType::Str.to_text(&Value::Int(30)), None);
    assert_eq!(FieldType::Str.to_text(&Value::Null), None);
    assert_eq!(FieldType::Bool.to_text(&Value::Int(1)), None);
    assert_eq!(FieldType::Date.to_text(&Value::Datetime(0)), None);
    assert_eq!(list_of(FieldType::Int).to_text(&Value::Tuple(vec![])), None);
    assert_eq!(
        list_of(FieldType::Int).to_text(&Value::List(vec![Value::Int(1), text("x"), Value::Int(2)])),
        None
    );
    assert_eq!(
        FieldType::Dict { value: Box::new(FieldType::Int) }
            .to_text(&Value::Dict(vec![("a".to_string(), text("x"))])),
        None
    );
    assert_eq!(
        FieldType::Tuple { items: vec![FieldType::Int, FieldType::Str] }
            .to_text(&Value::Tuple(vec![Value::Int(1)])),
        None
    );
    assert_eq!(
        FieldType::Tuple { items: vec![FieldType::Int] }.to_text(&Value::Tuple(vec![text("x")])),
        None
    );
}

#[test]
fn a_reference_inside_a_collection_is_a_key() {
    assert_eq!(pet_type().to_text(&text("pet_%&_Rex")), some("pet_%&_Rex"));
    assert_eq!(
        list_of(pet_type()).to_text(&Value::List(vec![text("pet_%&_Rex"), text("pet_%&_Max")])),
        some("[pet_%&_Rex, pet_%&_Max]")
    );
    assert_eq!(pet_type().to_text(&Value::Nested(vec![("name".to_string(), text("Rex"))])), None);
}

#[test]
fn scalars_are_read_back_from_their_text() {
    let cases = vec![
        (FieldType::Str, text("")),
        (FieldType::Str, text(" (a, 'b') ")),
        (FieldType::Int, Value::Int(0)),
        (FieldType::Int, Value::Int(i64::MIN)),
        (FieldType::Int, Value::Int(i64::MAX)),
        (FieldType::Float, Value::Float("-0.25".to_string())),
        (FieldType::Bool, Value::Bool(true)),
        (FieldType::Bool, Value::Bool(false)),
        (FieldType::Null, Value::Null),
        (FieldType::Datetime, Value::Datetime(1664973000)),
        (FieldType::Date, Value::Date(1664928000)),
    ];
    for (field_type, value) in cases {
        let written = field_type.to_text(&value).unwrap();
        assert_eq!(FieldType::parse_str(&written, &field_type), Ok(value));
    }
}

#[test]
fn simple_collections_are_read_back_from_their_text() {
    let cases = vec![
        (list_of(FieldType::Int), Value::List(vec![Value::Int(1), Value::Int(-2)])),
        (
            FieldType::Tuple { items: vec![FieldType::Bool, FieldType::Str] },
            Value::Tuple(vec![Value::Bool(true), text("x y")]),
        ),
        (
            FieldType::Dict { value: Box::new(FieldType::Str) },
            Value::Dict(vec![("a".to_string(), text("b")), ("c".to_string(), text("d"))]),
        ),
    ];
    for (field_type, value) in cases {
        let written = field_type.to_text(&value).unwrap();
        assert_eq!(FieldType::parse_str(&written, &field_type), Ok(value));
    }
}

#[test]
fn the_text_of_a_value_in_a_key() {
    assert_eq!(value_plain_text(&text("Ada")), some("Ada"));
    assert_eq!(value_plain_text(&Value::Int(7)), some("7"));
    assert_eq!(value_plain_text(&Value::Float("1.5".to_string())), some("1.5"));
    assert_eq!(value_plain_text(&Value::Float("x".to_string())), None);
    assert_eq!(value_plain_text(&Value::Bool(true)), some("true"));
    assert_eq!(value_plain_text(&Value::Date(0)), some("1970-01-01"));
    assert_eq!(value_plain_text(&Value::Datetime(0)), some("1970-01-01 00:00:00.000000+00:00"));
    assert_eq!(value_plain_text(&Value::Null), None);
    assert_eq!(value_plain_text(&Value::List(vec![])), None);
    assert_eq!(value_plain_text(&Value::Nested(vec![])), None);
}
