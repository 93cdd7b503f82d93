use orredis::errors::{Error, Mismatch, TypeTag};
use orredis::field_types::{FieldType, Schema};
use orredis::reading::read_fields;
use orredis::store_values::StoreValue;
use orredis::values::Value;

fn text(s: &str) -> Value {
    Value::Str(s.to_string())
}

fn data(s: &str) -> StoreValue {
    StoreValue::Data(s.as_bytes().to_vec())
}

fn mismatch(value: &str, expected: TypeTag) -> Mismatch {
    Mismatch { value: Some(value.to_string()), expected }
}

fn list_of(items: FieldType) -> FieldType {
    FieldType::List { items: Box::new(items) }
}

fn pet_schema() -> Schema {
    Schema { mapping: vec![("name".to_string(), FieldType::Str), ("age".to_string(), FieldType::Int)] }
}

fn pet_type() -> FieldType {
    FieldType::Nested {
        model_name: "pet".to_string(),
        schema: Box::new(pet_schema()),
        primary_key_field: "name".to_string(),
    }
}

#[test]
fn texts_are_taken_as_they_stand() {
    assert_eq!(FieldType::parse_str(" a b ", &FieldType::Str), Ok(text(" a b ")));
    assert_eq!(FieldType::parse_str("", &FieldType::Str), Ok(text("")));
    assert_eq!(FieldType::parse_str("1.50", &FieldType::Float), Ok(Value::Float("1.50".to_string())));
    assert_eq!(FieldType::parse_str("pet_%&_rex", &pet_type()), Ok(text("pet_%&_rex")));
}

#[test]
fn numbers_with_a_fraction_are_taken_as_they_are_written() {
    assert_eq!(FieldType::parse_str("-2.5e3", &FieldType::Float), Ok(Value::Float("-2.5e3".to_string())));
    assert_eq!(FieldType::parse_str("nan", &FieldType::Float), Ok(Value::Float("nan".to_string())));
    assert_eq!(FieldType::parse_str("2,5", &FieldType::Float), Err(mismatch("2,5", TypeTag::Float)));
    assert_eq!(FieldType::parse_str("", &FieldType::Float), Err(mismatch("", TypeTag::Float)));
    assert_eq!(
        FieldType::Float.parse_reply("score", &data("high")),
        Err(Error::TypeMismatch {
            field: "score".to_string(),
            value: Some("high".to_string()),
            expected: TypeTag::Float,
        })
    );
}

#[test]
fn integers_are_read_in_decimal() {
    assert_eq!(FieldType::parse_str("30", &FieldType::Int), Ok(Value::Int(30)));
    assert_eq!(FieldType::parse_str("-4", &FieldType::Int), Ok(Value::Int(-4)));
    assert_eq!(FieldType::parse_str("thirty", &FieldType::Int), Err(mismatch("thirty", TypeTag::Int)));
    assert_eq!(FieldType::parse_str("", &FieldType::Int), Err(mismatch("", TypeTag::Int)));
}

#[test]
fn truth_values_are_read_in_lower_case() {
    assert_eq!(FieldType::parse_str("true", &FieldType::Bool), Ok(Value::Bool(true)));
    assert_eq!(FieldType::parse_str("false", &FieldType::Bool), Ok(Value::Bool(false)));
    assert_eq!(FieldType::parse_str("True", &FieldType::Bool), Err(mismatch("True", TypeTag::Bool)));
    assert_eq!(FieldType::parse_str("1", &FieldType::Bool), Err(mismatch("1", TypeTag::Bool)));
}

#[test]
fn nothing_is_read_from_any_text() {
    assert_eq!(FieldType::parse_str("None", &FieldType::Null), Ok(Value::Null));
    assert_eq!(FieldType::parse_str("whatever", &FieldType::Null), Ok(Value::Null));
}

#[test]
fn instants_and_days_are_read_in_their_formats() {
    assert_eq!(
        FieldType::parse_str("2022-10-05 12:30:00.000000+00:00", &FieldType::Datetime),
        Ok(Value::Datetime(1664973000))
    );
    assert_eq!(FieldType::parse_str("2022-10-05", &FieldType::Date), Ok(Value::Date(1664928000)));
    assert_eq!(
        FieldType::parse_str("2022-10-05", &FieldType::Datetime),
        Err(mismatch("2022-10-05", TypeTag::Datetime))
    );
    assert_eq!(FieldType::parse_str("today", &FieldType::Date), Err(mismatch("today", TypeTag::Date)));
}

#[test]
fn lists_are_read_item_by_item() {
    assert_eq!(
        FieldType::parse_list_str("[1, 2, 3]", &FieldType::Int),
        Ok(vec![Value::Int(1), Value::Int(2), Value::Int(3)])
    );
    assert_eq!(
        FieldType::parse_list_str("['a', 'b c']", &FieldType::Str),
        Ok(vec![text("a"), text("b c")])
    );
    assert_eq!(
        FieldType::parse_str("[true, false]", &list_of(FieldType::Bool)),
        Ok(Value::List(vec![Value::Bool(true), Value::Bool(false)]))
    );
}

#[test]
fn the_first_item_that_cannot_be_read_fails_the_list() {
    assert_eq!(
        FieldType::parse_list_str("[1, x, y]", &FieldType::Int),
        Err(mismatch("x", TypeTag::Int))
    );
}

#[test]
fn the_text_of_an_empty_list_holds_one_empty_item() {
    assert_eq!(FieldType::parse_list_str("[]", &FieldType::Str), Ok(vec![text("")]));
    assert_eq!(FieldType::parse_list_str("[]", &FieldType::Int), Err(mismatch("", TypeTag::Int)));
}

#[test]
fn lists_in_lists_are_split_at_every_comma() {
    assert_eq!(
        FieldType::parse_str("[[1, 2], [3]]", &list_of(list_of(FieldType::Int))),
        Ok(Value::List(vec![
            Value::List(vec![Value::Int(1)]),
            Value::List(vec![Value::Int(2)]),
            Value::List(vec![Value::Int(3)]),
        ]))
    );
}

#[test]
fn tuples_are_read_by_the_type_of_each_position() {
    let types = vec![FieldType::Int, FieldType::Str, FieldType::Bool];
    assert_eq!(
        FieldType::parse_tuple_str("(1, 'a', true)", &types),
        Ok(vec![Value::Int(1), text("a"), Value::Bool(true)])
    );
    assert_eq!(
        FieldType::parse_str("(7, seven, false)", &FieldType::Tuple { items: types }),
        Ok(Value::Tuple(vec![Value::Int(7), text("seven"), Value::Bool(false)]))
    );
}

#[test]
fn a_tuple_has_as_many_items_as_types() {
    let types = vec![FieldType::Int, FieldType::Str];
    assert_eq!(FieldType::parse_tuple_str("(1)", &types), Err(mismatch("(1)", TypeTag::Tuple)));
    assert_eq!(
        FieldType::parse_tuple_str("(1, a, b)", &types),
        Err(mismatch("(1, a, b)", TypeTag::Tuple))
    );
    assert_eq!(FieldType::parse_tuple_str("(a, b)", &types), Err(mismatch("a", TypeTag::Int)));
}

#[test]
fn dictionaries_are_read_entry_by_entry() {
    assert_eq!(
        FieldType::parse_dict_str("{'a': 1, 'b': 2}", &FieldType::Int),
        Ok(vec![("a".to_string(), Value::Int(1)), ("b".to_string(), Value::Int(2))])
    );
    assert_eq!(
        FieldType::parse_str(
            "{k: v}",
            &FieldType::Dict { value: Box::new(FieldType::Str) }
        ),
        Ok(Value::Dict(vec![("k".to_string(), text("v"))]))
    );
}

#[test]
fn a_key_that_comes_again_replaces_its_value() {
    assert_eq!(
        FieldType::parse_dict_str("{'a': 1, 'b': 2, 'a': 3}", &FieldType::Int),
        Ok(vec![("a".to_string(), Value::Int(3)), ("b".to_string(), Value::Int(2))])
    );
}

#[test]
fn what_is_no_entry_is_passed_over() {
    assert_eq!(
        FieldType::parse_dict_str("{'a': 1, junk, x: y: z}", &FieldType::Int),
        Ok(vec![("a".to_string(), Value::Int(1))])
    );
    assert_eq!(FieldType::parse_dict_str("{}", &FieldType::Int), Ok(vec![]));
    assert_eq!(
        FieldType::parse_dict_str("{'a': one}", &FieldType::Int),
        Err(mismatch("one", TypeTag::Int))
    );
}

#[test]
fn a_reply_is_read_by_the_type_of_its_field() {
    assert_eq!(FieldType::Str.parse_reply("name", &data("Ada")), Ok(text("Ada")));
    assert_eq!(FieldType::Int.parse_reply("age", &data("30")), Ok(Value::Int(30)));
    assert_eq!(FieldType::Int.parse_reply("age", &StoreValue::Int(30)), Ok(Value::Int(30)));
    assert_eq!(
        FieldType::Float.parse_reply("score", &StoreValue::Int(3)),
        Ok(Value::Float("3".to_string()))
    );
    assert_eq!(FieldType::Bool.parse_reply("ok", &data("true")), Ok(Value::Bool(true)));
    assert_eq!(
        FieldType::Str.parse_reply("state", &StoreValue::Status("QUEUED".to_string())),
        Ok(text("QUEUED"))
    );
    assert_eq!(FieldType::Str.parse_reply("state", &StoreValue::Okay), Ok(text("OK")));
    assert_eq!(FieldType::Null.parse_reply("none", &StoreValue::Int(1)), Ok(Value::Null));
    assert_eq!(
        list_of(FieldType::Int).parse_reply("scores", &data("[1, 2]")),
        Ok(Value::List(vec![Value::Int(1), Value::Int(2)]))
    );
}

#[test]
fn a_reply_of_another_type_is_a_mismatch_that_names_the_field() {
    assert_eq!(
        FieldType::Int.parse_reply("age", &data("thirty")),
        Err(Error::TypeMismatch {
            field: "age".to_string(),
            value: Some("thirty".to_string()),
            expected: TypeTag::Int,
        })
    );
    assert_eq!(
        FieldType::Int.parse_reply("age", &StoreValue::Nil),
        Err(Error::TypeMismatch { field: "age".to_string(), value: None, expected: TypeTag::Int })
    );
    assert_eq!(
        FieldType::Str.parse_reply("name", &StoreValue::Data(vec![0xff, 0xfe])),
        Err(Error::TypeMismatch { field: "name".to_string(), value: None, expected: TypeTag::Str })
    );
    assert_eq!(
        FieldType::Str.parse_reply("name", &StoreValue::Int(1)),
        Err(Error::TypeMismatch { field: "name".to_string(), value: None, expected: TypeTag::Str })
    );
    assert_eq!(
        FieldType::Bool.parse_reply("ok", &StoreValue::Bulk(vec![])),
        Err(Error::TypeMismatch { field: "ok".to_string(), value: None, expected: TypeTag::Bool })
    );
}

#[test]
fn a_referred_entity_is_read_from_the_sequence_in_its_place() {
    let reply = StoreValue::Bulk(vec![data("name"), data("Rex"), data("age"), data("3")]);
    assert_eq!(
        pet_type().parse_reply("pet", &reply),
        Ok(Value::Nested(vec![("name".to_string(), text("Rex")), ("age".to_string(), Value::Int(3))]))
    );
}

#[test]
fn a_reference_that_was_not_followed_stands_for_nothing() {
    assert_eq!(pet_type().parse_reply("pet", &data("pet_%&_Rex")), Ok(Value::Null));
    assert_eq!(pet_type().parse_reply("pet", &StoreValue::Nil), Ok(Value::Null));
    assert_eq!(pet_type().parse_reply("pet", &StoreValue::Bulk(vec![])), Ok(Value::Null));
}

#[test]
fn names_and_replies_come_in_pairs() {
    assert_eq!(
        read_fields(&pet_schema(), &vec![data("name"), data("Rex"), data("age")]),
        Err(Error::MalformedResponse)
    );
    assert_eq!(
        read_fields(&pet_schema(), &vec![StoreValue::Int(1), data("Rex")]),
        Err(Error::MalformedResponse)
    );
    assert_eq!(read_fields(&pet_schema(), &vec![]), Ok(vec![]));
}

#[test]
fn a_name_that_the_schema_does_not_declare_is_an_unknown_field() {
    assert_eq!(
        read_fields(&pet_schema(), &vec![data("name"), data("Rex"), data("colour"), data("red")]),
        Err(Error::UnknownField { field: "colour".to_string() })
    );
    assert_eq!(
        pet_type().parse_reply("pet", &StoreValue::Bulk(vec![data("colour"), data("red")])),
        Err(Error::UnknownField { field: "colour".to_string() })
    );
}

#[test]
fn the_first_pair_that_fails_decides() {
    assert_eq!(
        read_fields(&pet_schema(), &vec![data("age"), data("old"), data("colour"), data("red")]),
        Err(Error::TypeMismatch {
            field: "age".to_string(),
            value: Some("old".to_string()),
            expected: TypeTag::Int,
        })
    );
}

#[test]
fn a_name_that_comes_again_replaces_its_value() {
    assert_eq!(
        read_fields(
            &pet_schema(),
            &vec![data("name"), data("Rex"), data("age"), data("3"), data("name"), data("Max")]
        ),
        Ok(vec![("name".to_string(), text("Max")), ("age".to_string(), Value::Int(3))])
    );
}

#[test]
fn store_values_as_text_integer_and_sequence() {
    assert_eq!(data("h\u{e9}").to_text(), Some("h\u{e9}".to_string()));
    assert_eq!(StoreValue::Data(vec![0xc3]).to_text(), None);
    assert_eq!(StoreValue::Nil.to_text(), None);
    assert_eq!(StoreValue::Okay.to_text(), Some("OK".to_string()));
    assert_eq!(StoreValue::Int(4).to_int(), Some(4));
    assert_eq!(data("-12").to_int(), Some(-12));
    assert_eq!(StoreValue::Status("12".to_string()).to_int(), Some(12));
    assert_eq!(data("x").to_int(), None);
    assert_eq!(StoreValue::Okay.to_int(), None);
    assert_eq!(StoreValue::Nil.as_sequence(), Some(&[][..]));
    assert_eq!(
        StoreValue::Bulk(vec![StoreValue::Int(1)]).as_sequence(),
        Some(&[StoreValue::Int(1)][..])
    );
    assert_eq!(StoreValue::Int(1).as_sequence(), None);
}
