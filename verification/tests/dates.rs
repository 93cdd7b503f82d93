use orredis::errors::{Mismatch, TypeTag};
use orredis::parsers::{
    date_to_text, datetime_to_text, parse_date_to_timestamp, parse_datetime_to_timestamp,
    text_if_read_back, timestamp_result,
};

#[test]
fn datetime_text_to_timestamp() {
    assert_eq!(parse_datetime_to_timestamp("2022-10-05 12:30:00.000000+00:00"), Ok(1664973000));
    assert_eq!(parse_datetime_to_timestamp("1970-01-01 00:00:00.000000+00:00"), Ok(0));
    assert_eq!(parse_datetime_to_timestamp("1969-12-31 23:59:59.500000+00:00"), Ok(-1));
}

#[test]
fn datetime_text_must_have_every_part() {
    for text in ["", "2022-10-05", "2022-10-05 12:30:00", "2022-10-05T12:30:00.000000+00:00", "soon"] {
        assert_eq!(
            parse_datetime_to_timestamp(text),
            Err(Mismatch { value: Some(text.to_string()), expected: TypeTag::Datetime })
        );
    }
}

#[test]
fn date_text_to_timestamp() {
    assert_eq!(parse_date_to_timestamp("2022-10-05"), Ok(1664928000));
    assert_eq!(parse_date_to_timestamp("1970-01-01"), Ok(0));
    assert_eq!(parse_date_to_timestamp("1969-12-31"), Ok(-86400));
}

#[test]
fn date_text_must_be_a_day() {
    for text in ["", "2022-13-01", "2022-02-30", "05/10/2022", "2022-10-05 12:30:00"] {
        assert_eq!(
            parse_date_to_timestamp(text),
            Err(Mismatch { value: Some(text.to_string()), expected: TypeTag::Date })
        );
    }
}

#[test]
fn timestamp_to_datetime_text() {
    assert_eq!(
        datetime_to_text(1664973000),
        Some("2022-10-05 12:30:00.000000+00:00".to_string())
    );
    assert_eq!(datetime_to_text(0), Some("1970-01-01 00:00:00.000000+00:00".to_string()));
    assert_eq!(datetime_to_text(i64::MAX), None);
    assert_eq!(datetime_to_text(i64::MIN), None);
}

#[test]
fn timestamp_to_date_text() {
    assert_eq!(date_to_text(1664928000), Some("2022-10-05".to_string()));
    assert_eq!(date_to_text(0), Some("1970-01-01".to_string()));
    assert_eq!(date_to_text(-86400), Some("1969-12-31".to_string()));
    assert_eq!(date_to_text(i64::MAX), None);
}

#[test]
fn an_instant_within_a_day_is_no_day() {
    assert_eq!(date_to_text(1664973000), None);
    assert_eq!(date_to_text(1), None);
    assert_eq!(date_to_text(-1), None);
}

#[test]
fn an_instant_is_read_back_from_its_text() {
    for timestamp in [0i64, 1, -1, 1664973000, 951782400, 4102444800, -2208988800] {
        let text = datetime_to_text(timestamp).unwrap();
        assert_eq!(parse_datetime_to_timestamp(&text), Ok(timestamp));
    }
}

#[test]
fn a_day_is_read_back_from_its_text() {
    for timestamp in [0i64, 86400, -86400, 1664928000, 951782400] {
        let text = date_to_text(timestamp).unwrap();
        assert_eq!(parse_date_to_timestamp(&text), Ok(timestamp));
    }
}

#[test]
fn a_timestamp_that_was_read_is_handed_on() {
    assert_eq!(timestamp_result(Some(5), "x", TypeTag::Date), Ok(5));
    assert_eq!(
        timestamp_result(None, "x", TypeTag::Date),
        Err(Mismatch { value: Some("x".to_string()), expected: TypeTag::Date })
    );
}

#[test]
fn a_text_is_written_only_if_it_is_read_back_alike() {
    assert_eq!(text_if_read_back(Some("x".to_string()), Some(5), 5), Some("x".to_string()));
    assert_eq!(text_if_read_back(Some("x".to_string()), Some(4), 5), None);
    assert_eq!(text_if_read_back(Some("x".to_string()), None, 5), None);
    assert_eq!(text_if_read_back(None, Some(5), 5), None);
}
