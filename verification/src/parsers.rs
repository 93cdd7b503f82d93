//! Reading texts: the portions of a bracketed, separated text, and dates and
//! times.

use std::fmt::Write;
use chrono::{DateTime, NaiveDate, TimeZone, Utc};
use vstd::prelude::*;
use vstd::string::*;
use crate::errors::{Mismatch, MismatchView, TypeTag};
use crate::text::{
    chars_of, ranges_text, ranges_within, split, split_bounds, trim, trim_bounds,
    trim_end_matches, trim_end_matches_bound, trim_start_matches, trim_start_matches_bound,
};

verus! {

/// The format in which an instant is stored: date, time with six digits of
/// fraction, and the offset from UTC.
pub const DATETIME_FORMAT: &'static str = "%Y-%m-%d %H:%M:%S%.6f%:z";

/// The format in which a day is stored.
pub const DATE_FORMAT: &'static str = "%Y-%m-%d";

/// What chrono's `TimeZone::datetime_from_str`, called on `Utc` with `text`
/// and the format string `format`, returns, as the seconds since the start of
/// 1970 of the instant it found; `None` where it returns an error.
pub uninterp spec fn utc_datetime_timestamp(text: Seq<char>, format: Seq<char>) -> Option<i64>;

/// What chrono's `NaiveDate::parse_from_str`, called with `text` and the
/// format string `format`, returns, as the seconds from the start of 1970 to
/// the start of the day it found; `None` where it returns an error.
pub uninterp spec fn naive_date_timestamp(text: Seq<char>, format: Seq<char>) -> Option<i64>;

/// The text that chrono's `DateTime::format` gives, with the format string
/// `format`, for the UTC instant `timestamp` seconds after the start of 1970;
/// `None` where chrono has no such instant or cannot format it so.
pub uninterp spec fn utc_timestamp_text(timestamp: i64, format: Seq<char>) -> Option<Seq<char>>;

/// Calls chrono's `TimeZone::datetime_from_str` on `Utc` and hands out the
/// timestamp of the `DateTime` it returns. The contract claims only that the
/// outcome is the one that the arguments determine.
#[verifier::external_body]
#[allow(deprecated)]
fn datetime_from_str(value: &str, format: &str) -> (parsed: Option<i64>)
    ensures
        parsed == utc_datetime_timestamp(value@, format@),
{
    match Utc.datetime_from_str(value, format) {
        Ok(datetime) => Some(datetime.timestamp()),
        Err(_) => None,
    }
}

/// Calls chrono's `NaiveDate::parse_from_str` and hands out the timestamp of
/// the midnight with which that day starts. The contract claims only that
/// the outcome is the one that the arguments determine.
#[verifier::external_body]
#[allow(deprecated)]
fn date_from_str(value: &str, format: &str) -> (parsed: Option<i64>)
    ensures
        parsed == naive_date_timestamp(value@, format@),
{
    match NaiveDate::parse_from_str(value, format) {
        Ok(date) => Some(date.and_hms(0, 0, 0).timestamp()),
        Err(_) => None,
    }
}

/// Calls chrono's `DateTime::from_timestamp` and `DateTime::format` and
/// hands out the text that they give. The contract claims only that the
/// outcome is the one that the arguments determine.
#[verifier::external_body]
fn format_timestamp(timestamp: i64, format: &str) -> (formatted: Option<String>)
    ensures
        match formatted {
            Some(text) => utc_timestamp_text(timestamp, format@) == Some(text@),
            None => utc_timestamp_text(timestamp, format@) is None,
        },
{
    let datetime = DateTime::from_timestamp(timestamp, 0)?;
    let mut text = String::new();
    match write!(text, "{}", datetime.format(format)) {
        Ok(()) => Some(text),
        Err(_) => None,
    }
}

/// The timestamp that was read from `value`, or the mismatch that tells that
/// `value` is no text of the kind `expected`.
pub open spec fn timestamp_or_mismatch(parsed: Option<i64>, value: Seq<char>, expected: TypeTag)
    -> Result<i64, MismatchView> {
    match parsed {
        Some(timestamp) => Ok(timestamp),
        None => Err(MismatchView { value: Some(value), expected }),
    }
}

/// The timestamp `parsed` that was read from `value`, or, where none was,
/// the mismatch that tells that `value` is no text of the kind `expected`.
pub fn timestamp_result(parsed: Option<i64>, value: &str, expected: TypeTag) -> (r: Result<
    i64,
    Mismatch,
>)
    ensures
        match r {
            Ok(t) => timestamp_or_mismatch(parsed, value@, expected) == Ok::<i64, MismatchView>(t),
            Err(m) => timestamp_or_mismatch(parsed, value@, expected) == Err::<i64, MismatchView>(
                m@,
            ),
        },
{
    match parsed {
        Some(timestamp) => Ok(timestamp),
        None => Err(Mismatch { value: Some(value.to_owned()), expected }),
    }
}

/// The instant that the text `value` denotes, in seconds since the start of
/// 1970. The text is read as a UTC date and time with a fraction of a second
/// and an offset.
pub fn parse_datetime_to_timestamp(value: &str) -> (r: Result<i64, Mismatch>)
    ensures
        match r {
            Ok(t) => utc_datetime_timestamp(value@, DATETIME_FORMAT@) == Some(t),
            Err(m) => utc_datetime_timestamp(value@, DATETIME_FORMAT@) is None && m@
                == (MismatchView { value: Some(value@), expected: TypeTag::Datetime }),
        },
{
    let parsed = datetime_from_str(value, DATETIME_FORMAT);
    timestamp_result(parsed, value, TypeTag::Datetime)
}

/// The start of the day that the text `value` denotes, in seconds since the
/// start of 1970. The text is read as year, month and day.
pub fn parse_date_to_timestamp(value: &str) -> (r: Result<i64, Mismatch>)
    ensures
        match r {
            Ok(t) => naive_date_timestamp(value@, DATE_FORMAT@) == Some(t),
            Err(m) => naive_date_timestamp(value@, DATE_FORMAT@) is None && m@ == (MismatchView {
                value: Some(value@),
                expected: TypeTag::Date,
            }),
        },
{
    let parsed = date_from_str(value, DATE_FORMAT);
    timestamp_result(parsed, value, TypeTag::Date)
}

/// The text under which the instant `timestamp` is stored: its UTC date and
/// time as chrono formats it, provided that chrono reads that text back as
/// the same instant. An instant beyond the years that can be written has no
/// text.
pub open spec fn instant_text(timestamp: i64) -> Option<Seq<char>> {
    match utc_timestamp_text(timestamp, DATETIME_FORMAT@) {
        Some(text) => if utc_datetime_timestamp(text, DATETIME_FORMAT@) == Some(timestamp) {
            Some(text)
        } else {
            None
        },
        None => None,
    }
}

/// The text under which the day that starts at the instant `timestamp` is
/// stored: its date as chrono formats it, provided that chrono reads that
/// text back as the same instant. An instant at which no day starts has no
/// text.
pub open spec fn day_text(timestamp: i64) -> Option<Seq<char>> {
    match utc_timestamp_text(timestamp, DATE_FORMAT@) {
        Some(text) => if naive_date_timestamp(text, DATE_FORMAT@) == Some(timestamp) {
            Some(text)
        } else {
            None
        },
        None => None,
    }
}

/// Hands `text` on if `read`, what was read back from it, is `timestamp`.
pub fn text_if_read_back(text: Option<String>, read: Option<i64>, timestamp: i64) -> (r: Option<
    String,
>)
    ensures
        r == if text is Some && read == Some(timestamp) {
            text
        } else {
            None
        },
{
    match (text, read) {
        (Some(text), Some(found)) => if found == timestamp {
            Some(text)
        } else {
            None
        },
        _ => None,
    }
}

/// The text under which the instant `timestamp` is stored: its UTC date and
/// time. Nothing is written that would not be read back as the same
/// instant.
pub fn datetime_to_text(timestamp: i64) -> (r: Option<String>)
    ensures
        match r {
            Some(text) => instant_text(timestamp) == Some(text@),
            None => instant_text(timestamp) is None,
        },
{
    match format_timestamp(timestamp, DATETIME_FORMAT) {
        Some(text) => {
            let read = datetime_from_str(text.as_str(), DATETIME_FORMAT);
            text_if_read_back(Some(text), read, timestamp)
        },
        None => None,
    }
}

/// The text under which the day that starts at the instant `timestamp` is
/// stored. Nothing is written that would not be read back as the same
/// instant, so an instant within a day has no text.
pub fn date_to_text(timestamp: i64) -> (r: Option<String>)
    ensures
        match r {
            Some(text) => day_text(timestamp) == Some(text@),
            None => day_text(timestamp) is None,
        },
{
    match format_timestamp(timestamp, DATE_FORMAT) {
        Some(text) => {
            let read = date_from_str(text.as_str(), DATE_FORMAT);
            text_if_read_back(Some(text), read, timestamp)
        },
        None => None,
    }
}

/// `piece` without the white space around it and then without the single
/// quotes around that.
pub open spec fn unquoted(piece: Seq<char>) -> Seq<char> {
    trim_start_matches(trim_end_matches(trim(piece), seq!['\'']), seq!['\''])
}

/// The portions of `value`: what stands between the separators once the
/// opening text `start` and the closing text `end` are taken off, each
/// without the white space and the quotes around it.
pub open spec fn str_portions(
    value: Seq<char>,
    start: Seq<char>,
    end: Seq<char>,
    separator: Seq<char>,
) -> Seq<Seq<char>> {
    let inner = trim_end_matches(trim_start_matches(value, start), end);
    let pieces = split(inner, separator);
    Seq::new(pieces.len(), |i: int| unquoted(pieces[i]))
}

/// The texts of the string slices `portions`.
pub open spec fn texts_of(portions: Seq<&str>) -> Seq<Seq<char>> {
    Seq::new(portions.len(), |i: int| portions[i]@)
}

/// Extracts the portions of the text of a list, tuple or dictionary: takes
/// off every leading `start_char` and every trailing `end_char`, splits what
/// is left at each `separator`, and strips each piece of the white space and
/// then of the single quotes around it.
pub fn extract_str_portions<'a>(
    value: &'a str,
    start_char: &str,
    end_char: &str,
    separator: &str,
) -> (portions: Vec<&'a str>)
    ensures
        texts_of(portions@) == str_portions(value@, start_char@, end_char@, separator@),
{
    let chars = chars_of(value);
    let start = chars_of(start_char);
    let end = chars_of(end_char);
    let sep = chars_of(separator);
    let mut quote: Vec<char> = Vec::new();
    quote.push('\'');
    assert(quote@ == seq!['\'']);
    let n = chars.len();
    assert(chars@.subrange(0, n as int) == chars@);
    let lo = trim_start_matches_bound(&chars, 0, n, &start);
    let hi = trim_end_matches_bound(&chars, lo, n, &end);
    let bounds = split_bounds(&chars, lo, hi, &sep);
    let ghost pieces = split(chars@.subrange(lo as int, hi as int), sep@);
    let mut portions: Vec<&'a str> = Vec::new();
    let mut i: usize = 0;
    while i < bounds.len()
        invariant
            i <= bounds.len(),
            portions.len() == i,
            chars@ == value@,
            quote@ == seq!['\''],
            ranges_within(bounds@, lo as int, hi as int),
            hi <= chars.len(),
            ranges_text(chars@, bounds@) == pieces,
            forall|j: int| 0 <= j < i ==> (#[trigger] portions[j])@ == unquoted(pieces[j]),
        decreases bounds.len() - i,
    {
        let (a, b) = bounds[i];
        assert(ranges_text(chars@, bounds@)[i as int] == chars@.subrange(a as int, b as int));
        let (a1, b1) = trim_bounds(&chars, a, b);
        let b2 = trim_end_matches_bound(&chars, a1, b1, &quote);
        let a2 = trim_start_matches_bound(&chars, a1, b2, &quote);
        portions.push(value.substring_char(a2, b2));
        i += 1;
    }
    assert(texts_of(portions@) == str_portions(value@, start_char@, end_char@, separator@));
    portions
}

} // verus!
