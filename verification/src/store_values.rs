//! What the store answers: the reply of a command or a script, as plain
//! data, and its reading as a text or as an integer.

use vstd::prelude::*;
use vstd::utf8::{decode_utf8, valid_utf8};
use crate::numbers::{parse_i64, parse_i64_text};

verus! {

broadcast use vstd::std_specs::vec::axiom_vec_index_decreases;

/// A reply of the store.
#[derive(Debug, PartialEq, Eq)]
pub enum StoreValue {
    /// No value.
    Nil,
    /// An integer.
    Int(i64),
    /// A string of bytes.
    Data(Vec<u8>),
    /// A sequence of replies.
    Bulk(Vec<StoreValue>),
    /// A status line.
    Status(String),
    /// The status `OK`.
    Okay,
}

/// The mathematical content of a `StoreValue`.
pub ghost enum StoreValueView {
    Nil,
    Int(i64),
    Data(Seq<u8>),
    Bulk(Seq<StoreValueView>),
    Status(Seq<char>),
    Okay,
}

/// The mathematical content of the reply `v`.
pub open spec fn store_value_view(v: StoreValue) -> StoreValueView
    decreases v,
{
    match v {
        StoreValue::Nil => StoreValueView::Nil,
        StoreValue::Int(i) => StoreValueView::Int(i),
        StoreValue::Data(bytes) => StoreValueView::Data(bytes@),
        StoreValue::Bulk(items) => StoreValueView::Bulk(store_values_view(items)),
        StoreValue::Status(s) => StoreValueView::Status(s@),
        StoreValue::Okay => StoreValueView::Okay,
    }
}

/// The mathematical content of the replies `items`.
pub open spec fn store_values_view(items: Vec<StoreValue>) -> Seq<StoreValueView>
    decreases items,
{
    Seq::new(
        items.len() as nat,
        |i: int|
            if 0 <= i < items.len() {
                store_value_view(items[i])
            } else {
                StoreValueView::Nil
            },
    )
}

impl View for StoreValue {
    type V = StoreValueView;

    open spec fn view(&self) -> StoreValueView {
        store_value_view(*self)
    }
}

/// The text that the reply `v` holds: the text of a status, or the text that
/// a string of bytes encodes in UTF-8. Other replies hold no text.
pub open spec fn store_text(v: StoreValueView) -> Option<Seq<char>> {
    match v {
        StoreValueView::Data(bytes) => if valid_utf8(bytes) {
            Some(decode_utf8(bytes))
        } else {
            None
        },
        StoreValueView::Okay => Some(seq!['O', 'K']),
        StoreValueView::Status(s) => Some(s),
        _ => None,
    }
}

/// The integer that the reply `v` holds: an integer reply, or the integer
/// that the text of a status or of a string of bytes denotes.
pub open spec fn store_int(v: StoreValueView) -> Option<i64> {
    match v {
        StoreValueView::Int(i) => Some(i),
        StoreValueView::Status(s) => parse_i64_text(s),
        StoreValueView::Data(bytes) => if valid_utf8(bytes) {
            parse_i64_text(decode_utf8(bytes))
        } else {
            None
        },
        _ => None,
    }
}

/// The sequence that the reply `v` holds: the items of a sequence of
/// replies, or no items where there is no value.
pub open spec fn store_sequence(v: StoreValueView) -> Option<Seq<StoreValueView>> {
    match v {
        StoreValueView::Bulk(items) => Some(items),
        StoreValueView::Nil => Some(Seq::empty()),
        _ => None,
    }
}

/// `String::from_utf8` gives the text that the bytes encode, and fails
/// exactly where the bytes are not UTF-8.
#[verifier::external_body]
fn text_from_utf8(bytes: &Vec<u8>) -> (text: Option<String>)
    ensures
        match text {
            Some(t) => valid_utf8(bytes@) && t@ == decode_utf8(bytes@),
            None => !valid_utf8(bytes@),
        },
{
    String::from_utf8(bytes.clone()).ok()
}

impl StoreValue {
    /// The text that this reply holds.
    pub fn to_text(&self) -> (text: Option<String>)
        ensures
            match text {
                Some(t) => store_text(self@) == Some(t@),
                None => store_text(self@) is None,
            },
    {
        match self {
            StoreValue::Data(bytes) => text_from_utf8(bytes),
            StoreValue::Okay => {
                proof {
                    reveal_strlit("OK");
                }
                assert("OK"@ == seq!['O', 'K']);
                Some("OK".to_owned())
            },
            StoreValue::Status(s) => Some(s.clone()),
            _ => None,
        }
    }

    /// The integer that this reply holds.
    pub fn to_int(&self) -> (value: Option<i64>)
        ensures
            value == store_int(self@),
    {
        match self {
            StoreValue::Int(i) => Some(*i),
            StoreValue::Status(s) => parse_i64(s.as_str()),
            StoreValue::Data(bytes) => match text_from_utf8(bytes) {
                Some(text) => parse_i64(text.as_str()),
                None => None,
            },
            _ => None,
        }
    }

    /// The items of this reply, where it is a sequence of replies; no items
    /// where it is no value.
    pub fn as_sequence(&self) -> (items: Option<&[StoreValue]>)
        ensures
            match items {
                Some(found) => store_sequence(self@) == Some(
                    Seq::new(found@.len(), |i: int| found@[i]@),
                ),
                None => store_sequence(self@) is None,
            },
    {
        match self {
            StoreValue::Bulk(items) => {
                let found = items.as_slice();
                assert(Seq::new(found@.len(), |i: int| found@[i]@) == store_values_view(*items));
                Some(found)
            },
            StoreValue::Nil => {
                let found: &[StoreValue] = &[];
                assert(Seq::new(found@.len(), |i: int| found@[i]@) == Seq::<
                    StoreValueView,
                >::empty());
                Some(found)
            },
            _ => None,
        }
    }
}

} // verus!
