//! The write direction: from a typed value to the text under which it is
//! stored, as the field's type directs.

use vstd::prelude::*;
use vstd::string::*;
use crate::field_types::{FieldType, FieldTypeView};
use crate::numbers::{i64_chars, int_text, is_float_chars, is_float_text};
use crate::parsers::{date_to_text, datetime_to_text, day_text, instant_text};
use crate::reading::{false_text, true_text};
use crate::text::{chars_of, push_chars, push_str, string_of};
use crate::values::{fields_view, values_view, FieldsView, Value, ValueView};

verus! {

broadcast use vstd::std_specs::vec::axiom_vec_index_decreases;

/// The text `None`, under which the value that stands for nothing is stored.
pub open spec fn null_text() -> Seq<char> {
    seq!['N', 'o', 'n', 'e']
}

/// The text `, ` that stands between the items of a list, tuple or
/// dictionary.
pub open spec fn item_separator() -> Seq<char> {
    seq![',', ' ']
}

/// The text `: ` that stands between a key and its value.
pub open spec fn key_separator() -> Seq<char> {
    seq![':', ' ']
}

/// The texts `parts`, with `sep` between each two.
pub open spec fn join_texts(parts: Seq<Seq<char>>, sep: Seq<char>) -> Seq<char>
    decreases parts.len(),
{
    if parts.len() == 0 {
        Seq::empty()
    } else if parts.len() == 1 {
        parts[0]
    } else {
        join_texts(parts.drop_last(), sep) + sep + parts.last()
    }
}

/// The texts `texts`, joined by a comma and a space, between the brackets
/// `open` and `close`; `None` where there are no texts.
pub open spec fn bracketed(open: char, texts: Option<Seq<Seq<char>>>, close: char) -> Option<
    Seq<char>,
> {
    match texts {
        Some(texts) => Some(seq![open] + join_texts(texts, item_separator()) + seq![close]),
        None => None,
    }
}

/// The text under which the value `v` of a field of type `t` is stored;
/// `None` where `v` is no value of that type, or is an instant or a day
/// that has no text.
///
/// A text is stored as it is, and so is a number with a fraction, which
/// must be written as one; an integer is stored in decimal, a truth value as `true` or `false`, an instant and a day in
/// their formats, in UTC. A list stands in square brackets, a tuple in round
/// ones, a dictionary in braces, the items separated by a comma and a space.
/// Inside those, a reference to another collection is the key of its
/// entity, as a text. A tuple has as many items as types.
pub open spec fn value_text(t: FieldTypeView, v: ValueView) -> Option<Seq<char>>
    decreases t, 0nat,
{
    match (t, v) {
        (FieldTypeView::Str, ValueView::Str(s)) => Some(s),
        (FieldTypeView::Nested { .. }, ValueView::Str(s)) => Some(s),
        (FieldTypeView::Int, ValueView::Int(i)) => Some(int_text(i as int)),
        (FieldTypeView::Float, ValueView::Float(s)) => if is_float_text(s) {
            Some(s)
        } else {
            None
        },
        (FieldTypeView::Bool, ValueView::Bool(b)) => Some(
            if b {
                true_text()
            } else {
                false_text()
            },
        ),
        (FieldTypeView::Datetime, ValueView::Datetime(timestamp)) => instant_text(timestamp),
        (FieldTypeView::Date, ValueView::Date(timestamp)) => day_text(timestamp),
        (FieldTypeView::Null, ValueView::Null) => Some(null_text()),
        (FieldTypeView::List { items }, ValueView::List(values)) => bracketed(
            '[',
            item_texts(*items, values, values.len()),
            ']',
        ),
        (FieldTypeView::Tuple { items }, ValueView::Tuple(values)) => if items.len()
            != values.len() {
            None
        } else {
            bracketed('(', tuple_texts(items, values, values.len()), ')')
        },
        (FieldTypeView::Dict { value }, ValueView::Dict(entries)) => bracketed(
            '{',
            entry_texts(*value, entries, entries.len()),
            '}',
        ),
        _ => None,
    }
}

/// The texts of the first `n` of `values`, each a value of type `t`; `None`
/// where one of them has none.
pub open spec fn item_texts(t: FieldTypeView, values: Seq<ValueView>, n: nat) -> Option<
    Seq<Seq<char>>,
>
    decreases t, n + 1,
{
    if n == 0 || n > values.len() {
        Some(Seq::empty())
    } else {
        match (item_texts(t, values, (n - 1) as nat), value_text(t, values[n - 1])) {
            (Some(texts), Some(text)) => Some(texts.push(text)),
            _ => None,
        }
    }
}

/// The texts of the first `n` of `values`, each a value of the type at its
/// position in `types`; `None` where one of them has none.
pub open spec fn tuple_texts(types: Seq<FieldTypeView>, values: Seq<ValueView>, n: nat) -> Option<
    Seq<Seq<char>>,
>
    decreases types, n + 1,
{
    if n == 0 || n > values.len() || n > types.len() {
        Some(Seq::empty())
    } else {
        match (
            tuple_texts(types, values, (n - 1) as nat),
            value_text(types[n - 1], values[n - 1]),
        ) {
            (Some(texts), Some(text)) => Some(texts.push(text)),
            _ => None,
        }
    }
}

/// The texts of the first `n` of `entries`, each a key, a colon and a space,
/// and the text of a value of type `t`; `None` where one of them has none.
pub open spec fn entry_texts(t: FieldTypeView, entries: FieldsView, n: nat) -> Option<
    Seq<Seq<char>>,
>
    decreases t, n + 1,
{
    if n == 0 || n > entries.len() {
        Some(Seq::empty())
    } else {
        match (entry_texts(t, entries, (n - 1) as nat), value_text(t, entries[n - 1].1)) {
            (Some(texts), Some(text)) => Some(
                texts.push(entries[n - 1].0 + key_separator() + text),
            ),
            _ => None,
        }
    }
}

/// The text of a value by its own kind, for a value that is not made of
/// others: what stands for it in a key.
pub open spec fn plain_text(v: ValueView) -> Option<Seq<char>> {
    match v {
        ValueView::Str(s) => Some(s),
        ValueView::Int(i) => Some(int_text(i as int)),
        ValueView::Float(s) => if is_float_text(s) {
            Some(s)
        } else {
            None
        },
        ValueView::Bool(b) => Some(
            if b {
                true_text()
            } else {
                false_text()
            },
        ),
        ValueView::Datetime(timestamp) => instant_text(timestamp),
        ValueView::Date(timestamp) => day_text(timestamp),
        _ => None,
    }
}

/// Once an item has no text, no longer run of items has texts.
pub proof fn lemma_item_texts_fails(t: FieldTypeView, values: Seq<ValueView>, k: nat)
    requires
        k <= values.len(),
        item_texts(t, values, k) is None,
    ensures
        item_texts(t, values, values.len()) is None,
    decreases values.len() - k,
{
    if k < values.len() {
        lemma_item_texts_fails(t, values, k + 1);
    }
}

/// Once an item of a tuple has no text, no longer run of items has texts.
pub proof fn lemma_tuple_texts_fails(types: Seq<FieldTypeView>, values: Seq<ValueView>, k: nat)
    requires
        k <= values.len(),
        values.len() == types.len(),
        tuple_texts(types, values, k) is None,
    ensures
        tuple_texts(types, values, values.len()) is None,
    decreases values.len() - k,
{
    if k < values.len() {
        lemma_tuple_texts_fails(types, values, k + 1);
    }
}

/// Once an entry has no text, no longer run of entries has texts.
pub proof fn lemma_entry_texts_fails(t: FieldTypeView, entries: FieldsView, k: nat)
    requires
        k <= entries.len(),
        entry_texts(t, entries, k) is None,
    ensures
        entry_texts(t, entries, entries.len()) is None,
    decreases entries.len() - k,
{
    if k < entries.len() {
        lemma_entry_texts_fails(t, entries, k + 1);
    }
}

/// Joining one text more puts the separator before it, unless it is the
/// first.
pub proof fn lemma_join_push(parts: Seq<Seq<char>>, part: Seq<char>, sep: Seq<char>)
    ensures
        join_texts(parts.push(part), sep) == if parts.len() == 0 {
            part
        } else {
            join_texts(parts, sep) + sep + part
        },
{
    assert(parts.push(part).drop_last() == parts);
}

/// The characters of the text of a truth value.
fn bool_chars(b: bool) -> (out: Vec<char>)
    ensures
        out@ == if b {
            true_text()
        } else {
            false_text()
        },
{
    let mut out: Vec<char> = Vec::new();
    proof {
        reveal_strlit("true");
        reveal_strlit("false");
    }
    if b {
        push_str(&mut out, "true");
    } else {
        push_str(&mut out, "false");
    }
    out
}

/// The characters of an optional text.
fn optional_chars(text: Option<String>) -> (out: Option<Vec<char>>)
    ensures
        match out {
            Some(chars) => text matches Some(t) && chars@ == t@,
            None => text is None,
        },
{
    match text {
        Some(t) => Some(chars_of(t.as_str())),
        None => None,
    }
}

/// Appends `chars` to `out` as one more item: behind a comma and a space
/// unless it is the first.
fn push_item(out: &mut Vec<char>, first: bool, chars: &Vec<char>)
    ensures
        final(out)@ == old(out)@ + (if first {
            Seq::<char>::empty()
        } else {
            item_separator()
        }) + chars@,
{
    if !first {
        out.push(',');
        out.push(' ');
        assert(out@ == old(out)@ + item_separator());
    } else {
        assert(out@ == old(out)@ + Seq::<char>::empty());
    }
    push_chars(out, chars);
}

/// The characters of the text of a list of the values `values`, each of the
/// type `item_type`.
fn list_chars(item_type: &FieldType, values: &Vec<Value>) -> (r: Option<Vec<char>>)
    ensures
        match r {
            Some(chars) => bracketed(
                '[',
                item_texts(item_type@, values_view(*values), values.len() as nat),
                ']',
            ) == Some(chars@),
            None => item_texts(item_type@, values_view(*values), values.len() as nat) is None,
        },
    decreases item_type, 1nat,
{
    let ghost views = values_view(*values);
    let ghost mut texts: Seq<Seq<char>> = Seq::empty();
    let mut out: Vec<char> = Vec::new();
    out.push('[');
    assert(out@ == seq!['['] + join_texts(texts, item_separator()));
    let mut i: usize = 0;
    while i < values.len()
        invariant
            i <= values.len(),
            views == values_view(*values),
            item_texts(item_type@, views, i as nat) == Some(texts),
            texts.len() == i,
            out@ == seq!['['] + join_texts(texts, item_separator()),
        decreases values.len() - i,
    {
        assert(views[i as int] == values[i as int]@);
        match item_type.value_chars(&values[i]) {
            Some(chars) => {
                proof {
                    lemma_join_push(texts, chars@, item_separator());
                }
                let ghost before = out@;
                push_item(&mut out, i == 0, &chars);
                proof {
                    if i > 0 {
                        assert(before + item_separator() + chars@ == seq!['['] + (join_texts(
                            texts,
                            item_separator(),
                        ) + item_separator() + chars@));
                    } else {
                        assert(before + Seq::<char>::empty() + chars@ == seq!['['] + chars@);
                    }
                    texts = texts.push(chars@);
                }
            },
            None => {
                proof {
                    lemma_item_texts_fails(item_type@, views, (i + 1) as nat);
                }
                return None;
            },
        }
        i += 1;
    }
    out.push(']');
    Some(out)
}

/// The characters of the text of a tuple of the values `values`, each of the
/// type at its position in `types`.
fn tuple_chars(types: &Vec<FieldType>, values: &Vec<Value>) -> (r: Option<Vec<char>>)
    requires
        types.len() == values.len(),
    ensures
        match r {
            Some(chars) => bracketed(
                '(',
                tuple_texts(
                    (FieldType::Tuple { items: *types })@->Tuple_items,
                    values_view(*values),
                    values.len() as nat,
                ),
                ')',
            ) == Some(chars@),
            None => tuple_texts(
                (FieldType::Tuple { items: *types })@->Tuple_items,
                values_view(*values),
                values.len() as nat,
            ) is None,
        },
    decreases types, 1nat,
{
    let ghost kinds = (FieldType::Tuple { items: *types })@->Tuple_items;
    let ghost views = values_view(*values);
    let ghost mut texts: Seq<Seq<char>> = Seq::empty();
    let mut out: Vec<char> = Vec::new();
    out.push('(');
    assert(out@ == seq!['('] + join_texts(texts, item_separator()));
    let mut i: usize = 0;
    while i < values.len()
        invariant
            i <= values.len(),
            types.len() == values.len(),
            views == values_view(*values),
            kinds == (FieldType::Tuple { items: *types })@->Tuple_items,
            tuple_texts(kinds, views, i as nat) == Some(texts),
            texts.len() == i,
            out@ == seq!['('] + join_texts(texts, item_separator()),
        decreases values.len() - i,
    {
        assert(views[i as int] == values[i as int]@);
        assert(kinds[i as int] == types[i as int]@);
        match types[i].value_chars(&values[i]) {
            Some(chars) => {
                proof {
                    lemma_join_push(texts, chars@, item_separator());
                }
                let ghost before = out@;
                push_item(&mut out, i == 0, &chars);
                proof {
                    if i > 0 {
                        assert(before + item_separator() + chars@ == seq!['('] + (join_texts(
                            texts,
                            item_separator(),
                        ) + item_separator() + chars@));
                    } else {
                        assert(before + Seq::<char>::empty() + chars@ == seq!['('] + chars@);
                    }
                    texts = texts.push(chars@);
                }
            },
            None => {
                proof {
                    lemma_tuple_texts_fails(kinds, views, (i + 1) as nat);
                }
                return None;
            },
        }
        i += 1;
    }
    out.push(')');
    Some(out)
}

/// The characters of the text of a dictionary of the entries `entries`,
/// whose values are of the type `value_type`.
fn dict_chars(value_type: &FieldType, entries: &Vec<(String, Value)>) -> (r: Option<Vec<char>>)
    ensures
        match r {
            Some(chars) => bracketed(
                '{',
                entry_texts(value_type@, fields_view(*entries), entries.len() as nat),
                '}',
            ) == Some(chars@),
            None => entry_texts(value_type@, fields_view(*entries), entries.len() as nat) is None,
        },
    decreases value_type, 1nat,
{
    let ghost views = fields_view(*entries);
    let ghost mut texts: Seq<Seq<char>> = Seq::empty();
    let mut out: Vec<char> = Vec::new();
    out.push('{');
    assert(out@ == seq!['{'] + join_texts(texts, item_separator()));
    let mut i: usize = 0;
    while i < entries.len()
        invariant
            i <= entries.len(),
            views == fields_view(*entries),
            entry_texts(value_type@, views, i as nat) == Some(texts),
            texts.len() == i,
            out@ == seq!['{'] + join_texts(texts, item_separator()),
        decreases entries.len() - i,
    {
        assert(views[i as int] == (entries[i as int].0@, entries[i as int].1@));
        match value_type.value_chars(&entries[i].1) {
            Some(chars) => {
                let mut entry = chars_of(entries[i].0.as_str());
                entry.push(':');
                entry.push(' ');
                push_chars(&mut entry, &chars);
                assert(entry@ == entries[i as int].0@ + key_separator() + chars@);
                proof {
                    lemma_join_push(texts, entry@, item_separator());
                }
                let ghost before = out@;
                push_item(&mut out, i == 0, &entry);
                proof {
                    if i > 0 {
                        assert(before + item_separator() + entry@ == seq!['{'] + (join_texts(
                            texts,
                            item_separator(),
                        ) + item_separator() + entry@));
                    } else {
                        assert(before + Seq::<char>::empty() + entry@ == seq!['{'] + entry@);
                    }
                    texts = texts.push(entry@);
                }
            },
            None => {
                proof {
                    lemma_entry_texts_fails(value_type@, views, (i + 1) as nat);
                }
                return None;
            },
        }
        i += 1;
    }
    out.push('}');
    Some(out)
}

impl FieldType {
    /// The characters of the text under which `data` is stored in a field of
    /// this type.
    pub fn value_chars(&self, data: &Value) -> (r: Option<Vec<char>>)
        ensures
            match r {
                Some(chars) => value_text(self@, data@) == Some(chars@),
                None => value_text(self@, data@) is None,
            },
        decreases self, 0nat,
    {
        match (self, data) {
            (FieldType::Str, Value::Str(s)) => Some(chars_of(s.as_str())),
            (FieldType::Nested { .. }, Value::Str(s)) => Some(chars_of(s.as_str())),
            (FieldType::Int, Value::Int(i)) => Some(i64_chars(*i)),
            (FieldType::Float, Value::Float(s)) => {
                let chars = chars_of(s.as_str());
                if is_float_chars(&chars) {
                    Some(chars)
                } else {
                    None
                }
            },
            (FieldType::Bool, Value::Bool(b)) => Some(bool_chars(*b)),
            (FieldType::Datetime, Value::Datetime(timestamp)) => optional_chars(
                datetime_to_text(*timestamp),
            ),
            (FieldType::Date, Value::Date(timestamp)) => optional_chars(date_to_text(*timestamp)),
            (FieldType::Null, Value::Null) => {
                let mut out: Vec<char> = Vec::new();
                proof {
                    reveal_strlit("None");
                }
                push_str(&mut out, "None");
                assert(out@ == null_text());
                Some(out)
            },
            (FieldType::List { items }, Value::List(values)) => list_chars(items, values),
            (FieldType::Tuple { items }, Value::Tuple(values)) => {
                if items.len() != values.len() {
                    None
                } else {
                    tuple_chars(items, values)
                }
            },
            (FieldType::Dict { value }, Value::Dict(entries)) => dict_chars(value, entries),
            _ => None,
        }
    }

    /// The text under which `data` is stored in a field of this type; `None`
    /// where `data` is no value of this type, or is an instant or a day that
    /// has no text.
    pub fn to_text(&self, data: &Value) -> (r: Option<String>)
        ensures
            match r {
                Some(text) => value_text(self@, data@) == Some(text@),
                None => value_text(self@, data@) is None,
            },
    {
        match self.value_chars(data) {
            Some(chars) => {
                assert(chars@.subrange(0, chars.len() as int) == chars@);
                Some(string_of(&chars, 0, chars.len()))
            },
            None => None,
        }
    }
}

} // verus!
