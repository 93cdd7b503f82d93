//! Lists, tuples and dictionaries are read back from the text they are
//! written as, item for item and in order, as long as no item's text can be
//! taken for punctuation.

use vstd::prelude::*;
use crate::errors::MismatchView;
use crate::field_types::FieldTypeView;
use crate::laws::{is_scalar, lemma_scalar_round_trip};
use crate::numbers::{digits_of, int_text, is_digit, lemma_digits_of};
use crate::parsers::{str_portions, unquoted};
use crate::reading::{parse_entries, parse_items, parse_text, parse_tuple_items};
use crate::text::{
    ends_with, is_whitespace, split, split_from, starts_with, trim, trim_end, trim_end_matches,
    trim_start, trim_start_matches,
};
use crate::field_types::{distinct_names, lemma_first_index};
use crate::values::{field_names, with_field, FieldsView, ValueView};
use crate::writing::{
    entry_texts, item_separator, item_texts, join_texts, key_separator, tuple_texts, value_text,
};

verus! {

/// Whether `text` does not hold the character `c`.
pub open spec fn has_no(text: Seq<char>, c: char) -> bool {
    forall|i: int| 0 <= i < text.len() ==> text[i] != c
}

/// Whether `c` is one of the brackets that stand around a list, a tuple or
/// a dictionary.
pub open spec fn is_bracket(c: char) -> bool {
    c == '[' || c == ']' || c == '(' || c == ')' || c == '{' || c == '}'
}

/// Whether `c` can stand at an end of an item: it is no white space, no
/// quote and no bracket.
pub open spec fn is_plain_end(c: char) -> bool {
    !is_whitespace(c) && c != '\'' && !is_bracket(c)
}

/// Whether `text` can stand as an item of a list, a tuple or a dictionary
/// without being taken for punctuation: it holds no comma, and it neither
/// begins nor ends with white space, a quote or a bracket.
pub open spec fn is_plain_item(text: Seq<char>) -> bool {
    &&& has_no(text, ',')
    &&& text.len() > 0 ==> is_plain_end(text[0]) && is_plain_end(text.last())
}

/// Whether every text of `texts` is a plain item.
pub open spec fn all_plain(texts: Seq<Seq<char>>) -> bool {
    forall|i: int| 0 <= i < texts.len() ==> is_plain_item(#[trigger] texts[i])
}

/// A text without the separating character is one piece.
proof fn lemma_split_none(s: Seq<char>, c: char, start: int, i: int)
    requires
        0 <= start <= i <= s.len(),
        forall|j: int| i <= j < s.len() ==> s[j] != c,
    ensures
        split_from(s, seq![c], start, i) == seq![s.subrange(start, s.len() as int)],
    decreases s.len() - i,
{
    if i + 1 <= s.len() {
        assert(s.subrange(i, i + 1)[0] == s[i]);
        lemma_split_none(s, c, start, i + 1);
    }
}

/// The pieces of a text behind a prefix are the pieces of the text alone.
proof fn lemma_split_shift(x: Seq<char>, b: Seq<char>, c: char, start: int, i: int)
    requires
        0 <= start <= i <= b.len(),
    ensures
        split_from(x + b, seq![c], x.len() + start, x.len() + i) == split_from(
            b,
            seq![c],
            start,
            i,
        ),
    decreases b.len() - i,
{
    let s = x + b;
    let k = x.len() as int;
    assert(s.subrange(k + start, s.len() as int) == b.subrange(start, b.len() as int));
    if i + 1 <= b.len() {
        assert(s.subrange(k + i, k + i + 1) == b.subrange(i, i + 1));
        assert(s.subrange(k + start, k + i) == b.subrange(start, i));
        if b.subrange(i, i + 1) == seq![c] {
            lemma_split_shift(x, b, c, i + 1, i + 1);
        } else {
            lemma_split_shift(x, b, c, start, i + 1);
        }
    }
}

/// A text that holds the separating character first behind `a` splits into
/// `a` and the pieces of what follows the character.
proof fn lemma_split_first(a: Seq<char>, b: Seq<char>, c: char, i: int)
    requires
        0 <= i <= a.len(),
        forall|j: int| 0 <= j < a.len() ==> a[j] != c,
    ensures
        split_from(a + seq![c] + b, seq![c], 0, i) == seq![a] + split_from(b, seq![c], 0, 0),
    decreases a.len() - i,
{
    let s = a + seq![c] + b;
    assert(s.subrange(i, i + 1)[0] == s[i]);
    if i < a.len() {
        assert(s[i] == a[i]);
        lemma_split_first(a, b, c, i + 1);
    } else {
        assert(s[i] == c);
        assert(s.subrange(i, i + 1) == seq![c]);
        assert(s.subrange(0, i) == a);
        lemma_split_shift(a + seq![c], b, c, 0, 0);
    }
}

/// Joined texts are the first text, the separator, and the other texts
/// joined.
proof fn lemma_join_front(texts: Seq<Seq<char>>, sep: Seq<char>)
    requires
        texts.len() >= 2,
    ensures
        join_texts(texts, sep) == texts[0] + sep + join_texts(texts.skip(1), sep),
    decreases texts.len(),
{
    let rest = texts.skip(1);
    if texts.len() == 2 {
        assert(texts.drop_last() == seq![texts[0]]);
        assert(rest == seq![texts[1]]);
        assert(join_texts(texts.drop_last(), sep) == texts[0]);
        assert(join_texts(rest, sep) == texts[1]);
    } else {
        lemma_join_front(texts.drop_last(), sep);
        assert(texts.drop_last().skip(1) == rest.drop_last());
        assert(texts.drop_last()[0] == texts[0]);
        assert(rest.last() == texts.last());
        assert(texts[0] + sep + join_texts(rest.drop_last(), sep) + sep + texts.last() == texts[0]
            + sep + (join_texts(rest.drop_last(), sep) + sep + rest.last()));
    }
}

/// Joined texts that hold no comma hold none but the separating ones.
proof fn lemma_split_joined(prefix: Seq<char>, texts: Seq<Seq<char>>)
    requires
        texts.len() > 0,
        has_no(prefix, ','),
        forall|i: int| 0 <= i < texts.len() ==> has_no(#[trigger] texts[i], ','),
    ensures
        split(prefix + join_texts(texts, item_separator()), seq![',']) == Seq::new(
            texts.len(),
            |i: int|
                if i == 0 {
                    prefix + texts[i]
                } else {
                    seq![' '] + texts[i]
                },
        ),
    decreases texts.len(),
{
    let joined = join_texts(texts, item_separator());
    let want = Seq::new(
        texts.len(),
        |i: int|
            if i == 0 {
                prefix + texts[i]
            } else {
                seq![' '] + texts[i]
            },
    );
    if texts.len() == 1 {
        let s = prefix + texts[0];
        assert(has_no(texts[0], ','));
        assert forall|j: int| 0 <= j < s.len() implies s[j] != ',' by {
            if j >= prefix.len() {
                assert(s[j] == texts[0][j - prefix.len()]);
            }
        }
        lemma_split_none(s, ',', 0, 0);
        assert(s.subrange(0, s.len() as int) == s);
        assert(want == seq![s]);
    } else {
        let rest = texts.skip(1);
        lemma_join_front(texts, item_separator());
        let a = prefix + texts[0];
        let b = seq![' '] + join_texts(rest, item_separator());
        assert(prefix + joined == a + seq![','] + b);
        assert(has_no(texts[0], ','));
        assert forall|j: int| 0 <= j < a.len() implies a[j] != ',' by {
            if j >= prefix.len() {
                assert(a[j] == texts[0][j - prefix.len()]);
            }
        }
        lemma_split_first(a, b, ',', 0);
        assert forall|i: int| 0 <= i < rest.len() implies has_no(#[trigger] rest[i], ',') by {
            assert(rest[i] == texts[i + 1]);
        }
        lemma_split_joined(seq![' '], rest);
        let tail = Seq::new(
            rest.len(),
            |i: int|
                if i == 0 {
                    seq![' '] + rest[i]
                } else {
                    seq![' '] + rest[i]
                },
        );
        assert(split(b, seq![',']) == tail);
        assert(seq![a] + tail == want);
    }
}

/// A plain item stays as it is when the white space and the quotes around
/// it are taken off, also behind the space that follows a comma.
proof fn lemma_unquoted_plain(text: Seq<char>)
    requires
        is_plain_item(text),
    ensures
        unquoted(text) == text,
        unquoted(seq![' '] + text) == text,
{
    let quote = seq!['\''];
    let led = seq![' '] + text;
    assert(led.skip(1) == text);
    assert(is_whitespace(' '));
    assert(trim_start(text) == text);
    assert(trim_start(led) == text);
    assert(trim_end(text) == text);
    assert(trim(text) == text);
    assert(trim(led) == text);
    if text.len() > 0 {
        assert(text.skip(text.len() - 1)[0] == text.last());
        assert(text.take(1)[0] == text[0]);
    }
    assert(!ends_with(text, quote));
    assert(!starts_with(text, quote));
    assert(trim_end_matches(text, quote) == text);
    assert(trim_start_matches(text, quote) == text);
}

/// The portions of the bracketed, joined text of plain items are the items.
pub proof fn lemma_portions_of_joined(texts: Seq<Seq<char>>, open: char, close: char)
    requires
        texts.len() > 0,
        all_plain(texts),
        is_bracket(open),
        is_bracket(close),
        open != close,
    ensures
        str_portions(
            seq![open] + join_texts(texts, item_separator()) + seq![close],
            seq![open],
            seq![close],
            seq![','],
        ) == texts,
{
    let joined = join_texts(texts, item_separator());
    let text = seq![open] + joined + seq![close];
    let opening = seq![open];
    let closing = seq![close];
    lemma_joined_ends(texts);
    // the brackets come off, and nothing else
    let inner = joined + closing;
    assert(text.take(1) == opening);
    assert(text.skip(1) == inner);
    assert(inner.len() > 0);
    assert(inner[0] != open) by {
        if joined.len() > 0 {
            assert(inner[0] == joined[0]);
        }
    }
    assert(!starts_with(inner, opening)) by {
        assert(inner.take(1)[0] == inner[0]);
    }
    assert(trim_start_matches(inner, opening) == inner);
    assert(trim_start_matches(text, opening) == inner);
    assert(inner.skip(inner.len() - 1) == closing);
    assert(inner.take(inner.len() - 1) == joined);
    assert(!ends_with(joined, closing)) by {
        if joined.len() > 0 {
            assert(joined.skip(joined.len() - 1)[0] == joined.last());
        }
    }
    assert(trim_end_matches(joined, closing) == joined);
    assert(trim_end_matches(inner, closing) == joined);
    // the commas between the items are the only ones
    assert forall|i: int| 0 <= i < texts.len() implies has_no(#[trigger] texts[i], ',') by {
        assert(is_plain_item(texts[i]));
    }
    lemma_split_joined(Seq::empty(), texts);
    assert(Seq::<char>::empty() + joined == joined);
    let pieces = split(joined, seq![',']);
    assert(pieces.len() == texts.len());
    let portions = str_portions(text, opening, closing, seq![',']);
    assert forall|i: int| 0 <= i < texts.len() implies portions[i] == texts[i] by {
        lemma_unquoted_plain(texts[i]);
        if i == 0 {
            assert(pieces[0] == Seq::<char>::empty() + texts[0]);
            assert(Seq::<char>::empty() + texts[0] == texts[0]);
        } else {
            assert(pieces[i] == seq![' '] + texts[i]);
        }
    }
    assert(portions == texts);
}

/// Joined plain items begin as the first of them begins and end as the last
/// of them ends, or with the comma or the space of a separator: with no
/// bracket.
proof fn lemma_joined_ends(texts: Seq<Seq<char>>)
    requires
        texts.len() > 0,
        all_plain(texts),
    ensures
        ({
            let joined = join_texts(texts, item_separator());
            joined.len() > 0 ==> !is_bracket(joined[0]) && !is_bracket(joined.last())
        }),
    decreases texts.len(),
{
    let sep = item_separator();
    let joined = join_texts(texts, sep);
    assert(is_plain_item(texts[0]));
    assert(is_plain_item(texts.last()));
    if texts.len() >= 2 {
        let head = join_texts(texts.drop_last(), sep);
        assert forall|i: int| 0 <= i < texts.drop_last().len() implies is_plain_item(
            #[trigger] texts.drop_last()[i],
        ) by {
            assert(texts.drop_last()[i] == texts[i]);
        }
        lemma_joined_ends(texts.drop_last());
        assert(joined == head + sep + texts.last());
        if head.len() > 0 {
            assert(joined[0] == head[0]);
        } else {
            assert(joined[0] == ',');
        }
        if texts.last().len() > 0 {
            assert(joined.last() == texts.last().last());
        } else {
            assert(joined.last() == ' ');
        }
    }
}

/// There are as many texts as items, and each is the text of its item.
proof fn lemma_item_texts_at(t: FieldTypeView, values: Seq<ValueView>, n: nat)
    requires
        n <= values.len(),
    ensures
        item_texts(t, values, n) matches Some(texts) ==> texts.len() == n && forall|k: int|
            0 <= k < n ==> value_text(t, #[trigger] values[k]) == Some(texts[k]),
    decreases n,
{
    if n > 0 {
        lemma_item_texts_at(t, values, (n - 1) as nat);
        match (item_texts(t, values, (n - 1) as nat), value_text(t, values[n - 1])) {
            (Some(head), Some(text)) => {
                let texts = head.push(text);
                assert(item_texts(t, values, n) == Some(texts));
                assert forall|k: int| 0 <= k < n implies value_text(t, #[trigger] values[k])
                    == Some(texts[k]) by {
                    if k < n - 1 {
                        assert(texts[k] == head[k]);
                    }
                }
            },
            _ => {},
        }
    }
}

/// Items that have texts are written as those texts.
proof fn lemma_item_texts_exist(t: FieldTypeView, values: Seq<ValueView>, n: nat)
    requires
        n <= values.len(),
        forall|k: int| 0 <= k < values.len() ==> value_text(t, #[trigger] values[k]) is Some,
    ensures
        item_texts(t, values, n) is Some,
    decreases n,
{
    if n > 0 {
        lemma_item_texts_exist(t, values, (n - 1) as nat);
    }
}

/// The items of a list are read from the texts they were written as.
proof fn lemma_items_round_trip(
    t: FieldTypeView,
    values: Seq<ValueView>,
    texts: Seq<Seq<char>>,
    n: nat,
)
    requires
        is_scalar(t),
        n <= values.len(),
        texts.len() == values.len(),
        forall|k: int|
            0 <= k < values.len() ==> value_text(t, #[trigger] values[k]) == Some(texts[k]),
    ensures
        parse_items(t, texts, n) == Ok::<Seq<ValueView>, MismatchView>(values.take(n as int)),
    decreases n,
{
    if n > 0 {
        lemma_items_round_trip(t, values, texts, (n - 1) as nat);
        assert(value_text(t, values[n - 1]) == Some(texts[n - 1]));
        lemma_scalar_round_trip(t, values[n - 1]);
        assert(values.take(n - 1).push(values[n - 1]) == values.take(n as int));
    } else {
        assert(values.take(0) == Seq::<ValueView>::empty());
    }
}

/// A list that is not empty, of scalar values whose texts are plain items,
/// is read back from the text it is written as: the same items in the same
/// order.
pub proof fn lemma_list_round_trip(t: FieldTypeView, values: Seq<ValueView>)
    requires
        is_scalar(t),
        values.len() > 0,
        item_texts(t, values, values.len()) matches Some(texts) && all_plain(texts),
    ensures
        ({
            let list = FieldTypeView::List { items: Box::new(t) };
            parse_text(list, value_text(list, ValueView::List(values))->0) == Ok::<
                ValueView,
                MismatchView,
            >(ValueView::List(values))
        }),
{
    let texts = item_texts(t, values, values.len())->0;
    lemma_item_texts_at(t, values, values.len());
    lemma_portions_of_joined(texts, '[', ']');
    lemma_items_round_trip(t, values, texts, values.len());
    assert(values.take(values.len() as int) == values);
}

/// The decimal text of an integer is a plain item.
pub proof fn lemma_int_text_is_plain(i: int)
    ensures
        is_plain_item(int_text(i)),
{
    let text = int_text(i);
    let magnitude = if i < 0 {
        (-i) as nat
    } else {
        i as nat
    };
    lemma_digits_of(magnitude);
    let digits = digits_of(magnitude);
    assert forall|j: int| 0 <= j < text.len() implies is_digit(#[trigger] text[j]) || text[j]
        == '-' by {
        if i < 0 {
            if j > 0 {
                assert(text[j] == digits[j - 1]);
            }
        }
    }
    assert(is_digit(text.last())) by {
        if i < 0 {
            assert(text.last() == digits.last());
        }
    }
}

/// A list of integers that is not empty is read back from the text it is
/// written as.
pub proof fn lemma_int_list_round_trip(values: Seq<ValueView>)
    requires
        values.len() > 0,
        forall|i: int| 0 <= i < values.len() ==> (#[trigger] values[i]) is Int,
    ensures
        ({
            let list = FieldTypeView::List { items: Box::new(FieldTypeView::Int) };
            parse_text(list, value_text(list, ValueView::List(values))->0) == Ok::<
                ValueView,
                MismatchView,
            >(ValueView::List(values))
        }),
{
    let t = FieldTypeView::Int;
    assert forall|k: int| 0 <= k < values.len() implies value_text(t, #[trigger] values[k])
        is Some by {
        assert(values[k] is Int);
    }
    lemma_item_texts_exist(t, values, values.len());
    lemma_item_texts_at(t, values, values.len());
    let texts = item_texts(t, values, values.len())->0;
    assert forall|k: int| 0 <= k < texts.len() implies is_plain_item(#[trigger] texts[k]) by {
        assert(values[k] is Int);
        assert(value_text(t, values[k]) == Some(texts[k]));
        lemma_int_text_is_plain(values[k]->Int_0 as int);
    }
    lemma_list_round_trip(t, values);
}

/// There are as many texts as items of a tuple, and each is the text of its
/// item.
proof fn lemma_tuple_texts_at(types: Seq<FieldTypeView>, values: Seq<ValueView>, n: nat)
    requires
        n <= values.len(),
        n <= types.len(),
    ensures
        tuple_texts(types, values, n) matches Some(texts) ==> texts.len() == n && forall|k: int|
            0 <= k < n ==> value_text(types[k], #[trigger] values[k]) == Some(texts[k]),
    decreases n,
{
    if n > 0 {
        lemma_tuple_texts_at(types, values, (n - 1) as nat);
        match (tuple_texts(types, values, (n - 1) as nat), value_text(types[n - 1], values[n - 1])) {
            (Some(head), Some(text)) => {
                let texts = head.push(text);
                assert(tuple_texts(types, values, n) == Some(texts));
                assert forall|k: int| 0 <= k < n implies value_text(
                    types[k],
                    #[trigger] values[k],
                ) == Some(texts[k]) by {
                    if k < n - 1 {
                        assert(texts[k] == head[k]);
                    }
                }
            },
            _ => {},
        }
    }
}

/// The items of a tuple are read from the texts they were written as.
proof fn lemma_tuple_items_round_trip(
    types: Seq<FieldTypeView>,
    values: Seq<ValueView>,
    texts: Seq<Seq<char>>,
    n: nat,
)
    requires
        n <= values.len(),
        types.len() == values.len(),
        texts.len() == values.len(),
        forall|k: int| 0 <= k < types.len() ==> is_scalar(#[trigger] types[k]),
        forall|k: int|
            0 <= k < values.len() ==> value_text(types[k], #[trigger] values[k]) == Some(texts[k]),
    ensures
        parse_tuple_items(types, texts, n) == Ok::<Seq<ValueView>, MismatchView>(
            values.take(n as int),
        ),
    decreases n,
{
    if n > 0 {
        lemma_tuple_items_round_trip(types, values, texts, (n - 1) as nat);
        assert(value_text(types[n - 1], values[n - 1]) == Some(texts[n - 1]));
        assert(is_scalar(types[n - 1]));
        lemma_scalar_round_trip(types[n - 1], values[n - 1]);
        assert(values.take(n - 1).push(values[n - 1]) == values.take(n as int));
    } else {
        assert(values.take(0) == Seq::<ValueView>::empty());
    }
}

/// A tuple that is not empty, of scalar values whose texts are plain items,
/// is read back from the text it is written as.
pub proof fn lemma_tuple_round_trip(types: Seq<FieldTypeView>, values: Seq<ValueView>)
    requires
        values.len() > 0,
        types.len() == values.len(),
        forall|k: int| 0 <= k < types.len() ==> is_scalar(#[trigger] types[k]),
        tuple_texts(types, values, values.len()) matches Some(texts) && all_plain(texts),
    ensures
        ({
            let tuple = FieldTypeView::Tuple { items: types };
            parse_text(tuple, value_text(tuple, ValueView::Tuple(values))->0) == Ok::<
                ValueView,
                MismatchView,
            >(ValueView::Tuple(values))
        }),
{
    let texts = tuple_texts(types, values, values.len())->0;
    lemma_tuple_texts_at(types, values, values.len());
    lemma_portions_of_joined(texts, '(', ')');
    lemma_tuple_items_round_trip(types, values, texts, values.len());
    assert(values.take(values.len() as int) == values);
}

/// Whether `text` can stand as a key or as the text of a value in a
/// dictionary: it is a plain item that is not empty and holds no colon.
pub open spec fn is_plain_part(text: Seq<char>) -> bool {
    is_plain_item(text) && text.len() > 0 && has_no(text, ':')
}

/// The text of the entry of a dictionary with the key `key` and the value
/// text `text`.
pub open spec fn entry_text(key: Seq<char>, text: Seq<char>) -> Seq<char> {
    key + key_separator() + text
}

/// The text of an entry with a plain key and a plain value text is a plain
/// item, and is taken apart at its colon into the key and the value text.
proof fn lemma_entry_parts(key: Seq<char>, text: Seq<char>)
    requires
        is_plain_part(key),
        is_plain_part(text),
    ensures
        is_plain_item(entry_text(key, text)),
        str_portions(entry_text(key, text), Seq::empty(), Seq::empty(), seq![':']) == seq![
            key,
            text,
        ],
{
    let entry = entry_text(key, text);
    let led = seq![' '] + text;
    assert(entry == key + seq![':'] + led);
    assert(entry[0] == key[0]);
    assert(entry.last() == text.last());
    assert forall|i: int| 0 <= i < entry.len() implies entry[i] != ',' by {
        if i < key.len() {
            assert(entry[i] == key[i]);
        } else if i >= key.len() + 2 {
            assert(entry[i] == text[i - key.len() - 2]);
        }
    }
    assert(trim_start_matches(entry, Seq::empty()) == entry);
    assert(trim_end_matches(entry, Seq::empty()) == entry);
    lemma_split_first(key, led, ':', 0);
    assert forall|j: int| 0 <= j < led.len() implies led[j] != ':' by {
        if j > 0 {
            assert(led[j] == text[j - 1]);
        }
    }
    lemma_split_none(led, ':', 0, 0);
    assert(led.subrange(0, led.len() as int) == led);
    let pieces = split(entry, seq![':']);
    assert(pieces == seq![key, led]);
    lemma_unquoted_plain(key);
    lemma_unquoted_plain(text);
    let parts = str_portions(entry, Seq::empty(), Seq::empty(), seq![':']);
    assert(parts.len() == 2);
    assert(parts[0] == key);
    assert(parts[1] == text);
    assert(parts == seq![key, text]);
}

/// There are as many texts as entries, and each is the text of its entry.
proof fn lemma_entry_texts_at(t: FieldTypeView, entries: FieldsView, n: nat)
    requires
        n <= entries.len(),
    ensures
        entry_texts(t, entries, n) matches Some(texts) ==> texts.len() == n && forall|k: int|
            0 <= k < n ==> value_text(t, (#[trigger] entries[k]).1) is Some && texts[k]
                == entry_text(entries[k].0, value_text(t, entries[k].1)->0),
    decreases n,
{
    if n > 0 {
        lemma_entry_texts_at(t, entries, (n - 1) as nat);
        match (entry_texts(t, entries, (n - 1) as nat), value_text(t, entries[n - 1].1)) {
            (Some(head), Some(text)) => {
                let texts = head.push(entry_text(entries[n - 1].0, text));
                assert(entry_texts(t, entries, n) == Some(texts));
                assert forall|k: int| 0 <= k < n implies value_text(t, (#[trigger] entries[k]).1)
                    is Some && texts[k] == entry_text(
                    entries[k].0,
                    value_text(t, entries[k].1)->0,
                ) by {
                    if k < n - 1 {
                        assert(texts[k] == head[k]);
                    }
                }
            },
            _ => {},
        }
    }
}

/// The entries of a dictionary are read from the texts they were written
/// as.
proof fn lemma_entries_round_trip(
    t: FieldTypeView,
    entries: FieldsView,
    texts: Seq<Seq<char>>,
    n: nat,
)
    requires
        is_scalar(t),
        n <= entries.len(),
        texts.len() == entries.len(),
        distinct_names(field_names(entries)),
        forall|k: int|
            0 <= k < entries.len() ==> is_plain_part((#[trigger] entries[k]).0) && value_text(
                t,
                entries[k].1,
            ) is Some && is_plain_part(value_text(t, entries[k].1)->0) && texts[k] == entry_text(
                entries[k].0,
                value_text(t, entries[k].1)->0,
            ),
    ensures
        parse_entries(t, texts, n) == Ok::<FieldsView, MismatchView>(entries.take(n as int)),
    decreases n,
{
    if n > 0 {
        lemma_entries_round_trip(t, entries, texts, (n - 1) as nat);
        let key = entries[n - 1].0;
        let value = entries[n - 1].1;
        let text = value_text(t, value)->0;
        assert(texts[n - 1] == entry_text(key, text));
        lemma_entry_parts(key, text);
        lemma_scalar_round_trip(t, value);
        let names = field_names(entries);
        assert(names[n - 1] == key);
        lemma_first_index(names.take(n - 1), key, 0);
        assert(field_names(entries.take(n - 1)) == names.take(n - 1));
        assert(with_field(entries.take(n - 1), key, value) == entries.take(n - 1).push(
            (key, value),
        ));
        assert(entries.take(n - 1).push((key, value)) == entries.take(n as int));
    } else {
        assert(entries.take(0) == FieldsView::empty());
    }
}

/// A dictionary that is not empty, with keys that are plain and distinct and
/// scalar values whose texts are plain, is read back from the text it is
/// written as: the same entries in the same order.
pub proof fn lemma_dict_round_trip(t: FieldTypeView, entries: FieldsView)
    requires
        is_scalar(t),
        entries.len() > 0,
        distinct_names(field_names(entries)),
        forall|k: int|
            0 <= k < entries.len() ==> is_plain_part((#[trigger] entries[k]).0) && value_text(
                t,
                entries[k].1,
            ) is Some && is_plain_part(value_text(t, entries[k].1)->0),
    ensures
        ({
            let dict = FieldTypeView::Dict { value: Box::new(t) };
            parse_text(dict, value_text(dict, ValueView::Dict(entries))->0) == Ok::<
                ValueView,
                MismatchView,
            >(ValueView::Dict(entries))
        }),
{
    lemma_entry_texts_exist(t, entries, entries.len());
    lemma_entry_texts_at(t, entries, entries.len());
    let texts = entry_texts(t, entries, entries.len())->0;
    assert forall|k: int| 0 <= k < texts.len() implies is_plain_item(#[trigger] texts[k]) by {
        assert(is_plain_part(entries[k].0));
        lemma_entry_parts(entries[k].0, value_text(t, entries[k].1)->0);
    }
    lemma_portions_of_joined(texts, '{', '}');
    lemma_entries_round_trip(t, entries, texts, entries.len());
    assert(entries.take(entries.len() as int) == entries);
}

/// Entries whose values have texts are written as those texts.
proof fn lemma_entry_texts_exist(t: FieldTypeView, entries: FieldsView, n: nat)
    requires
        n <= entries.len(),
        forall|k: int| 0 <= k < entries.len() ==> value_text(t, (#[trigger] entries[k]).1) is Some,
    ensures
        entry_texts(t, entries, n) is Some,
    decreases n,
{
    if n > 0 {
        lemma_entry_texts_exist(t, entries, (n - 1) as nat);
    }
}

} // verus!
