//! The read direction: from the text under which a value is stored, and
//! from the store's reply, to the typed value, as the field's type directs.

use vstd::prelude::*;
use vstd::string::*;
use crate::errors::{mismatch_in, Error, ErrorView, Mismatch, MismatchView, TypeTag};
use crate::field_types::{tag_of, type_of_field, FieldType, FieldTypeView, Schema, SchemaView};
use crate::numbers::{
    i64_text, int_text, is_float, is_float_text, lemma_int_text_is_float, parse_i64,
    parse_i64_text,
};
use crate::store_values::{store_text, store_values_view, StoreValue, StoreValueView};
use crate::parsers::{
    extract_str_portions, naive_date_timestamp, parse_date_to_timestamp,
    parse_datetime_to_timestamp, str_portions, texts_of, utc_datetime_timestamp, DATETIME_FORMAT,
    DATE_FORMAT,
};
use crate::text::same_text;
use crate::values::{
    fields_view, fields_wf, lemma_with_field_wf, put_field, value_wf, values_view, with_field,
    FieldsView, Value, ValueView,
};

verus! {

broadcast use vstd::std_specs::vec::axiom_vec_index_decreases;

/// The mismatch that tells that `text` is no text of the kind `expected`.
pub open spec fn text_mismatch(text: Seq<char>, expected: TypeTag) -> MismatchView {
    MismatchView { value: Some(text), expected }
}

/// The text `true`.
pub open spec fn true_text() -> Seq<char> {
    seq!['t', 'r', 'u', 'e']
}

/// The text `false`.
pub open spec fn false_text() -> Seq<char> {
    seq!['f', 'a', 'l', 's', 'e']
}

/// The value of type `t` that `text` denotes.
///
/// A text and a reference to another collection are taken as they stand,
/// and so is a number with a fraction, if it is written as one. A list, a
/// tuple and a dictionary are taken apart
/// at their commas, without regard to brackets or quotes inside an item, and
/// each item is read by the type declared for it; a tuple has as many items
/// as types.
pub open spec fn parse_text(t: FieldTypeView, text: Seq<char>) -> Result<ValueView, MismatchView>
    decreases t, 0nat,
{
    match t {
        FieldTypeView::Nested { .. } => Ok(ValueView::Str(text)),
        FieldTypeView::Dict { value } => {
            let portions = str_portions(text, seq!['{'], seq!['}'], seq![',']);
            match parse_entries(*value, portions, portions.len()) {
                Ok(entries) => Ok(ValueView::Dict(entries)),
                Err(m) => Err(m),
            }
        },
        FieldTypeView::List { items } => {
            let portions = str_portions(text, seq!['['], seq![']'], seq![',']);
            match parse_items(*items, portions, portions.len()) {
                Ok(values) => Ok(ValueView::List(values)),
                Err(m) => Err(m),
            }
        },
        FieldTypeView::Tuple { items } => {
            let portions = str_portions(text, seq!['('], seq![')'], seq![',']);
            if portions.len() != items.len() {
                Err(text_mismatch(text, TypeTag::Tuple))
            } else {
                match parse_tuple_items(items, portions, portions.len()) {
                    Ok(values) => Ok(ValueView::Tuple(values)),
                    Err(m) => Err(m),
                }
            }
        },
        FieldTypeView::Str => Ok(ValueView::Str(text)),
        FieldTypeView::Int => match parse_i64_text(text) {
            Some(i) => Ok(ValueView::Int(i)),
            None => Err(text_mismatch(text, TypeTag::Int)),
        },
        FieldTypeView::Float => if is_float_text(text) {
            Ok(ValueView::Float(text))
        } else {
            Err(text_mismatch(text, TypeTag::Float))
        },
        FieldTypeView::Bool => if text == true_text() {
            Ok(ValueView::Bool(true))
        } else if text == false_text() {
            Ok(ValueView::Bool(false))
        } else {
            Err(text_mismatch(text, TypeTag::Bool))
        },
        FieldTypeView::Datetime => match utc_datetime_timestamp(text, DATETIME_FORMAT@) {
            Some(timestamp) => Ok(ValueView::Datetime(timestamp)),
            None => Err(text_mismatch(text, TypeTag::Datetime)),
        },
        FieldTypeView::Date => match naive_date_timestamp(text, DATE_FORMAT@) {
            Some(timestamp) => Ok(ValueView::Date(timestamp)),
            None => Err(text_mismatch(text, TypeTag::Date)),
        },
        FieldTypeView::Null => Ok(ValueView::Null),
    }
}

/// The values of type `t` that the first `n` of `portions` denote, or the
/// mismatch of the first that denotes none.
pub open spec fn parse_items(t: FieldTypeView, portions: Seq<Seq<char>>, n: nat) -> Result<
    Seq<ValueView>,
    MismatchView,
>
    decreases t, n + 1,
{
    if n == 0 || n > portions.len() {
        Ok(Seq::empty())
    } else {
        match parse_items(t, portions, (n - 1) as nat) {
            Err(m) => Err(m),
            Ok(values) => match parse_text(t, portions[n - 1]) {
                Err(m) => Err(m),
                Ok(value) => Ok(values.push(value)),
            },
        }
    }
}

/// The values that the first `n` of `portions` denote, each read by the type
/// at its position in `types`, or the mismatch of the first that denotes
/// none.
pub open spec fn parse_tuple_items(types: Seq<FieldTypeView>, portions: Seq<Seq<char>>, n: nat)
    -> Result<Seq<ValueView>, MismatchView>
    decreases types, n + 1,
{
    if n == 0 || n > portions.len() || n > types.len() {
        Ok(Seq::empty())
    } else {
        match parse_tuple_items(types, portions, (n - 1) as nat) {
            Err(m) => Err(m),
            Ok(values) => match parse_text(types[n - 1], portions[n - 1]) {
                Err(m) => Err(m),
                Ok(value) => Ok(values.push(value)),
            },
        }
    }
}

/// The entries that the first `n` of `portions` denote: each portion that
/// holds exactly one colon gives the key before it and the value of type `t`
/// after it; other portions give nothing. A key that comes again replaces
/// the value of its first entry.
pub open spec fn parse_entries(t: FieldTypeView, portions: Seq<Seq<char>>, n: nat) -> Result<
    FieldsView,
    MismatchView,
>
    decreases t, n + 1,
{
    if n == 0 || n > portions.len() {
        Ok(Seq::empty())
    } else {
        match parse_entries(t, portions, (n - 1) as nat) {
            Err(m) => Err(m),
            Ok(entries) => {
                let pair = str_portions(
                    portions[n - 1],
                    Seq::empty(),
                    Seq::empty(),
                    seq![':'],
                );
                if pair.len() == 2 {
                    match parse_text(t, pair[1]) {
                        Err(m) => Err(m),
                        Ok(value) => Ok(with_field(entries, pair[0], value)),
                    }
                } else {
                    Ok(entries)
                }
            },
        }
    }
}

/// The mathematical content of the outcome of reading one value.
pub open spec fn value_result(r: Result<Value, Mismatch>) -> Result<ValueView, MismatchView> {
    match r {
        Ok(v) => Ok(v@),
        Err(m) => Err(m@),
    }
}

/// The mathematical content of the outcome of reading a sequence of values.
pub open spec fn values_result(r: Result<Vec<Value>, Mismatch>) -> Result<
    Seq<ValueView>,
    MismatchView,
> {
    match r {
        Ok(v) => Ok(values_view(v)),
        Err(m) => Err(m@),
    }
}

/// The mathematical content of the outcome of reading named values.
pub open spec fn entries_result(r: Result<Vec<(String, Value)>, Mismatch>) -> Result<
    FieldsView,
    MismatchView,
> {
    match r {
        Ok(v) => Ok(fields_view(v)),
        Err(m) => Err(m@),
    }
}

/// The mismatch that tells that `text` is no text of the kind `expected`.
pub fn mismatch_of(text: &str, expected: TypeTag) -> (m: Mismatch)
    ensures
        m@ == text_mismatch(text@, expected),
{
    Mismatch { value: Some(text.to_owned()), expected }
}

impl FieldType {
    /// Reads the text `data` as a value of the type `type_`.
    pub fn parse_str(data: &str, type_: &FieldType) -> (r: Result<Value, Mismatch>)
        ensures
            value_result(r) == parse_text(type_@, data@),
            r matches Ok(v) ==> value_wf(v@),
        decreases type_, 0nat,
    {
        proof {
            lemma_parse_text_wf(type_@, data@);
        }
        match type_ {
            FieldType::Nested { .. } => Ok(Value::Str(data.to_owned())),
            FieldType::Dict { value } => {
                match FieldType::parse_dict_str(data, value) {
                    Ok(entries) => Ok(Value::Dict(entries)),
                    Err(m) => Err(m),
                }
            },
            FieldType::List { items } => {
                match FieldType::parse_list_str(data, items) {
                    Ok(values) => Ok(Value::List(values)),
                    Err(m) => Err(m),
                }
            },
            FieldType::Tuple { items } => {
                match FieldType::parse_tuple_str(data, items) {
                    Ok(values) => Ok(Value::Tuple(values)),
                    Err(m) => Err(m),
                }
            },
            FieldType::Str => Ok(Value::Str(data.to_owned())),
            FieldType::Int => match parse_i64(data) {
                Some(i) => Ok(Value::Int(i)),
                None => Err(mismatch_of(data, TypeTag::Int)),
            },
            FieldType::Float => if is_float(data) {
                Ok(Value::Float(data.to_owned()))
            } else {
                Err(mismatch_of(data, TypeTag::Float))
            },
            FieldType::Bool => {
                proof {
                    reveal_strlit("true");
                    reveal_strlit("false");
                }
                assert("true"@ == true_text());
                assert("false"@ == false_text());
                if same_text(data, "true") {
                    Ok(Value::Bool(true))
                } else if same_text(data, "false") {
                    Ok(Value::Bool(false))
                } else {
                    Err(mismatch_of(data, TypeTag::Bool))
                }
            },
            FieldType::Datetime => match parse_datetime_to_timestamp(data) {
                Ok(timestamp) => Ok(Value::Datetime(timestamp)),
                Err(m) => Err(m),
            },
            FieldType::Date => match parse_date_to_timestamp(data) {
                Ok(timestamp) => Ok(Value::Date(timestamp)),
                Err(m) => Err(m),
            },
            FieldType::Null => Ok(Value::Null),
        }
    }

    /// Reads the text of a dictionary whose values are of the type `type_`:
    /// the entries between the braces, each a key, a colon and a value.
    pub fn parse_dict_str(value: &str, type_: &FieldType) -> (r: Result<
        Vec<(String, Value)>,
        Mismatch,
    >)
        ensures
            entries_result(r) == ({
                let portions = str_portions(value@, seq!['{'], seq!['}'], seq![',']);
                parse_entries(type_@, portions, portions.len())
            }),
            r matches Ok(entries) ==> fields_wf(fields_view(entries)),
        decreases type_, 1nat,
    {
        proof {
            let portions = str_portions(value@, seq!['{'], seq!['}'], seq![',']);
            lemma_parse_entries_wf(type_@, portions, portions.len());
        }
        proof {
            reveal_strlit("{");
            reveal_strlit("}");
            reveal_strlit(",");
            reveal_strlit(":");
            reveal_strlit("");
        }
        assert("{"@ == seq!['{'] && "}"@ == seq!['}'] && ","@ == seq![','] && ":"@ == seq![':']
            && ""@ == Seq::<char>::empty());
        let items = extract_str_portions(value, "{", "}", ",");
        let ghost portions = str_portions(value@, seq!['{'], seq!['}'], seq![',']);
        let mut entries: Vec<(String, Value)> = Vec::new();
        assert(fields_view(entries) == FieldsView::empty());
        let mut i: usize = 0;
        while i < items.len()
            invariant
                i <= items.len(),
                texts_of(items@) == portions,
                portions == str_portions(value@, seq!['{'], seq!['}'], seq![',']),
                ":"@ == seq![':'],
                ""@ == Seq::<char>::empty(),
                parse_entries(type_@, portions, i as nat) == Ok::<FieldsView, MismatchView>(
                    fields_view(entries),
                ),
            decreases items.len() - i,
        {
            assert(texts_of(items@)[i as int] == items@[i as int]@);
            let kv_items = extract_str_portions(items[i], "", "", ":");
            if kv_items.len() == 2 {
                assert(texts_of(kv_items@)[0] == kv_items@[0]@);
                assert(texts_of(kv_items@)[1] == kv_items@[1]@);
                match FieldType::parse_str(kv_items[1], type_) {
                    Ok(entry) => {
                        put_field(&mut entries, kv_items[0].to_owned(), entry);
                    },
                    Err(m) => {
                        proof {
                            assert(parse_entries(type_@, portions, (i + 1) as nat) == Err::<
                                FieldsView,
                                MismatchView,
                            >(m@));
                            lemma_parse_entries_fails(type_@, portions, (i + 1) as nat);
                        }
                        return Err(m);
                    },
                }
            }
            i += 1;
        }
        Ok(entries)
    }

    /// Reads the text of a list whose items are of the type `type_`: the
    /// items between the square brackets.
    pub fn parse_list_str(value: &str, type_: &FieldType) -> (r: Result<Vec<Value>, Mismatch>)
        ensures
            values_result(r) == ({
                let portions = str_portions(value@, seq!['['], seq![']'], seq![',']);
                parse_items(type_@, portions, portions.len())
            }),
        decreases type_, 1nat,
    {
        proof {
            reveal_strlit("[");
            reveal_strlit("]");
            reveal_strlit(",");
        }
        assert("["@ == seq!['['] && "]"@ == seq![']'] && ","@ == seq![',']);
        let items = extract_str_portions(value, "[", "]", ",");
        let ghost portions = str_portions(value@, seq!['['], seq![']'], seq![',']);
        let mut values: Vec<Value> = Vec::new();
        assert(values_view(values) == Seq::<ValueView>::empty());
        let mut i: usize = 0;
        while i < items.len()
            invariant
                i <= items.len(),
                texts_of(items@) == portions,
                portions == str_portions(value@, seq!['['], seq![']'], seq![',']),
                parse_items(type_@, portions, i as nat) == Ok::<Seq<ValueView>, MismatchView>(
                    values_view(values),
                ),
            decreases items.len() - i,
        {
            assert(texts_of(items@)[i as int] == items@[i as int]@);
            match FieldType::parse_str(items[i], type_) {
                Ok(item) => {
                    let ghost before = values_view(values);
                    values.push(item);
                    assert(values_view(values) == before.push(item@));
                },
                Err(m) => {
                    proof {
                        assert(parse_items(type_@, portions, (i + 1) as nat) == Err::<
                            Seq<ValueView>,
                            MismatchView,
                        >(m@));
                        lemma_parse_items_fails(type_@, portions, (i + 1) as nat);
                    }
                    return Err(m);
                },
            }
            i += 1;
        }
        Ok(values)
    }

    /// Reads the text of a tuple whose items are of the types `types_`, in
    /// that order: the items between the round brackets, as many as there are
    /// types.
    pub fn parse_tuple_str(value: &str, types_: &Vec<FieldType>) -> (r: Result<
        Vec<Value>,
        Mismatch,
    >)
        ensures
            values_result(r) == ({
                let types = (FieldType::Tuple { items: *types_ })@->Tuple_items;
                let portions = str_portions(value@, seq!['('], seq![')'], seq![',']);
                if portions.len() != types.len() {
                    Err(text_mismatch(value@, TypeTag::Tuple))
                } else {
                    parse_tuple_items(types, portions, portions.len())
                }
            }),
        decreases types_, 1nat,
    {
        proof {
            reveal_strlit("(");
            reveal_strlit(")");
            reveal_strlit(",");
        }
        assert("("@ == seq!['('] && ")"@ == seq![')'] && ","@ == seq![',']);
        let items = extract_str_portions(value, "(", ")", ",");
        let ghost portions = str_portions(value@, seq!['('], seq![')'], seq![',']);
        let ghost types = (FieldType::Tuple { items: *types_ })@->Tuple_items;
        if items.len() != types_.len() {
            return Err(mismatch_of(value, TypeTag::Tuple));
        }
        let mut values: Vec<Value> = Vec::new();
        assert(values_view(values) == Seq::<ValueView>::empty());
        let mut i: usize = 0;
        while i < items.len()
            invariant
                i <= items.len(),
                items.len() == types_.len(),
                texts_of(items@) == portions,
                portions == str_portions(value@, seq!['('], seq![')'], seq![',']),
                types == (FieldType::Tuple { items: *types_ })@->Tuple_items,
                parse_tuple_items(types, portions, i as nat) == Ok::<
                    Seq<ValueView>,
                    MismatchView,
                >(values_view(values)),
            decreases items.len() - i,
        {
            assert(texts_of(items@)[i as int] == items@[i as int]@);
            assert(types[i as int] == types_[i as int]@);
            match FieldType::parse_str(items[i], &types_[i]) {
                Ok(item) => {
                    let ghost before = values_view(values);
                    values.push(item);
                    assert(values_view(values) == before.push(item@));
                },
                Err(m) => {
                    proof {
                        assert(parse_tuple_items(types, portions, (i + 1) as nat) == Err::<
                            Seq<ValueView>,
                            MismatchView,
                        >(m@));
                        lemma_parse_tuple_items_fails(types, portions, (i + 1) as nat);
                    }
                    return Err(m);
                },
            }
            i += 1;
        }
        Ok(values)
    }
}

/// Once an item fails to be read, reading more items fails in the same way.
pub proof fn lemma_parse_items_fails(t: FieldTypeView, portions: Seq<Seq<char>>, k: nat)
    requires
        k <= portions.len(),
        parse_items(t, portions, k) is Err,
    ensures
        parse_items(t, portions, portions.len()) == parse_items(t, portions, k),
    decreases portions.len() - k,
{
    if k < portions.len() {
        assert(parse_items(t, portions, k + 1) == parse_items(t, portions, k));
        lemma_parse_items_fails(t, portions, k + 1);
    }
}

/// Once an item of a tuple fails to be read, reading more items fails in the
/// same way.
pub proof fn lemma_parse_tuple_items_fails(
    types: Seq<FieldTypeView>,
    portions: Seq<Seq<char>>,
    k: nat,
)
    requires
        k <= portions.len(),
        portions.len() == types.len(),
        parse_tuple_items(types, portions, k) is Err,
    ensures
        parse_tuple_items(types, portions, portions.len()) == parse_tuple_items(types, portions, k),
    decreases portions.len() - k,
{
    if k < portions.len() {
        assert(parse_tuple_items(types, portions, k + 1) == parse_tuple_items(types, portions, k));
        lemma_parse_tuple_items_fails(types, portions, k + 1);
    }
}

/// Once an entry fails to be read, reading more entries fails in the same
/// way.
pub proof fn lemma_parse_entries_fails(t: FieldTypeView, portions: Seq<Seq<char>>, k: nat)
    requires
        k <= portions.len(),
        parse_entries(t, portions, k) is Err,
    ensures
        parse_entries(t, portions, portions.len()) == parse_entries(t, portions, k),
    decreases portions.len() - k,
{
    if k < portions.len() {
        assert(parse_entries(t, portions, k + 1) == parse_entries(t, portions, k));
        lemma_parse_entries_fails(t, portions, k + 1);
    }
}

/// The mismatch of the field `field` where there is no text to show: what
/// was found is no value of the kind `expected` that is declared.
pub open spec fn no_text_error(field: Seq<char>, expected: TypeTag) -> ErrorView {
    ErrorView::TypeMismatch { field, value: None, expected }
}

/// The value of type `t` that the reply `v`, found under `field`, holds.
///
/// A reference to another collection is read from the sequence of names and
/// replies that the store put in the place of the key, by the schema of that
/// collection; an empty sequence, and any other reply under a reference,
/// stands for nothing. An integer reply is taken as it is by an integer and
/// by a number with a fraction. Every other value is read from the text that
/// the reply holds.
pub open spec fn read_value(field: Seq<char>, t: FieldTypeView, v: StoreValueView) -> Result<
    ValueView,
    ErrorView,
>
    decreases v, 0nat, 0nat,
{
    match t {
        FieldTypeView::Nested { schema, .. } => match v {
            StoreValueView::Bulk(items) => if items.len() == 0 {
                Ok(ValueView::Null)
            } else {
                match read_entity(schema, items) {
                    Ok(fields) => Ok(ValueView::Nested(fields)),
                    Err(e) => Err(e),
                }
            },
            _ => Ok(ValueView::Null),
        },
        FieldTypeView::Null => Ok(ValueView::Null),
        _ => match v {
            StoreValueView::Int(i) if t is Int => Ok(ValueView::Int(i)),
            StoreValueView::Int(i) if t is Float => Ok(ValueView::Float(int_text(i as int))),
            _ => match store_text(v) {
                None => Err(no_text_error(field, tag_of(t))),
                Some(text) => match parse_text(t, text) {
                    Ok(value) => Ok(value),
                    Err(m) => Err(mismatch_in(field, m)),
                },
            },
        },
    }
}

/// The fields of the entity that the store returned as `items`: names and
/// replies in turn, each reply read by the type that `schema` declares for
/// its name.
pub open spec fn read_entity(schema: SchemaView, items: Seq<StoreValueView>) -> Result<
    FieldsView,
    ErrorView,
>
    decreases items, 1nat, 0nat,
{
    if items.len() % 2 != 0 {
        Err(ErrorView::MalformedResponse)
    } else {
        read_pairs(schema, items, items.len() / 2)
    }
}

/// The fields that the first `n` pairs of `items` give, or the error of the
/// first pair that gives none. A name that is no text makes the reply
/// malformed; a name that `schema` does not declare is an unknown field; a
/// name that comes again replaces the value of its first entry.
pub open spec fn read_pairs(schema: SchemaView, items: Seq<StoreValueView>, n: nat) -> Result<
    FieldsView,
    ErrorView,
>
    decreases items, 0nat, n,
{
    if n == 0 || 2 * n > items.len() {
        Ok(Seq::empty())
    } else {
        match read_pairs(schema, items, (n - 1) as nat) {
            Err(e) => Err(e),
            Ok(fields) => match store_text(items[2 * n - 2]) {
                None => Err(ErrorView::MalformedResponse),
                Some(name) => match type_of_field(schema, name) {
                    None => Err(ErrorView::UnknownField { field: name }),
                    Some(t) => match read_value(name, t, items[2 * n - 1]) {
                        Err(e) => Err(e),
                        Ok(value) => Ok(with_field(fields, name, value)),
                    },
                },
            },
        }
    }
}

/// Once a pair fails to be read, reading more pairs fails in the same way.
pub proof fn lemma_read_pairs_fails(
    schema: SchemaView,
    items: Seq<StoreValueView>,
    k: nat,
    n: nat,
)
    requires
        k <= n,
        2 * n <= items.len(),
        read_pairs(schema, items, k) is Err,
    ensures
        read_pairs(schema, items, n) == read_pairs(schema, items, k),
    decreases n - k,
{
    if k < n {
        assert(read_pairs(schema, items, k + 1) == read_pairs(schema, items, k));
        lemma_read_pairs_fails(schema, items, k + 1, n);
    }
}

/// The mathematical content of the outcome of reading one stored value.
pub open spec fn read_result(r: Result<Value, Error>) -> Result<ValueView, ErrorView> {
    match r {
        Ok(v) => Ok(v@),
        Err(e) => Err(e@),
    }
}

/// The mathematical content of the outcome of reading the fields of an
/// entity.
pub open spec fn fields_result(r: Result<Vec<(String, Value)>, Error>) -> Result<
    FieldsView,
    ErrorView,
> {
    match r {
        Ok(v) => Ok(fields_view(v)),
        Err(e) => Err(e@),
    }
}

/// Reads the fields of one entity from `items`, the names and replies that
/// the store returned for it in turn, by the types that `schema` declares.
pub fn read_fields(schema: &Schema, items: &Vec<StoreValue>) -> (r: Result<
    Vec<(String, Value)>,
    Error,
>)
    ensures
        fields_result(r) == read_entity(schema@, store_values_view(*items)),
        r matches Ok(fields) ==> fields_wf(fields_view(fields)),
    decreases items, 1nat,
{
    proof {
        lemma_read_entity_wf(schema@, store_values_view(*items));
    }
    let ghost views = store_values_view(*items);
    if items.len() % 2 != 0 {
        return Err(Error::MalformedResponse);
    }
    let pairs: usize = items.len() / 2;
    let mut fields: Vec<(String, Value)> = Vec::new();
    assert(fields_view(fields) == FieldsView::empty());
    let mut i: usize = 0;
    while i < pairs
        invariant
            i <= pairs,
            pairs == items.len() / 2,
            items.len() % 2 == 0,
            views == store_values_view(*items),
            read_pairs(schema@, views, i as nat) == Ok::<FieldsView, ErrorView>(
                fields_view(fields),
            ),
        decreases pairs - i,
    {
        assert(views[2 * i] == items[2 * i]@);
        assert(views[2 * i + 1] == items[2 * i + 1]@);
        let name = match items[2 * i].to_text() {
            Some(name) => name,
            None => {
                proof {
                    assert(read_pairs(schema@, views, (i + 1) as nat) is Err);
                    lemma_read_pairs_fails(schema@, views, (i + 1) as nat, pairs as nat);
                }
                return Err(Error::MalformedResponse);
            },
        };
        let field_type = match schema.get_type(name.as_str()) {
            Some(field_type) => field_type,
            None => {
                proof {
                    assert(read_pairs(schema@, views, (i + 1) as nat) is Err);
                    lemma_read_pairs_fails(schema@, views, (i + 1) as nat, pairs as nat);
                }
                return Err(Error::UnknownField { field: name });
            },
        };
        match field_type.parse_reply(name.as_str(), &items[2 * i + 1]) {
            Ok(value) => {
                put_field(&mut fields, name, value);
            },
            Err(e) => {
                proof {
                    assert(read_pairs(schema@, views, (i + 1) as nat) is Err);
                    lemma_read_pairs_fails(schema@, views, (i + 1) as nat, pairs as nat);
                }
                return Err(e);
            },
        }
        i += 1;
    }
    Ok(fields)
}

impl FieldType {
    /// Reads the reply `data`, which the store holds under `field`, as a
    /// value of this type.
    pub fn parse_reply(&self, field: &str, data: &StoreValue) -> (r: Result<Value, Error>)
        ensures
            read_result(r) == read_value(field@, self@, data@),
            r matches Ok(v) ==> value_wf(v@),
        decreases data, 0nat,
    {
        proof {
            lemma_read_value_wf(field@, self@, data@);
        }
        match self {
            FieldType::Nested { schema, .. } => match data {
                StoreValue::Bulk(items) => if items.len() == 0 {
                    Ok(Value::Null)
                } else {
                    match read_fields(schema, items) {
                        Ok(fields) => Ok(Value::Nested(fields)),
                        Err(e) => Err(e),
                    }
                },
                _ => Ok(Value::Null),
            },
            FieldType::Null => Ok(Value::Null),
            _ => {
                if let StoreValue::Int(i) = data {
                    if let FieldType::Int = self {
                        return Ok(Value::Int(*i));
                    }
                    if let FieldType::Float = self {
                        return Ok(Value::Float(i64_text(*i)));
                    }
                }
                match data.to_text() {
                    None => Err(
                        Error::TypeMismatch {
                            field: field.to_owned(),
                            value: None,
                            expected: self.tag(),
                        },
                    ),
                    Some(text) => match FieldType::parse_str(text.as_str(), self) {
                        Ok(value) => Ok(value),
                        Err(m) => Err(m.in_field(field)),
                    },
                }
            },
        }
    }
}

/// What is read from a text is well formed.
pub proof fn lemma_parse_text_wf(t: FieldTypeView, text: Seq<char>)
    ensures
        parse_text(t, text) matches Ok(v) ==> value_wf(v),
    decreases t, 0nat,
{
    match t {
        FieldTypeView::Dict { value } => {
            let portions = str_portions(text, seq!['{'], seq!['}'], seq![',']);
            lemma_parse_entries_wf(*value, portions, portions.len());
        },
        FieldTypeView::List { items } => {
            let portions = str_portions(text, seq!['['], seq![']'], seq![',']);
            lemma_parse_items_wf(*items, portions, portions.len());
        },
        FieldTypeView::Tuple { items } => {
            let portions = str_portions(text, seq!['('], seq![')'], seq![',']);
            lemma_parse_tuple_items_wf(items, portions, portions.len());
        },
        _ => {},
    }
}

/// The items that are read from texts are well formed.
pub proof fn lemma_parse_items_wf(t: FieldTypeView, portions: Seq<Seq<char>>, n: nat)
    ensures
        parse_items(t, portions, n) matches Ok(values) ==> forall|i: int|
            0 <= i < values.len() ==> value_wf(#[trigger] values[i]),
    decreases t, n + 1,
{
    if !(n == 0 || n > portions.len()) {
        lemma_parse_items_wf(t, portions, (n - 1) as nat);
        lemma_parse_text_wf(t, portions[n - 1]);
    }
}

/// The items of a tuple that are read from texts are well formed.
pub proof fn lemma_parse_tuple_items_wf(
    types: Seq<FieldTypeView>,
    portions: Seq<Seq<char>>,
    n: nat,
)
    ensures
        parse_tuple_items(types, portions, n) matches Ok(values) ==> forall|i: int|
            0 <= i < values.len() ==> value_wf(#[trigger] values[i]),
    decreases types, n + 1,
{
    if !(n == 0 || n > portions.len() || n > types.len()) {
        lemma_parse_tuple_items_wf(types, portions, (n - 1) as nat);
        lemma_parse_text_wf(types[n - 1], portions[n - 1]);
    }
}

/// The entries that are read from texts are well formed: no key occurs
/// twice.
pub proof fn lemma_parse_entries_wf(t: FieldTypeView, portions: Seq<Seq<char>>, n: nat)
    ensures
        parse_entries(t, portions, n) matches Ok(entries) ==> fields_wf(entries),
    decreases t, n + 1,
{
    if n == 0 || n > portions.len() {
        assert(crate::values::field_names(Seq::empty()) == Seq::<Seq<char>>::empty());
    } else {
        lemma_parse_entries_wf(t, portions, (n - 1) as nat);
        let pair = str_portions(portions[n - 1], Seq::empty(), Seq::empty(), seq![':']);
        if pair.len() == 2 {
            lemma_parse_text_wf(t, pair[1]);
            match (parse_entries(t, portions, (n - 1) as nat), parse_text(t, pair[1])) {
                (Ok(entries), Ok(value)) => {
                    lemma_with_field_wf(entries, pair[0], value);
                },
                _ => {},
            }
        }
    }
}

/// What is read from a reply of the store is well formed.
pub proof fn lemma_read_value_wf(field: Seq<char>, t: FieldTypeView, v: StoreValueView)
    ensures
        read_value(field, t, v) matches Ok(value) ==> value_wf(value),
    decreases v, 0nat, 0nat,
{
    match t {
        FieldTypeView::Nested { schema, .. } => match v {
            StoreValueView::Bulk(items) => {
                if items.len() != 0 {
                    lemma_read_entity_wf(schema, items);
                }
            },
            _ => {},
        },
        FieldTypeView::Null => {},
        _ => {
            if let StoreValueView::Int(i) = v {
                lemma_int_text_is_float(i as int);
            }
            match store_text(v) {
                Some(text) => {
                    lemma_parse_text_wf(t, text);
                },
                None => {},
            }
        },
    }
}

/// The fields that are read of an entity are well formed: no name occurs
/// twice.
pub proof fn lemma_read_entity_wf(schema: SchemaView, items: Seq<StoreValueView>)
    ensures
        read_entity(schema, items) matches Ok(fields) ==> fields_wf(fields),
    decreases items, 1nat, 0nat,
{
    if items.len() % 2 == 0 {
        lemma_read_pairs_wf(schema, items, items.len() / 2);
    }
}

/// The fields that are read from pairs of names and replies are well
/// formed.
pub proof fn lemma_read_pairs_wf(schema: SchemaView, items: Seq<StoreValueView>, n: nat)
    ensures
        read_pairs(schema, items, n) matches Ok(fields) ==> fields_wf(fields),
    decreases items, 0nat, n,
{
    if n == 0 || 2 * n > items.len() {
        assert(crate::values::field_names(Seq::empty()) == Seq::<Seq<char>>::empty());
    } else {
        lemma_read_pairs_wf(schema, items, (n - 1) as nat);
        match (read_pairs(schema, items, (n - 1) as nat), store_text(items[2 * n - 2])) {
            (Ok(fields), Some(name)) => match type_of_field(schema, name) {
                Some(t) => {
                    lemma_read_value_wf(name, t, items[2 * n - 1]);
                    match read_value(name, t, items[2 * n - 1]) {
                        Ok(value) => {
                            lemma_with_field_wf(fields, name, value);
                        },
                        Err(_) => {},
                    }
                },
                None => {},
            },
            _ => {},
        }
    }
}

} // verus!
