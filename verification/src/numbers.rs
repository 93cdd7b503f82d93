//! Decimal text of numbers: the canonical string form of an integer field
//! and its inverse, and the texts that denote a number with a fraction.

use vstd::prelude::*;
use crate::text::{chars_of, string_of};

verus! {

/// The character of the decimal digit `d`.
pub open spec fn digit_char(d: int) -> char {
    if d == 0 {
        '0'
    } else if d == 1 {
        '1'
    } else if d == 2 {
        '2'
    } else if d == 3 {
        '3'
    } else if d == 4 {
        '4'
    } else if d == 5 {
        '5'
    } else if d == 6 {
        '6'
    } else if d == 7 {
        '7'
    } else if d == 8 {
        '8'
    } else {
        '9'
    }
}

/// Whether `c` is one of the ASCII digits `0` to `9`.
pub open spec fn is_digit(c: char) -> bool {
    '0' <= c <= '9'
}

/// The value of the digit `c`.
pub open spec fn digit_value(c: char) -> int {
    c as int - '0' as int
}

/// The decimal digits of `n`, most significant first, without leading zeros.
pub open spec fn digits_of(n: nat) -> Seq<char>
    decreases n,
{
    if n < 10 {
        seq![digit_char(n as int)]
    } else {
        digits_of(n / 10).push(digit_char((n % 10) as int))
    }
}

/// The decimal text of `i`: its digits, after a minus sign if it is negative.
pub open spec fn int_text(i: int) -> Seq<char> {
    if i < 0 {
        seq!['-'] + digits_of((-i) as nat)
    } else {
        digits_of(i as nat)
    }
}

/// Whether `s` holds digits and nothing else.
pub open spec fn all_digits(s: Seq<char>) -> bool {
    forall|i: int| 0 <= i < s.len() ==> is_digit(#[trigger] s[i])
}

/// The number that the digits `s` denote, most significant first.
pub open spec fn digits_value(s: Seq<char>) -> int
    decreases s.len(),
{
    if s.len() == 0 {
        0
    } else {
        digits_value(s.drop_last()) * 10 + digit_value(s.last())
    }
}

/// The integer that `s` denotes: an optional sign `+` or `-`, then one or
/// more digits and nothing else. No white space, no separators.
pub open spec fn parse_int_text(s: Seq<char>) -> Option<int> {
    if s.len() == 0 {
        None
    } else if s[0] == '-' {
        if s.len() > 1 && all_digits(s.skip(1)) {
            Some(-digits_value(s.skip(1)))
        } else {
            None
        }
    } else if s[0] == '+' {
        if s.len() > 1 && all_digits(s.skip(1)) {
            Some(digits_value(s.skip(1)))
        } else {
            None
        }
    } else if all_digits(s) {
        Some(digits_value(s))
    } else {
        None
    }
}

/// The 64-bit signed integer that `s` denotes, if it denotes an integer that
/// fits.
pub open spec fn parse_i64_text(s: Seq<char>) -> Option<i64> {
    match parse_int_text(s) {
        Some(v) => if i64::MIN <= v <= i64::MAX {
            Some(v as i64)
        } else {
            None
        },
        None => None,
    }
}

/// The digits of a number are digits, at least one of them, and denote it.
pub proof fn lemma_digits_of(n: nat)
    ensures
        digits_of(n).len() >= 1,
        all_digits(digits_of(n)),
        digits_value(digits_of(n)) == n,
        !(digits_of(n)[0] == '-') && !(digits_of(n)[0] == '+'),
    decreases n,
{
    if n < 10 {
        let s = digits_of(n);
        assert(s.drop_last() == Seq::<char>::empty());
        assert(digits_value(s.drop_last()) == 0);
        assert(s.last() == digit_char(n as int));
    } else {
        lemma_digits_of(n / 10);
        let s = digits_of(n);
        let head = digits_of(n / 10);
        assert(s.drop_last() == head);
        assert(s.last() == digit_char((n % 10) as int));
        assert(s[0] == head[0]);
        assert forall|i: int| 0 <= i < s.len() implies is_digit(#[trigger] s[i]) by {
            if i < head.len() {
                assert(s[i] == head[i]);
            }
        }
    }
}

/// Reading the decimal text of an integer gives the integer back.
pub proof fn lemma_int_text_round_trip(i: int)
    ensures
        parse_int_text(int_text(i)) == Some(i),
{
    if i < 0 {
        let d = digits_of((-i) as nat);
        lemma_digits_of((-i) as nat);
        assert(int_text(i).skip(1) == d);
    } else {
        lemma_digits_of(i as nat);
    }
}

/// Appending a digit multiplies the denoted number by ten and adds the digit.
pub proof fn lemma_digits_value_push(s: Seq<char>, c: char)
    ensures
        digits_value(s.push(c)) == digits_value(s) * 10 + digit_value(c),
{
    assert(s.push(c).drop_last() == s);
    assert(s.push(c).last() == c);
}

/// Digits denote a number that is not negative, and a longer run of digits
/// denotes a number that is no smaller than what its beginning denotes.
pub proof fn lemma_digits_value_grows(s: Seq<char>, k: int)
    requires
        all_digits(s),
        0 <= k <= s.len(),
    ensures
        0 <= digits_value(s.take(k)) <= digits_value(s),
    decreases s.len() - k,
{
    lemma_digits_value_nonnegative(s.take(k));
    if k < s.len() {
        lemma_digits_value_grows(s, k + 1);
        assert(s.take(k + 1) == s.take(k).push(s[k]));
        lemma_digits_value_push(s.take(k), s[k]);
    } else {
        assert(s.take(k) == s);
    }
}

/// Digits denote a number that is not negative.
pub proof fn lemma_digits_value_nonnegative(s: Seq<char>)
    requires
        all_digits(s),
    ensures
        0 <= digits_value(s),
    decreases s.len(),
{
    if s.len() > 0 {
        lemma_digits_value_nonnegative(s.drop_last());
    }
}

/// The character of the digit `d`.
pub(crate) fn digit_of(d: u64) -> (c: char)
    requires
        d < 10,
    ensures
        c == digit_char(d as int),
{
    if d == 0 {
        '0'
    } else if d == 1 {
        '1'
    } else if d == 2 {
        '2'
    } else if d == 3 {
        '3'
    } else if d == 4 {
        '4'
    } else if d == 5 {
        '5'
    } else if d == 6 {
        '6'
    } else if d == 7 {
        '7'
    } else if d == 8 {
        '8'
    } else {
        '9'
    }
}

/// Appends the decimal digits of `n` to `out`.
pub fn push_digits(n: u64, out: &mut Vec<char>)
    ensures
        final(out)@ == old(out)@ + digits_of(n as nat),
    decreases n,
{
    if n >= 10 {
        push_digits(n / 10, out);
    }
    out.push(digit_of(n % 10));
    proof {
        if n >= 10 {
            assert(old(out)@ + digits_of((n / 10) as nat).push(digit_char((n % 10) as int)) == (
            old(out)@ + digits_of((n / 10) as nat)).push(digit_char((n % 10) as int)));
        } else {
            assert(old(out)@.push(digit_char(n as int)) == old(out)@ + seq![digit_char(n as int)]);
        }
    }
}

/// The decimal digits of `n`.
pub fn u64_chars(n: u64) -> (out: Vec<char>)
    ensures
        out@ == digits_of(n as nat),
{
    let mut out: Vec<char> = Vec::new();
    push_digits(n, &mut out);
    out
}

/// The decimal text of `n`.
pub fn u64_text(n: u64) -> (out: String)
    ensures
        out@ == digits_of(n as nat),
{
    let chars = u64_chars(n);
    let out = string_of(&chars, 0, chars.len());
    assert(chars@.subrange(0, chars.len() as int) == chars@);
    out
}

/// The decimal text of `v`, as characters.
pub fn i64_chars(v: i64) -> (out: Vec<char>)
    ensures
        out@ == int_text(v as int),
{
    let mut out: Vec<char> = Vec::new();
    if v < 0 {
        out.push('-');
        let magnitude: u64 = ((-(v + 1)) as u64) + 1;
        push_digits(magnitude, &mut out);
    } else {
        push_digits(v as u64, &mut out);
    }
    out
}

/// The decimal text of `v`.
pub fn i64_text(v: i64) -> (out: String)
    ensures
        out@ == int_text(v as int),
{
    let chars = i64_chars(v);
    let out = string_of(&chars, 0, chars.len());
    assert(chars@.subrange(0, chars.len() as int) == chars@);
    out
}

/// The number below `limit + 1` that the digits `s[from..]` denote, if they
/// are digits, at least one of them, and denote such a number.
fn parse_digits(s: &Vec<char>, from: usize, limit: u128) -> (r: Option<u128>)
    requires
        from <= s.len(),
        limit <= 0x8000_0000_0000_0000,
    ensures
        r matches Some(v) ==> from < s.len() && all_digits(s@.skip(from as int)) && v
            == digits_value(s@.skip(from as int)) && v <= limit,
        r is None ==> from == s.len() || !all_digits(s@.skip(from as int)) || digits_value(
            s@.skip(from as int),
        ) > limit,
{
    if from == s.len() {
        return None;
    }
    let ghost digits = s@.skip(from as int);
    let mut acc: u128 = 0;
    let mut i: usize = from;
    while i < s.len()
        invariant
            from <= i <= s.len(),
            digits == s@.skip(from as int),
            all_digits(digits.take(i - from)),
            acc == digits_value(digits.take(i - from)),
            acc <= limit <= 0x8000_0000_0000_0000,
        decreases s.len() - i,
    {
        let c = s[i];
        if !('0' <= c && c <= '9') {
            assert(!is_digit(digits[i - from]));
            return None;
        }
        let d: u128 = (c as u32 - '0' as u32) as u128;
        proof {
            let k = i - from;
            assert(digits.take(k + 1) == digits.take(k).push(digits[k]));
            lemma_digits_value_push(digits.take(k), digits[k]);
            assert forall|j: int| 0 <= j < k + 1 implies is_digit(
                #[trigger] digits.take(k + 1)[j],
            ) by {
                if j < k {
                    assert(digits.take(k)[j] == digits.take(k + 1)[j]);
                }
            }
        }
        let next: u128 = acc * 10 + d;
        if next > limit {
            proof {
                if all_digits(digits) {
                    lemma_digits_value_grows(digits, i - from + 1);
                }
            }
            return None;
        }
        acc = next;
        i += 1;
    }
    assert(digits.take(digits.len() as int) == digits);
    Some(acc)
}

/// The 64-bit signed integer that the characters `s` denote.
pub fn parse_i64_chars(s: &Vec<char>) -> (r: Option<i64>)
    ensures
        r == parse_i64_text(s@),
{
    if s.len() == 0 {
        return None;
    }
    if s[0] == '-' {
        proof {
            if s.len() > 1 && all_digits(s@.skip(1)) {
                lemma_digits_value_nonnegative(s@.skip(1));
            }
        }
        match parse_digits(s, 1, 0x8000_0000_0000_0000) {
            Some(v) => {
                if v == 0x8000_0000_0000_0000 {
                    Some(i64::MIN)
                } else {
                    Some(-(v as i64))
                }
            },
            None => None,
        }
    } else if s[0] == '+' {
        proof {
            if s.len() > 1 && all_digits(s@.skip(1)) {
                lemma_digits_value_nonnegative(s@.skip(1));
            }
        }
        match parse_digits(s, 1, 0x7fff_ffff_ffff_ffff) {
            Some(v) => Some(v as i64),
            None => None,
        }
    } else {
        proof {
            assert(s@.skip(0) == s@);
            if all_digits(s@) {
                lemma_digits_value_nonnegative(s@);
            }
        }
        match parse_digits(s, 0, 0x7fff_ffff_ffff_ffff) {
            Some(v) => Some(v as i64),
            None => None,
        }
    }
}

/// The 64-bit signed integer that `s` denotes.
pub fn parse_i64(s: &str) -> (r: Option<i64>)
    ensures
        r == parse_i64_text(s@),
{
    let chars = chars_of(s);
    parse_i64_chars(&chars)
}

/// Reading the decimal text of a 64-bit integer gives the integer back.
pub proof fn lemma_i64_text_round_trip(v: i64)
    ensures
        parse_i64_text(int_text(v as int)) == Some(v),
{
    lemma_int_text_round_trip(v as int);
}

/// How many digits stand in `s` from position `from` on, one after
/// another.
pub open spec fn digits_run(s: Seq<char>, from: int) -> int
    decreases s.len() - from,
{
    if 0 <= from < s.len() && is_digit(s[from]) {
        1 + digits_run(s, from + 1)
    } else {
        0
    }
}

/// `c` as a small letter, where it is a capital letter of the ASCII
/// alphabet.
pub open spec fn ascii_lower(c: char) -> char {
    if 'A' <= c <= 'Z' {
        ((c as u8) + 32) as char
    } else {
        c
    }
}

/// Whether `s` is `word`, in capital or small letters.
pub open spec fn is_word(s: Seq<char>, word: Seq<char>) -> bool {
    s.len() == word.len() && forall|i: int| 0 <= i < s.len() ==> ascii_lower(s[i]) == word[i]
}

/// Whether `s` names a number that is no decimal: `inf`, `infinity` or
/// `nan`, in capital or small letters.
pub open spec fn is_special_number(s: Seq<char>) -> bool {
    is_word(s, seq!['i', 'n', 'f']) || is_word(s, seq!['i', 'n', 'f', 'i', 'n', 'i', 't', 'y'])
        || is_word(s, seq!['n', 'a', 'n'])
}

/// Whether `s` is a decimal number without a sign: digits, with a point
/// among, before or behind them if there is one, and then, if there is one,
/// an exponent: the letter `e`, a sign if there is one, and digits.
pub open spec fn is_decimal_number(s: Seq<char>) -> bool {
    let whole = digits_run(s, 0);
    let point = whole < s.len() && s[whole] == '.';
    let fraction = if point {
        digits_run(s, whole + 1)
    } else {
        0
    };
    let mantissa_end = if point {
        whole + 1 + fraction
    } else {
        whole
    };
    &&& whole + fraction >= 1
    &&& mantissa_end == s.len() || {
        let signed = mantissa_end + 1 < s.len() && (s[mantissa_end + 1] == '+' || s[mantissa_end
            + 1] == '-');
        let exponent_start = if signed {
            mantissa_end + 2
        } else {
            mantissa_end + 1
        };
        &&& s[mantissa_end] == 'e' || s[mantissa_end] == 'E'
        &&& digits_run(s, exponent_start) >= 1
        &&& exponent_start + digits_run(s, exponent_start) == s.len()
    }
}

/// Whether `s` denotes a number with a fraction: a sign if there is one,
/// and then a decimal number or the name of a number that is no decimal. No
/// white space, no separators.
pub open spec fn is_float_text(s: Seq<char>) -> bool {
    let body = if s.len() > 0 && (s[0] == '+' || s[0] == '-') {
        s.skip(1)
    } else {
        s
    };
    is_special_number(body) || is_decimal_number(body)
}

/// How many digits stand in `s` from position `from` on.
fn count_digits(s: &Vec<char>, from: usize) -> (n: usize)
    requires
        from <= s.len(),
    ensures
        n == digits_run(s@, from as int),
        from + n <= s.len(),
{
    let mut i: usize = from;
    while i < s.len() && '0' <= s[i] && s[i] <= '9'
        invariant
            from <= i <= s.len(),
            digits_run(s@, from as int) == (i - from) + digits_run(s@, i as int),
        decreases s.len() - i,
    {
        i += 1;
    }
    i - from
}

/// Whether the characters `s[from..]` are `word`, in capital or small
/// letters.
fn is_word_chars(s: &Vec<char>, from: usize, word: &str) -> (r: bool)
    requires
        from <= s.len(),
    ensures
        r == is_word(s@.skip(from as int), word@),
{
    let letters = chars_of(word);
    let ghost body = s@.skip(from as int);
    if s.len() - from != letters.len() {
        return false;
    }
    let mut i: usize = 0;
    while i < letters.len()
        invariant
            i <= letters.len(),
            from + letters.len() == s.len(),
            letters@ == word@,
            body == s@.skip(from as int),
            forall|j: int| 0 <= j < i ==> ascii_lower(body[j]) == letters@[j],
        decreases letters.len() - i,
    {
        let c = s[from + i];
        assert(body[i as int] == c);
        let lower = if 'A' <= c && c <= 'Z' {
            ((c as u8) + 32) as char
        } else {
            c
        };
        if lower != letters[i] {
            return false;
        }
        i += 1;
    }
    true
}

/// Whether the characters `s` denote a number with a fraction.
pub fn is_float_chars(s: &Vec<char>) -> (r: bool)
    ensures
        r == is_float_text(s@),
{
    let start: usize = if s.len() > 0 && (s[0] == '+' || s[0] == '-') {
        1
    } else {
        0
    };
    let ghost body = s@.skip(start as int);
    proof {
        reveal_strlit("inf");
        reveal_strlit("infinity");
        reveal_strlit("nan");
        assert("inf"@ == seq!['i', 'n', 'f']);
        assert("infinity"@ == seq!['i', 'n', 'f', 'i', 'n', 'i', 't', 'y']);
        assert("nan"@ == seq!['n', 'a', 'n']);
        if start == 0 {
            assert(body == s@);
        }
    }
    if is_word_chars(s, start, "inf") || is_word_chars(s, start, "infinity") || is_word_chars(
        s,
        start,
        "nan",
    ) {
        return true;
    }
    let whole = count_digits(s, start);
    proof {
        lemma_digits_run_shift(s@, start as int, 0);
    }
    let mut at: usize = start + whole;
    let mut fraction: usize = 0;
    if at < s.len() && s[at] == '.' {
        fraction = count_digits(s, at + 1);
        proof {
            lemma_digits_run_shift(s@, start as int, whole + 1);
        }
        at = at + 1 + fraction;
    }
    assert(body.len() == s.len() - start);
    assert(at < s.len() ==> body[at - start] == s@[at as int]);
    if whole + fraction < 1 {
        return false;
    }
    if at == s.len() {
        return true;
    }
    if !(s[at] == 'e' || s[at] == 'E') {
        return false;
    }
    let mut exponent_start: usize = at + 1;
    assert(at + 1 < s.len() ==> body[at + 1 - start] == s@[at + 1]);
    if exponent_start < s.len() && (s[exponent_start] == '+' || s[exponent_start] == '-') {
        exponent_start += 1;
    }
    let exponent = count_digits(s, exponent_start);
    proof {
        lemma_digits_run_shift(s@, start as int, exponent_start - start);
    }
    exponent >= 1 && exponent_start + exponent == s.len()
}

/// The digits that stand in a text behind a prefix are those that stand in
/// the text without its prefix.
pub proof fn lemma_digits_run_shift(s: Seq<char>, start: int, from: int)
    requires
        0 <= start <= s.len(),
        0 <= from <= s.len() - start,
    ensures
        digits_run(s.skip(start), from) == digits_run(s, start + from),
    decreases s.len() - start - from,
{
    let body = s.skip(start);
    if from < body.len() {
        assert(body[from] == s[start + from]);
        if is_digit(body[from]) {
            lemma_digits_run_shift(s, start, from + 1);
        }
    }
}

/// Whether `s` denotes a number with a fraction.
pub fn is_float(s: &str) -> (r: bool)
    ensures
        r == is_float_text(s@),
{
    let chars = chars_of(s);
    is_float_chars(&chars)
}

/// The decimal text of an integer denotes a number with a fraction.
pub proof fn lemma_int_text_is_float(i: int)
    ensures
        is_float_text(int_text(i)),
{
    let magnitude = if i < 0 {
        (-i) as nat
    } else {
        i as nat
    };
    let digits = digits_of(magnitude);
    lemma_digits_of(magnitude);
    lemma_all_digits_run(digits, 0);
    if i < 0 {
        assert(int_text(i).skip(1) == digits);
    }
}

/// A text of digits is one run of digits.
pub proof fn lemma_all_digits_run(s: Seq<char>, from: int)
    requires
        all_digits(s),
        0 <= from <= s.len(),
    ensures
        digits_run(s, from) == s.len() - from,
    decreases s.len() - from,
{
    if from < s.len() {
        lemma_all_digits_run(s, from + 1);
    }
}

} // verus!
