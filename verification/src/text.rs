//! Character-level text handling: conversion between strings and character
//! vectors, whitespace and pattern trimming, and separator splitting.
//!
//! Every specification is stated over `Seq<char>`; the executable functions
//! work on index ranges of one character vector so that the pieces they find
//! can be handed out as slices of the caller's string.

use vstd::prelude::*;
use vstd::string::*;

verus! {

/// `String::push` appends one character to the end of the string.
pub assume_specification[ String::push ](s: &mut String, ch: char)
    ensures
        final(s)@ == old(s)@.push(ch),
;

/// The characters of `s`, in order.
pub fn chars_of(s: &str) -> (out: Vec<char>)
    ensures
        out@ == s@,
{
    let mut out: Vec<char> = Vec::new();
    for c in it: s.chars()
        invariant
            it.seq() == s@,
            out@ == s@.take(it.index() as int),
    {
        out.push(c);
    }
    out
}

/// The string made of the characters `chars[from..to]`.
pub(crate) fn string_of(chars: &Vec<char>, from: usize, to: usize) -> (out: String)
    requires
        from <= to <= chars.len(),
    ensures
        out@ == chars@.subrange(from as int, to as int),
{
    let mut out = String::new();
    let mut i: usize = from;
    while i < to
        invariant
            from <= i <= to <= chars.len(),
            out@ == chars@.subrange(from as int, i as int),
        decreases to - i,
    {
        out.push(chars[i]);
        i += 1;
    }
    out
}

/// Appends the characters of `piece` to `out`.
pub fn push_str(out: &mut Vec<char>, piece: &str)
    ensures
        final(out)@ == old(out)@ + piece@,
{
    let ghost before = out@;
    for c in it: piece.chars()
        invariant
            it.seq() == piece@,
            out@ == before + piece@.take(it.index() as int),
    {
        out.push(c);
    }
}

/// Appends the characters of `piece` to `out`.
pub fn push_chars(out: &mut Vec<char>, piece: &Vec<char>)
    ensures
        final(out)@ == old(out)@ + piece@,
{
    let ghost before = out@;
    let mut i: usize = 0;
    while i < piece.len()
        invariant
            i <= piece.len(),
            out@ == before + piece@.take(i as int),
        decreases piece.len() - i,
    {
        out.push(piece[i]);
        i += 1;
    }
}

/// Whether two character vectors hold the same text.
pub fn same_chars(a: &Vec<char>, b: &Vec<char>) -> (same: bool)
    ensures
        same == (a@ == b@),
{
    if a.len() != b.len() {
        return false;
    }
    let mut i: usize = 0;
    while i < a.len()
        invariant
            i <= a.len(),
            a.len() == b.len(),
            a@.take(i as int) == b@.take(i as int),
        decreases a.len() - i,
    {
        if a[i] != b[i] {
            return false;
        }
        assert(a@.take(i + 1) == a@.take(i as int).push(a@[i as int]));
        assert(b@.take(i + 1) == b@.take(i as int).push(b@[i as int]));
        i += 1;
    }
    assert(a@ == a@.take(a.len() as int));
    assert(b@ == b@.take(b.len() as int));
    true
}

/// Whether two strings hold the same text.
pub fn same_text(a: &str, b: &str) -> (same: bool)
    ensures
        same == (a@ == b@),
{
    let x = chars_of(a);
    let y = chars_of(b);
    same_chars(&x, &y)
}

/// Whether `c` is white space in the sense of `char::is_whitespace`: a code
/// point with the Unicode property `White_Space`.
pub open spec fn is_whitespace(c: char) -> bool {
    let n = c as u32;
    ||| 0x09 <= n <= 0x0D
    ||| n == 0x20
    ||| n == 0x85
    ||| n == 0xA0
    ||| n == 0x1680
    ||| 0x2000 <= n <= 0x200A
    ||| n == 0x2028
    ||| n == 0x2029
    ||| n == 0x202F
    ||| n == 0x205F
    ||| n == 0x3000
}

/// `s` without its leading white space.
pub open spec fn trim_start(s: Seq<char>) -> Seq<char>
    decreases s.len(),
{
    if s.len() > 0 && is_whitespace(s[0]) {
        trim_start(s.skip(1))
    } else {
        s
    }
}

/// `s` without its trailing white space.
pub open spec fn trim_end(s: Seq<char>) -> Seq<char>
    decreases s.len(),
{
    if s.len() > 0 && is_whitespace(s.last()) {
        trim_end(s.drop_last())
    } else {
        s
    }
}

/// `s` without leading and trailing white space.
pub open spec fn trim(s: Seq<char>) -> Seq<char> {
    trim_end(trim_start(s))
}

/// Whether `s` begins with `pat`.
pub open spec fn starts_with(s: Seq<char>, pat: Seq<char>) -> bool {
    pat.len() <= s.len() && s.take(pat.len() as int) == pat
}

/// Whether `s` ends with `pat`.
pub open spec fn ends_with(s: Seq<char>, pat: Seq<char>) -> bool {
    pat.len() <= s.len() && s.skip(s.len() - pat.len()) == pat
}

/// `s` with every leading repetition of `pat` removed. An empty pattern
/// removes nothing.
pub open spec fn trim_start_matches(s: Seq<char>, pat: Seq<char>) -> Seq<char>
    decreases s.len(),
{
    if pat.len() > 0 && starts_with(s, pat) {
        trim_start_matches(s.skip(pat.len() as int), pat)
    } else {
        s
    }
}

/// `s` with every trailing repetition of `pat` removed. An empty pattern
/// removes nothing.
pub open spec fn trim_end_matches(s: Seq<char>, pat: Seq<char>) -> Seq<char>
    decreases s.len(),
{
    if pat.len() > 0 && ends_with(s, pat) {
        trim_end_matches(s.take(s.len() - pat.len()), pat)
    } else {
        s
    }
}

/// The pieces of `s[start..]` between the occurrences of the non-empty
/// separator `sep` that are found scanning from position `i` on, leftmost
/// first and without overlap.
pub open spec fn split_from(s: Seq<char>, sep: Seq<char>, start: int, i: int) -> Seq<Seq<char>>
    decreases s.len() - i,
{
    if sep.len() == 0 || i < start || start < 0 || i + sep.len() > s.len() {
        seq![s.subrange(start, s.len() as int)]
    } else if s.subrange(i, i + sep.len()) == sep {
        seq![s.subrange(start, i)] + split_from(s, sep, i + sep.len(), i + sep.len())
    } else {
        split_from(s, sep, start, i + 1)
    }
}

/// The pieces of `s` between occurrences of `sep`. With an empty separator
/// the pieces are an empty piece, each character by itself, and an empty
/// piece.
pub open spec fn split(s: Seq<char>, sep: Seq<char>) -> Seq<Seq<char>> {
    if sep.len() == 0 {
        seq![Seq::<char>::empty()] + Seq::new(s.len(), |i: int| seq![s[i]]) + seq![
            Seq::<char>::empty(),
        ]
    } else {
        split_from(s, sep, 0, 0)
    }
}

/// Whether `c` is white space.
pub fn char_is_whitespace(c: char) -> (r: bool)
    ensures
        r == is_whitespace(c),
{
    let n: u32 = c as u32;
    (0x09 <= n && n <= 0x0D) || n == 0x20 || n == 0x85 || n == 0xA0 || n == 0x1680 || (0x2000 <= n
        && n <= 0x200A) || n == 0x2028 || n == 0x2029 || n == 0x202F || n == 0x205F || n == 0x3000
}

/// The bounds of `s[lo..hi]` without its leading and trailing white space.
pub(crate) fn trim_bounds(s: &Vec<char>, lo: usize, hi: usize) -> (r: (usize, usize))
    requires
        lo <= hi <= s.len(),
    ensures
        lo <= r.0 <= r.1 <= hi,
        s@.subrange(r.0 as int, r.1 as int) == trim(s@.subrange(lo as int, hi as int)),
{
    let mut a: usize = lo;
    while a < hi && char_is_whitespace(s[a])
        invariant
            lo <= a <= hi <= s.len(),
            trim_start(s@.subrange(lo as int, hi as int)) == trim_start(
                s@.subrange(a as int, hi as int),
            ),
        decreases hi - a,
    {
        assert(s@.subrange(a as int, hi as int).skip(1) == s@.subrange(a + 1, hi as int));
        a += 1;
    }
    let mut b: usize = hi;
    while a < b && char_is_whitespace(s[b - 1])
        invariant
            a <= b <= hi <= s.len(),
            trim_end(s@.subrange(a as int, hi as int)) == trim_end(s@.subrange(a as int, b as int)),
        decreases b - a,
    {
        assert(s@.subrange(a as int, b as int).drop_last() == s@.subrange(a as int, b - 1));
        b -= 1;
    }
    (a, b)
}

/// Whether `s[lo..hi]` holds `pat` at position `at`.
pub(crate) fn matches_at(s: &Vec<char>, at: usize, hi: usize, pat: &Vec<char>) -> (r: bool)
    requires
        at <= hi <= s.len(),
    ensures
        r == (at + pat.len() <= hi && s@.subrange(at as int, at + pat.len()) == pat@),
{
    if pat.len() > hi - at {
        return false;
    }
    let mut k: usize = 0;
    while k < pat.len()
        invariant
            k <= pat.len(),
            at + pat.len() <= hi <= s.len(),
            s@.subrange(at as int, at + k) == pat@.take(k as int),
        decreases pat.len() - k,
    {
        if s[at + k] != pat[k] {
            assert(s@.subrange(at as int, at + pat.len())[k as int] != pat@[k as int]);
            return false;
        }
        assert(s@.subrange(at as int, at + k + 1) == s@.subrange(at as int, at + k).push(
            s@[at + k],
        ));
        assert(pat@.take(k + 1) == pat@.take(k as int).push(pat@[k as int]));
        k += 1;
    }
    assert(pat@.take(pat.len() as int) == pat@);
    true
}

/// The start of `s[lo..hi]` once every leading repetition of `pat` is removed.
pub(crate) fn trim_start_matches_bound(s: &Vec<char>, lo: usize, hi: usize, pat: &Vec<char>) -> (a: usize)
    requires
        lo <= hi <= s.len(),
    ensures
        lo <= a <= hi,
        s@.subrange(a as int, hi as int) == trim_start_matches(
            s@.subrange(lo as int, hi as int),
            pat@,
        ),
{
    let mut a: usize = lo;
    if pat.len() == 0 {
        return a;
    }
    while matches_at(s, a, hi, pat)
        invariant
            lo <= a <= hi <= s.len(),
            pat.len() > 0,
            trim_start_matches(s@.subrange(lo as int, hi as int), pat@) == trim_start_matches(
                s@.subrange(a as int, hi as int),
                pat@,
            ),
        decreases hi - a,
    {
        proof {
            let cur = s@.subrange(a as int, hi as int);
            assert(cur.take(pat.len() as int) == s@.subrange(a as int, a + pat.len()));
            assert(cur.skip(pat.len() as int) == s@.subrange(a + pat.len(), hi as int));
        }
        a += pat.len();
    }
    proof {
        let cur = s@.subrange(a as int, hi as int);
        if pat.len() <= cur.len() {
            assert(cur.take(pat.len() as int) == s@.subrange(a as int, a + pat.len()));
        }
    }
    a
}

/// The end of `s[lo..hi]` once every trailing repetition of `pat` is removed.
pub(crate) fn trim_end_matches_bound(s: &Vec<char>, lo: usize, hi: usize, pat: &Vec<char>) -> (b: usize)
    requires
        lo <= hi <= s.len(),
    ensures
        lo <= b <= hi,
        s@.subrange(lo as int, b as int) == trim_end_matches(
            s@.subrange(lo as int, hi as int),
            pat@,
        ),
{
    let mut b: usize = hi;
    if pat.len() == 0 {
        return b;
    }
    while b - lo >= pat.len() && matches_at(s, b - pat.len(), b, pat)
        invariant
            lo <= b <= hi <= s.len(),
            pat.len() > 0,
            trim_end_matches(s@.subrange(lo as int, hi as int), pat@) == trim_end_matches(
                s@.subrange(lo as int, b as int),
                pat@,
            ),
        decreases b - lo,
    {
        proof {
            let cur = s@.subrange(lo as int, b as int);
            assert(cur.skip(cur.len() - pat.len()) == s@.subrange(b - pat.len(), b as int));
            assert(cur.take(cur.len() - pat.len()) == s@.subrange(lo as int, b - pat.len()));
        }
        b -= pat.len();
    }
    proof {
        let cur = s@.subrange(lo as int, b as int);
        if pat.len() <= cur.len() {
            assert(cur.skip(cur.len() - pat.len()) == s@.subrange(b - pat.len(), b as int));
        }
    }
    b
}

/// The texts that the index ranges `ranges` cut out of `s`.
pub open spec fn ranges_text(s: Seq<char>, ranges: Seq<(usize, usize)>) -> Seq<Seq<char>> {
    Seq::new(ranges.len(), |i: int| s.subrange(ranges[i].0 as int, ranges[i].1 as int))
}

/// Whether every range of `ranges` lies within `lo..hi`.
pub open spec fn ranges_within(ranges: Seq<(usize, usize)>, lo: int, hi: int) -> bool {
    forall|i: int| 0 <= i < ranges.len() ==> lo <= (#[trigger] ranges[i]).0 <= ranges[i].1 <= hi
}

/// The bounds of the pieces of `s[lo..hi]` between occurrences of `sep`.
pub(crate) fn split_bounds(s: &Vec<char>, lo: usize, hi: usize, sep: &Vec<char>) -> (out: Vec<
    (usize, usize),
>)
    requires
        lo <= hi <= s.len(),
    ensures
        ranges_within(out@, lo as int, hi as int),
        ranges_text(s@, out@) == split(s@.subrange(lo as int, hi as int), sep@),
{
    let ghost sub = s@.subrange(lo as int, hi as int);
    let mut out: Vec<(usize, usize)> = Vec::new();
    if sep.len() == 0 {
        out.push((lo, lo));
        let mut k: usize = lo;
        while k < hi
            invariant
                lo <= k <= hi <= s.len(),
                out.len() == 1 + (k - lo),
                ranges_within(out@, lo as int, hi as int),
                out@[0] == (lo, lo),
                forall|j: int| 1 <= j < out.len() ==> out@[j] == ((lo + j - 1) as usize, (lo + j) as usize),
            decreases hi - k,
        {
            out.push((k, k + 1));
            k += 1;
        }
        out.push((hi, hi));
        proof {
            let want = split(sub, sep@);
            let got = ranges_text(s@, out@);
            assert(got.len() == want.len());
            assert forall|j: int| 0 <= j < got.len() implies got[j] == want[j] by {
                if 1 <= j < got.len() - 1 {
                    assert(s@.subrange(lo + j - 1, lo + j) == seq![sub[j - 1]]);
                }
            }
        }
        return out;
    }
    let mut start: usize = lo;
    let mut i: usize = lo;
    while sep.len() <= hi - i
        invariant
            lo <= start <= i <= hi <= s.len(),
            sep.len() > 0,
            sub == s@.subrange(lo as int, hi as int),
            ranges_within(out@, lo as int, hi as int),
            ranges_text(s@, out@) + split_from(sub, sep@, start - lo, i - lo) == split_from(
                sub,
                sep@,
                0,
                0,
            ),
        decreases hi - i,
    {
        let ghost before = out@;
        assert(sub.subrange(i - lo, i - lo + sep.len()) == s@.subrange(i as int, i + sep.len()));
        if matches_at(s, i, hi, sep) {
            out.push((start, i));
            proof {
                let piece = s@.subrange(start as int, i as int);
                assert(piece == sub.subrange(start - lo, i - lo));
                assert(ranges_text(s@, out@) == ranges_text(s@, before).push(piece));
                let rest = split_from(sub, sep@, i + sep.len() - lo, i + sep.len() - lo);
                assert(ranges_text(s@, before).push(piece) + rest == ranges_text(s@, before) + (
                seq![piece] + rest));
            }
            i += sep.len();
            start = i;
        } else {
            i += 1;
        }
    }
    let ghost before = out@;
    out.push((start, hi));
    proof {
        let piece = s@.subrange(start as int, hi as int);
        assert(piece == sub.subrange(start - lo, sub.len() as int));
        assert(ranges_text(s@, out@) == ranges_text(s@, before).push(piece));
        assert(ranges_text(s@, before).push(piece) == ranges_text(s@, before) + seq![piece]);
    }
    out
}

} // verus!
