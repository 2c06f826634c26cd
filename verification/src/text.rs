//! Text helpers shared by the parser and the renderers: conversion between
//! strings and character vectors, splitting at a separator, and unsigned
//! decimal numerals.

use vstd::prelude::*;

verus! {

/// Appends one character to a string.
///
/// Trusted: wraps `String::push`, which std documents as appending the given
/// character to the end of the string.
#[verifier::external_body]
pub(crate) fn push_char(s: &mut String, c: char)
    ensures
        final(s)@ == old(s)@.push(c),
{
    s.push(c);
}

/// The characters of `s`, in order.
pub fn chars_of(s: &str) -> (out: Vec<char>)
    ensures
        out@ == s@,
{
    let mut out: Vec<char> = Vec::new();
    for c in it: s.chars()
        invariant
            it.seq() == s@,
            out@ == it.seq().take(it.index() as int),
    {
        out.push(c);
    }
    out
}

/// The string whose characters are `chars[from..to]`.
pub fn string_of(chars: &Vec<char>, from: usize, to: usize) -> (out: String)
    requires
        from <= to <= chars@.len(),
    ensures
        out@ == chars@.subrange(from as int, to as int),
{
    let mut out = String::new();
    let mut i: usize = from;
    while i < to
        invariant
            from <= i <= to <= chars@.len(),
            out@ == chars@.subrange(from as int, i as int),
        decreases to - i,
    {
        push_char(&mut out, chars[i]);
        i = i + 1;
    }
    out
}

/// The string whose characters are `chars`.
pub fn string_from(chars: &Vec<char>) -> (out: String)
    ensures
        out@ == chars@,
{
    string_of(chars, 0, chars.len())
}

/// The position of the first `c` in `s`, or the length of `s` where it holds
/// none.
pub open spec fn first_index_of(s: Seq<char>, c: char) -> int
    decreases s.len(),
{
    if s.len() == 0 || s[0] == c {
        0
    } else {
        1 + first_index_of(s.drop_first(), c)
    }
}

/// The pieces of `s` between the occurrences of `sep`, in order. There is
/// always one piece more than there are separators, so the empty text has
/// the one empty piece.
pub open spec fn split(s: Seq<char>, sep: char) -> Seq<Seq<char>>
    decreases s.len(),
{
    let i = first_index_of(s, sep);
    if i < 0 || i >= s.len() {
        seq![s]
    } else {
        seq![s.take(i)] + split(s.skip(i + 1), sep)
    }
}

/// The views of a vector of character vectors.
pub open spec fn rows(v: Seq<Vec<char>>) -> Seq<Seq<char>> {
    Seq::new(v.len(), |i: int| v[i]@)
}

/// `first_index_of` points at the first occurrence and nowhere else.
pub proof fn lemma_first_index_of(s: Seq<char>, c: char)
    ensures
        0 <= first_index_of(s, c) <= s.len(),
        forall|k: int| 0 <= k < first_index_of(s, c) ==> s[k] != c,
        first_index_of(s, c) < s.len() ==> s[first_index_of(s, c)] == c,
    decreases s.len(),
{
    if s.len() > 0 && s[0] != c {
        let r = s.drop_first();
        lemma_first_index_of(r, c);
        assert forall|k: int| 0 <= k < first_index_of(s, c) implies s[k] != c by {
            if k > 0 {
                assert(s[k] == r[k - 1]);
            }
        }
    }
}

/// Behind a text without `c`, the first `c` is the first `c` of what follows.
pub proof fn lemma_first_index_of_concat(a: Seq<char>, b: Seq<char>, c: char)
    requires
        forall|k: int| 0 <= k < a.len() ==> a[k] != c,
    ensures
        first_index_of(a + b, c) == a.len() + first_index_of(b, c),
    decreases a.len(),
{
    if a.len() == 0 {
        assert(a + b =~= b);
    } else {
        assert((a + b).drop_first() =~= a.drop_first() + b);
        lemma_first_index_of_concat(a.drop_first(), b, c);
    }
}

/// The pieces put together again, with `sep` between each two.
pub open spec fn join(pieces: Seq<Seq<char>>, sep: char) -> Seq<char>
    decreases pieces.len(),
{
    if pieces.len() == 0 {
        Seq::empty()
    } else if pieces.len() == 1 {
        pieces[0]
    } else {
        pieces[0] + seq![sep] + join(pieces.drop_first(), sep)
    }
}

/// Splitting loses nothing and cuts at every separator: there is at least
/// one piece, no piece holds the separator, and the pieces joined by the
/// separator are the text.
pub proof fn lemma_split_joins_back(s: Seq<char>, sep: char)
    ensures
        split(s, sep).len() >= 1,
        forall|i: int, k: int|
            0 <= i < split(s, sep).len() && 0 <= k < split(s, sep)[i].len() ==> (#[trigger] split(
                s,
                sep,
            )[i][k]) != sep,
        join(split(s, sep), sep) == s,
    decreases s.len(),
{
    let at = first_index_of(s, sep);
    let pieces = split(s, sep);
    lemma_first_index_of(s, sep);
    if at >= s.len() {
        assert(pieces =~= seq![s]);
    } else {
        let rest = split(s.skip(at + 1), sep);
        lemma_split_joins_back(s.skip(at + 1), sep);
        assert(pieces.drop_first() =~= rest);
        assert forall|i: int, k: int| 0 <= i < pieces.len() && 0 <= k < pieces[i].len() implies (
        #[trigger] pieces[i][k]) != sep by {
            if i == 0 {
                assert(pieces[0][k] == s[k]);
            } else {
                assert(pieces[i] == rest[i - 1]);
            }
        }
    }
}

/// The position of the first `c` in `s`, or the length of `s`.
pub fn find_char(s: &Vec<char>, c: char) -> (at: usize)
    ensures
        at == first_index_of(s@, c),
        at <= s@.len(),
{
    let mut i: usize = 0;
    proof {
        assert(s@.skip(0) =~= s@);
    }
    while i < s.len() && s[i] != c
        invariant
            i <= s@.len(),
            first_index_of(s@, c) == i + first_index_of(s@.skip(i as int), c),
        decreases s@.len() - i,
    {
        proof {
            assert(s@.skip(i as int).drop_first() =~= s@.skip(i + 1));
        }
        i = i + 1;
    }
    proof {
        if i < s@.len() {
            assert(s@.skip(i as int)[0] == s@[i as int]);
        }
    }
    i
}

/// Splits `s` at every `sep`.
pub fn split_chars(s: &Vec<char>, sep: char) -> (out: Vec<Vec<char>>)
    ensures
        rows(out@) == split(s@, sep),
{
    let mut out: Vec<Vec<char>> = Vec::new();
    let mut piece: Vec<char> = Vec::new();
    let mut i: usize = 0;
    proof {
        assert(piece@ + s@.skip(0) =~= s@);
    }
    while i < s.len()
        invariant
            i <= s@.len(),
            forall|k: int| 0 <= k < piece@.len() ==> piece@[k] != sep,
            split(s@, sep) == rows(out@) + split(piece@ + s@.skip(i as int), sep),
        decreases s@.len() - i,
    {
        let ghost rest = s@.skip(i as int);
        let ghost whole = piece@ + rest;
        let c: char = s[i];
        proof {
            assert(rest[0] == c);
        }
        if c == sep {
            proof {
                lemma_first_index_of_concat(piece@, rest, sep);
                assert(whole.take(piece@.len() as int) =~= piece@);
                assert(whole.skip(piece@.len() as int + 1) =~= s@.skip(i + 1));
                assert(rows(out@) + (seq![piece@] + split(s@.skip(i + 1), sep)) =~= rows(
                    out@,
                ).push(piece@) + split(s@.skip(i + 1), sep));
            }
            out.push(piece);
            piece = Vec::new();
        } else {
            proof {
                assert(piece@.push(c) + s@.skip(i + 1) =~= whole);
            }
            piece.push(c);
        }
        i = i + 1;
    }
    proof {
        let none = Seq::<char>::empty();
        lemma_first_index_of_concat(piece@, none, sep);
    }
    out.push(piece);
    out
}

/// The decimal digit of a value below ten.
pub open spec fn digit_char(d: nat) -> char {
    if d == 0 {
        '0'
    } else if d == 1 {
        '1'
    } else if d == 2 {
        '2'
    } else if d == 3 {
        '3'
    } else if d == 4 {
        '4'
    } else if d == 5 {
        '5'
    } else if d == 6 {
        '6'
    } else if d == 7 {
        '7'
    } else if d == 8 {
        '8'
    } else {
        '9'
    }
}

/// The value of a decimal digit; `None` for any other character.
pub open spec fn digit_value(c: char) -> Option<nat> {
    if c == '0' {
        Some(0)
    } else if c == '1' {
        Some(1)
    } else if c == '2' {
        Some(2)
    } else if c == '3' {
        Some(3)
    } else if c == '4' {
        Some(4)
    } else if c == '5' {
        Some(5)
    } else if c == '6' {
        Some(6)
    } else if c == '7' {
        Some(7)
    } else if c == '8' {
        Some(8)
    } else if c == '9' {
        Some(9)
    } else {
        None
    }
}

/// The decimal numeral of `n`, without leading zeros.
pub open spec fn decimal(n: nat) -> Seq<char>
    decreases n,
{
    if n < 10 {
        seq![digit_char(n)]
    } else {
        decimal(n / 10).push(digit_char(n % 10))
    }
}

/// The number that a decimal numeral stands for; `None` where the text is
/// empty or holds anything but digits.
pub open spec fn decimal_value(s: Seq<char>) -> Option<nat>
    decreases s.len(),
{
    if s.len() == 0 {
        None
    } else if s.len() == 1 {
        digit_value(s[0])
    } else {
        match (decimal_value(s.drop_last()), digit_value(s.last())) {
            (Some(high), Some(low)) => Some(10 * high + low),
            _ => None,
        }
    }
}

/// Reading a numeral back gives the number it was written from.
pub proof fn lemma_decimal_round_trip(n: nat)
    ensures
        decimal_value(decimal(n)) == Some(n),
        decimal(n).len() >= 1,
    decreases n,
{
    if n < 10 {
        assert(digit_value(digit_char(n)) == Some(n));
    } else {
        lemma_decimal_round_trip(n / 10);
        let s = decimal(n);
        assert(s.drop_last() =~= decimal(n / 10));
    }
}

fn digit_of(d: u64) -> (c: char)
    requires
        d < 10,
    ensures
        c == digit_char(d as nat),
{
    if d == 0 {
        '0'
    } else if d == 1 {
        '1'
    } else if d == 2 {
        '2'
    } else if d == 3 {
        '3'
    } else if d == 4 {
        '4'
    } else if d == 5 {
        '5'
    } else if d == 6 {
        '6'
    } else if d == 7 {
        '7'
    } else if d == 8 {
        '8'
    } else {
        '9'
    }
}

fn value_of(c: char) -> (d: Option<u64>)
    ensures
        match d {
            Some(v) => digit_value(c) == Some(v as nat) && v < 10,
            None => digit_value(c) is None,
        },
{
    if c == '0' {
        Some(0)
    } else if c == '1' {
        Some(1)
    } else if c == '2' {
        Some(2)
    } else if c == '3' {
        Some(3)
    } else if c == '4' {
        Some(4)
    } else if c == '5' {
        Some(5)
    } else if c == '6' {
        Some(6)
    } else if c == '7' {
        Some(7)
    } else if c == '8' {
        Some(8)
    } else if c == '9' {
        Some(9)
    } else {
        None
    }
}

/// Appends the decimal numeral of `n` to `out`.
pub fn push_decimal(out: &mut String, n: u64)
    ensures
        final(out)@ == old(out)@ + decimal(n as nat),
    decreases n,
{
    if n < 10 {
        push_char(out, digit_of(n));
    } else {
        push_decimal(out, n / 10);
        push_char(out, digit_of(n % 10));
    }
}

/// The decimal numeral of `n`.
pub fn format_u64(n: u64) -> (out: String)
    ensures
        out@ == decimal(n as nat),
{
    let mut out = String::new();
    push_decimal(&mut out, n);
    out
}

/// The value of a numeral never falls when digits are appended: every
/// non-empty prefix of a numeral is a numeral of no greater value.
pub proof fn lemma_decimal_value_prefix(s: Seq<char>, k: int)
    requires
        1 <= k <= s.len(),
        decimal_value(s) is Some,
    ensures
        decimal_value(s.take(k)) is Some,
        decimal_value(s.take(k))->0 <= decimal_value(s)->0,
    decreases s.len(),
{
    if k == s.len() {
        assert(s.take(k) =~= s);
    } else {
        assert(s.drop_last().take(k) =~= s.take(k));
        lemma_decimal_value_prefix(s.drop_last(), k);
    }
}

/// The number that a decimal numeral stands for, where it fits 64 bits.
pub open spec fn u64_value(s: Seq<char>) -> Option<u64> {
    match decimal_value(s) {
        Some(v) => if v <= u64::MAX {
            Some(v as u64)
        } else {
            None
        },
        None => None,
    }
}

/// The number that the numeral `s` stands for, where it is one and the number
/// fits 64 bits.
pub fn parse_u64(s: &str) -> (out: Option<u64>)
    ensures
        out == u64_value(s@),
{
    let digits = chars_of(s);
    let n: usize = digits.len();
    if n == 0 {
        return None;
    }
    let mut acc: u64 = 0;
    let mut i: usize = 0;
    while i < n
        invariant
            i <= n,
            n == digits@.len(),
            n > 0,
            digits@ == s@,
            i > 0 ==> decimal_value(digits@.take(i as int)) == Some(acc as nat),
            i == 0 ==> acc == 0,
        decreases n - i,
    {
        let ghost before = digits@.take(i as int);
        let ghost after = digits@.take(i + 1);
        proof {
            assert(after.drop_last() =~= before);
        }
        match value_of(digits[i]) {
            None => {
                proof {
                    if decimal_value(digits@) is Some {
                        lemma_decimal_value_prefix(digits@, i + 1);
                    }
                }
                return None;
            },
            Some(d) => {
                if acc > (u64::MAX - d) / 10 {
                    proof {
                        if decimal_value(digits@) is Some {
                            lemma_decimal_value_prefix(digits@, i + 1);
                        }
                    }
                    return None;
                }
                proof {
                    if i > 0 {
                        assert(decimal_value(after) == Some((10 * acc + d) as nat));
                    } else {
                        assert(after.len() == 1);
                    }
                }
                acc = 10 * acc + d;
                i = i + 1;
            },
        }
    }
    assert(digits@.take(n as int) =~= digits@);
    Some(acc)
}

} // verus!
