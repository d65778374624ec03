//! Conversions between std's string types and the character and byte
//! sequences that the parsers work on.
use std::string::FromUtf8Error;
use vstd::prelude::*;
use vstd::utf8::{decode_utf8, valid_utf8};

verus! {

#[verifier::external_type_specification]
#[verifier::external_body]
pub struct ExFromUtf8Error(FromUtf8Error);

/// Relies on `str::chars` collected into a `Vec`: the characters of `s`, in
/// order.
#[verifier::external_body]
pub(crate) fn chars_of(s: &str) -> (r: Vec<char>)
    ensures
        r@ == s@,
{
    s.chars().collect()
}

/// Relies on `String: FromIterator<&char>`: a string of exactly these
/// characters.
#[verifier::external_body]
pub(crate) fn string_of(v: &Vec<char>) -> (r: String)
    ensures
        r@ == v@,
{
    v.iter().collect()
}

/// Relies on `String::from_utf8`: it succeeds exactly on valid UTF-8 and then
/// holds the decoded characters.
#[verifier::external_body]
pub(crate) fn string_from_utf8(v: Vec<u8>) -> (r: Result<String, FromUtf8Error>)
    ensures
        r is Ok <==> valid_utf8(v@),
        r matches Ok(s) ==> s@ == decode_utf8(v@),
{
    String::from_utf8(v)
}

} // verus!

verus! {

/// The number that an optional `+` and one or more decimal digits write;
/// `None` for any other text.
pub open spec fn unsigned_text_value(s: Seq<char>) -> Option<nat> {
    let digits = if s.len() > 0 && s[0] == '+' {
        s.skip(1)
    } else {
        s
    };
    if digits.len() > 0 && crate::uri::characters::all_digits(digits) {
        Some(crate::uri::characters::decimal_value(digits))
    } else {
        None
    }
}

/// Relies on `<u16 as FromStr>::from_str`: it accepts an optional `+` and
/// decimal digits whose value fits in 16 bits, and returns that value.
#[verifier::external_body]
pub(crate) fn parse_u16(s: &str) -> (r: Result<u16, std::num::ParseIntError>)
    ensures
        r is Ok <==> (unsigned_text_value(s@) matches Some(v) && v <= u16::MAX),
        r matches Ok(n) ==> unsigned_text_value(s@) == Some(n as nat),
{
    s.parse::<u16>()
}

/// The characters `s[start..end]` as a vector of their own.
pub fn sub_chars(s: &Vec<char>, start: usize, end: usize) -> (r: Vec<char>)
    requires
        start <= end <= s@.len(),
    ensures
        r@ == s@.subrange(start as int, end as int),
{
    let mut r: Vec<char> = Vec::new();
    let mut i = start;
    while i < end
        invariant
            start <= i <= end <= s@.len(),
            r@ == s@.subrange(start as int, i as int),
        decreases end - i,
    {
        r.push(s[i]);
        assert(s@.subrange(start as int, i + 1) =~= s@.subrange(start as int, i as int).push(
            s@[i as int],
        ));
        i += 1;
    }
    r
}

/// The index of the first `a` or `b` in `s` at or after `i`, or the length
/// of `s` where there is none.
pub open spec fn find_either(s: Seq<char>, a: char, b: char, i: int) -> int
    decreases s.len() - i,
{
    if i >= s.len() {
        s.len() as int
    } else if s[i] == a || s[i] == b {
        i
    } else {
        find_either(s, a, b, i + 1)
    }
}

pub proof fn lemma_find_either_bounds(s: Seq<char>, a: char, b: char, i: int)
    requires
        0 <= i <= s.len(),
    ensures
        i <= find_either(s, a, b, i) <= s.len(),
        find_either(s, a, b, i) < s.len() ==> (s[find_either(s, a, b, i)] == a || s[find_either(
            s,
            a,
            b,
            i,
        )] == b),
        forall|j: int| i <= j < find_either(s, a, b, i) ==> s[j] != a && s[j] != b,
    decreases s.len() - i,
{
    if i < s.len() && !(s[i] == a || s[i] == b) {
        lemma_find_either_bounds(s, a, b, i + 1);
    }
}

/// Finds `find_either(s@, a, b, from)`.
pub fn index_of_either(s: &Vec<char>, a: char, b: char, from: usize) -> (r: usize)
    requires
        from <= s@.len(),
    ensures
        r == find_either(s@, a, b, from as int),
        from <= r <= s@.len(),
{
    proof {
        lemma_find_either_bounds(s@, a, b, from as int);
    }
    let mut i = from;
    while i < s.len()
        invariant
            from <= i <= s@.len(),
            find_either(s@, a, b, i as int) == find_either(s@, a, b, from as int),
        decreases s@.len() - i,
    {
        if s[i] == a || s[i] == b {
            return i;
        }
        i += 1;
    }
    i
}

/// The index of the last `c` in `s[0..n]`, or -1 where there is none.
pub open spec fn find_last(s: Seq<char>, c: char, n: int) -> int
    decreases n,
{
    if n <= 0 {
        -1
    } else if s[n - 1] == c {
        n - 1
    } else {
        find_last(s, c, n - 1)
    }
}

pub proof fn lemma_find_last_bounds(s: Seq<char>, c: char, n: int)
    requires
        0 <= n <= s.len(),
    ensures
        -1 <= find_last(s, c, n) < n,
        find_last(s, c, n) >= 0 ==> s[find_last(s, c, n)] == c,
    decreases n,
{
    if n > 0 && s[n - 1] != c {
        lemma_find_last_bounds(s, c, n - 1);
    }
}

/// Finds the last `c` in `s`: `Some(find_last(s@, c, len))` where there is one.
pub fn last_index_of(s: &Vec<char>, c: char) -> (r: Option<usize>)
    ensures
        match r {
            Some(k) => find_last(s@, c, s@.len() as int) == k as int && k < s@.len(),
            None => find_last(s@, c, s@.len() as int) == -1,
        },
{
    proof {
        lemma_find_last_bounds(s@, c, s@.len() as int);
    }
    let mut n = s.len();
    while n > 0
        invariant
            n <= s@.len(),
            find_last(s@, c, n as int) == find_last(s@, c, s@.len() as int),
        decreases n,
    {
        if s[n - 1] == c {
            return Some(n - 1);
        }
        n -= 1;
    }
    None
}

} // verus!

verus! {

/// Appends the characters of `v` to `out`.
pub fn push_chars(out: &mut Vec<char>, v: &Vec<char>)
    ensures
        final(out)@ == old(out)@ + v@,
{
    let mut i: usize = 0;
    while i < v.len()
        invariant
            i <= v@.len(),
            out@ == old(out)@ + v@.subrange(0, i as int),
        decreases v@.len() - i,
    {
        out.push(v[i]);
        assert(v@.subrange(0, i + 1) =~= v@.subrange(0, i as int).push(v@[i as int]));
        assert(out@ =~= old(out)@ + v@.subrange(0, i + 1));
        i += 1;
    }
    assert(v@.subrange(0, v@.len() as int) =~= v@);
}

/// A copy of a byte vector.
pub fn copy_bytes(v: &[u8]) -> (r: Vec<u8>)
    ensures
        r@ == v@,
{
    let mut r: Vec<u8> = Vec::new();
    let mut i: usize = 0;
    while i < v.len()
        invariant
            i <= v@.len(),
            r@ == v@.subrange(0, i as int),
        decreases v@.len() - i,
    {
        r.push(v[i]);
        assert(v@.subrange(0, i + 1) =~= v@.subrange(0, i as int).push(v@[i as int]));
        i += 1;
    }
    assert(v@.subrange(0, v@.len() as int) =~= v@);
    r
}

/// A copy of an optional byte vector.
pub fn copy_opt_bytes(v: &Option<Vec<u8>>) -> (r: Option<Vec<u8>>)
    ensures
        opt_bytes(r) == opt_bytes(*v),
{
    match v {
        Some(b) => Some(copy_bytes(b.as_slice())),
        None => None,
    }
}

/// An optional byte vector seen as an optional sequence.
pub open spec fn opt_bytes(v: Option<Vec<u8>>) -> Option<Seq<u8>> {
    match v {
        Some(b) => Some(b@),
        None => None,
    }
}

/// The decimal digits of `n`, without leading zeros.
pub open spec fn decimal_text(n: nat) -> Seq<char>
    decreases n,
{
    if n < 10 {
        seq![crate::uri::characters::digit_char(n as u8)]
    } else {
        decimal_text(n / 10) + seq![crate::uri::characters::digit_char((n % 10) as u8)]
    }
}

/// Appends the decimal digits of `n` to `out`.
pub fn push_decimal(out: &mut Vec<char>, n: u64)
    ensures
        final(out)@ == old(out)@ + decimal_text(n as nat),
    decreases n,
{
    if n < 10 {
        out.push(((n as u8) + 48) as char);
    } else {
        push_decimal(out, n / 10);
        out.push((((n % 10) as u8) + 48) as char);
        assert(out@ =~= old(out)@ + decimal_text(n as nat));
    }
}

} // verus!

verus! {

/// The number that an optional sign and one or more decimal digits write;
/// `None` for any other text.
pub open spec fn signed_text_value(s: Seq<char>) -> Option<int> {
    if s.len() > 0 && s[0] == '-' {
        let digits = s.skip(1);
        if digits.len() > 0 && crate::uri::characters::all_digits(digits) {
            Some(-(crate::uri::characters::decimal_value(digits) as int))
        } else {
            None
        }
    } else {
        match unsigned_text_value(s) {
            Some(v) => Some(v as int),
            None => None,
        }
    }
}

/// Relies on `<i64 as FromStr>::from_str`: it accepts an optional sign and
/// decimal digits whose value fits in 64 bits, and returns that value.
#[verifier::external_body]
pub(crate) fn parse_i64(s: &str) -> (r: Result<i64, std::num::ParseIntError>)
    ensures
        r is Ok <==> (signed_text_value(s@) matches Some(v) && i64::MIN <= v <= i64::MAX),
        r matches Ok(n) ==> signed_text_value(s@) == Some(n as int),
{
    s.parse::<i64>()
}

/// Relies on `<i32 as FromStr>::from_str`: it accepts an optional sign and
/// decimal digits whose value fits in 32 bits, and returns that value.
#[verifier::external_body]
pub(crate) fn parse_i32(s: &str) -> (r: Result<i32, std::num::ParseIntError>)
    ensures
        r is Ok <==> (signed_text_value(s@) matches Some(v) && i32::MIN <= v <= i32::MAX),
        r matches Ok(n) ==> signed_text_value(s@) == Some(n as int),
{
    s.parse::<i32>()
}

} // verus!

verus! {

/// The decimal form of an integer, with `-` before a negative one.
pub open spec fn signed_decimal_text(v: int) -> Seq<char> {
    if v < 0 {
        seq!['-'] + decimal_text((-v) as nat)
    } else {
        decimal_text(v as nat)
    }
}

/// The decimal form of `v`: see `signed_decimal_text`.
pub fn signed_decimal(v: i64) -> (r: String)
    ensures
        r@ == signed_decimal_text(v as int),
{
    let mut out: Vec<char> = Vec::new();
    if v < 0 {
        out.push('-');
        let m: u64 = ((-(v + 1)) as u64) + 1;
        push_decimal(&mut out, m);
    } else {
        push_decimal(&mut out, v as u64);
    }
    assert(out@ =~= signed_decimal_text(v as int));
    string_of(&out)
}

} // verus!
