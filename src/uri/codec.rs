//! Percent-encoding and decoding of URI components (RFC 3986, section 2.1).
use super::characters::{hex_char, hex_digit_char, lemma_hex_char, hex_digit_value, hex_value, is_hex_digit, CharSet};
use super::context::Context;
use super::error::Error;
use crate::text::{chars_of, string_of};
use vstd::prelude::*;

verus! {

/// The characters that stand for one byte: the byte itself where it is an
/// ASCII character of `set`, else `%` and two upper-case hex digits.
pub open spec fn encode_byte(b: u8, set: CharSet) -> Seq<char> {
    if b < 128 && set.has(b as char) {
        seq![b as char]
    } else {
        seq!['%', hex_char(b / 16), hex_char(b % 16)]
    }
}

/// The percent-encoded form of a byte sequence.
pub open spec fn encoded(bytes: Seq<u8>, set: CharSet) -> Seq<char>
    decreases bytes.len(),
{
    if bytes.len() == 0 {
        seq![]
    } else {
        encode_byte(bytes[0], set) + encoded(bytes.skip(1), set)
    }
}

/// `Ok(p + x)` for `Ok(x)`; an error passes through.
pub open spec fn prepend_bytes(p: Seq<u8>, r: Result<Seq<u8>, Error>) -> Result<Seq<u8>, Error> {
    match r {
        Ok(x) => Ok(p + x),
        Err(e) => Err(e),
    }
}

/// The bytes that a percent-encoded text stands for: characters of `set`
/// stand for themselves, `%` and two hex digits for one byte. A bad escape is
/// `IllegalPercentEncoding`, any other character `IllegalCharacter(context)`;
/// the first fault from the left decides.
pub open spec fn decoded(s: Seq<char>, set: CharSet, context: Context) -> Result<Seq<u8>, Error>
    decreases s.len(),
{
    if s.len() == 0 {
        Ok(seq![])
    } else if s[0] == '%' {
        if s.len() >= 3 && is_hex_digit(s[1]) && is_hex_digit(s[2]) {
            prepend_bytes(
                seq![(hex_value(s[1]) * 16 + hex_value(s[2])) as u8],
                decoded(s.skip(3), set, context),
            )
        } else {
            Err(Error::IllegalPercentEncoding)
        }
    } else if set.has(s[0]) {
        prepend_bytes(seq![s[0] as u8], decoded(s.skip(1), set, context))
    } else {
        Err(Error::IllegalCharacter(context))
    }
}

/// A decoding result seen as a sequence.
pub open spec fn bytes_result(r: Result<Vec<u8>, Error>) -> Result<Seq<u8>, Error> {
    match r {
        Ok(v) => Ok(v@),
        Err(e) => Err(e),
    }
}

pub proof fn lemma_encoded_append(a: Seq<u8>, b: Seq<u8>, set: CharSet)
    ensures
        encoded(a + b, set) == encoded(a, set) + encoded(b, set),
    decreases a.len(),
{
    if a.len() == 0 {
        assert(a + b =~= b);
        assert(encoded(a, set) + encoded(b, set) =~= encoded(b, set));
    } else {
        assert((a + b).skip(1) =~= a.skip(1) + b);
        lemma_encoded_append(a.skip(1), b, set);
        assert(encoded(a + b, set) =~= encode_byte(a[0], set) + (encoded(a.skip(1), set) + encoded(
            b,
            set,
        )));
    }
}

proof fn lemma_prepend_twice(p: Seq<u8>, q: Seq<u8>, r: Result<Seq<u8>, Error>)
    ensures
        prepend_bytes(p, prepend_bytes(q, r)) == prepend_bytes(p + q, r),
{
    if let Ok(x) = r {
        assert(p + (q + x) =~= (p + q) + x);
    }
}

/// Decoding the encoding of any byte sequence against the same set gives the
/// bytes back.
pub proof fn lemma_decode_encode(bytes: Seq<u8>, set: CharSet, context: Context)
    ensures
        decoded(encoded(bytes, set), set, context) == Ok::<Seq<u8>, Error>(bytes),
    decreases bytes.len(),
{
    if bytes.len() == 0 {
        assert(bytes =~= Seq::<u8>::empty());
    } else {
        let b = bytes[0];
        let rest = encoded(bytes.skip(1), set);
        let s = encoded(bytes, set);
        lemma_decode_encode(bytes.skip(1), set, context);
        if b < 128 && set.has(b as char) {
            set.lemma_ascii_no_percent(b as char);
            assert(s =~= seq![b as char] + rest);
            assert(s.skip(1) =~= rest);
            assert((b as char) as u8 == b);
            assert(seq![s[0] as u8] =~= seq![b]);
            assert(seq![b] + bytes.skip(1) =~= bytes);
        } else {
            let hi = b / 16;
            let lo = b % 16;
            lemma_hex_char(hi);
            lemma_hex_char(lo);
            assert(s[0] == '%' && s[1] == hex_char(hi) && s[2] == hex_char(lo));
            assert(s.skip(3) =~= rest);
            assert((hi * 16 + lo) as u8 == b);
            assert(decoded(s, set, context) == prepend_bytes(seq![b], decoded(rest, set, context)));
            assert(seq![b] + bytes.skip(1) =~= bytes);
        }
    }
}

/// Decodes the characters `s[start..end]`: `decoded` of that range.
pub fn decode_range(s: &Vec<char>, start: usize, end: usize, set: CharSet, context: Context) -> (r:
    Result<Vec<u8>, Error>)
    requires
        start <= end <= s@.len(),
    ensures
        bytes_result(r) == decoded(s@.subrange(start as int, end as int), set, context),
{
    let mut out: Vec<u8> = Vec::new();
    let mut i = start;
    while i < end
        invariant
            start <= i <= end <= s@.len(),
            decoded(s@.subrange(start as int, end as int), set, context) == prepend_bytes(
                out@,
                decoded(s@.subrange(i as int, end as int), set, context),
            ),
        decreases end - i,
    {
        let c = s[i];
        let ghost t = s@.subrange(i as int, end as int);
        if c == '%' {
            if end - i > 2 && set_hex(s[i + 1]) && set_hex(s[i + 2]) {
                let hi = hex_digit_value(s[i + 1]);
                let lo = hex_digit_value(s[i + 2]);
                let b = hi * 16 + lo;
                proof {
                    assert(t[0] == c && t[1] == s@[i + 1] && t[2] == s@[i + 2]);
                    assert(t.skip(3) =~= s@.subrange(i + 3, end as int));
                    assert(t.len() >= 3);
                    assert(decoded(t, set, context) == prepend_bytes(seq![b], decoded(t.skip(3), set, context)));
                    lemma_prepend_twice(out@, seq![b], decoded(t.skip(3), set, context));
                }
                let ghost before = out@;
                out.push(b);
                assert(out@ =~= before + seq![b]);
                i = i + 3;
            } else {
                return Err(Error::IllegalPercentEncoding);
            }
        } else if set.contains(c) {
            proof {
                assert(t[0] == c);
                assert(t.skip(1) =~= s@.subrange(i + 1, end as int));
                assert(t.len() >= 1);
                assert(decoded(t, set, context) == prepend_bytes(seq![c as u8], decoded(t.skip(1), set, context)));
                lemma_prepend_twice(out@, seq![c as u8], decoded(t.skip(1), set, context));
            }
            let ghost before = out@;
            out.push(c as u8);
            assert(out@ =~= before + seq![c as u8]);
            i = i + 1;
        } else {
            return Err(Error::IllegalCharacter(context));
        }
    }
    assert(out@ + seq![] =~= out@);
    Ok(out)
}

fn set_hex(c: char) -> (r: bool)
    ensures
        r == is_hex_digit(c),
{
    CharSet::HexDigit.contains(c)
}

/// Appends the encoding of `bytes` to `out`.
pub fn push_encoded(out: &mut Vec<char>, bytes: &[u8], set: CharSet)
    ensures
        final(out)@ == old(out)@ + encoded(bytes@, set),
{
    let mut i: usize = 0;
    while i < bytes.len()
        invariant
            i <= bytes@.len(),
            out@ == old(out)@ + encoded(bytes@.subrange(0, i as int), set),
        decreases bytes@.len() - i,
    {
        let b = bytes[i];
        proof {
            lemma_encoded_append(bytes@.subrange(0, i as int), seq![b], set);
            assert(bytes@.subrange(0, i + 1) =~= bytes@.subrange(0, i as int) + seq![b]);
            assert(encoded(seq![b], set) =~= encode_byte(b, set)) by {
                assert(seq![b].skip(1) =~= Seq::<u8>::empty());
                reveal_with_fuel(encoded, 2);
            }
        }
        if b < 128 && set.contains(b as char) {
            out.push(b as char);
        } else {
            out.push('%');
            out.push(hex_digit_char(b / 16));
            out.push(hex_digit_char(b % 16));
        }
        proof {
            assert(out@ =~= old(out)@ + encoded(bytes@.subrange(0, i + 1), set));
        }
        i += 1;
    }
    assert(bytes@.subrange(0, bytes@.len() as int) =~= bytes@);
}

/// The percent-encoded form of `bytes`: each byte that is an ASCII character
/// of `set` as itself, any other as `%XX` with upper-case hex digits.
pub fn encode_element(bytes: &[u8], set: CharSet) -> (r: String)
    ensures
        r@ == encoded(bytes@, set),
{
    let mut out: Vec<char> = Vec::new();
    push_encoded(&mut out, bytes, set);
    string_of(&out)
}

/// The bytes that the percent-encoded `text` stands for, or the first fault
/// in it: see `decoded`.
pub fn decode_element(text: &str, set: CharSet, context: Context) -> (r: Result<Vec<u8>, Error>)
    ensures
        bytes_result(r) == decoded(text@, set, context),
{
    let s = chars_of(text);
    let r = decode_range(&s, 0, s.len(), set, context);
    assert(s@.subrange(0, s@.len() as int) =~= s@);
    r
}

} // verus!
