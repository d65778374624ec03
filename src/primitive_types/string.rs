//! A string value.
use super::any::Any;
use crate::text::{chars_of, parse_i32, signed_text_value, string_of};
use std::cmp::Ordering;
use std::num::ParseIntError;
use vstd::prelude::*;
use vstd::string::{StringExecFns, StringSliceAdditionalSpecFns};
use vstd::utf8::{decode_utf8, encode_utf8, is_char_boundary};

verus! {

/// The order of two character sequences: the first differing character
/// decides, and a proper prefix comes first.
pub open spec fn lex_order(a: Seq<char>, b: Seq<char>) -> Ordering
    decreases a.len(),
{
    if a.len() == 0 {
        if b.len() == 0 {
            Ordering::Equal
        } else {
            Ordering::Less
        }
    } else if b.len() == 0 {
        Ordering::Greater
    } else if a[0] < b[0] {
        Ordering::Less
    } else if a[0] > b[0] {
        Ordering::Greater
    } else {
        lex_order(a.skip(1), b.skip(1))
    }
}

/// A string value.
#[derive(Debug, Hash)]
pub struct String {
    pub value: std::string::String,
}

impl String {
    /// A string holding `value`.
    pub fn new(value: std::string::String) -> (r: Self)
        ensures
            r.value == value,
    {
        String { value }
    }

    /// Whether the string writes a 32-bit integer: an optional sign and
    /// decimal digits.
    pub fn is_integer(&self) -> (r: bool)
        ensures
            r == (signed_text_value(self.value@) matches Some(v) && i32::MIN <= v <= i32::MAX),
    {
        parse_i32(self.value.as_str()).is_ok()
    }

    /// The 32-bit integer that the string writes, or std's parse error.
    pub fn as_integer(&self) -> (r: Result<i32, ParseIntError>)
        ensures
            r is Ok <==> (signed_text_value(self.value@) matches Some(v) && i32::MIN <= v
                <= i32::MAX),
            r matches Ok(n) ==> signed_text_value(self.value@) == Some(n as int),
    {
        parse_i32(self.value.as_str())
    }

    /// The UTF-8 bytes of the string.
    pub fn into_bytes(self) -> (r: Vec<u8>)
        ensures
            r@ == encode_utf8(self.value@),
    {
        crate::text::copy_bytes(self.value.as_str().as_bytes())
    }

    /// The string as a `str`.
    pub fn as_str(&self) -> (r: &str)
        ensures
            r@ == self.value@,
    {
        self.value.as_str()
    }

    /// Appends `string`.
    pub fn push_str(&mut self, string: &str)
        ensures
            final(self).value@ == old(self).value@ + string@,
    {
        self.value.append(string);
    }

    /// Appends one character.
    pub fn push(&mut self, c: char)
        ensures
            final(self).value@ == old(self).value@.push(c),
    {
        let mut chars = chars_of(self.value.as_str());
        chars.push(c);
        self.value = string_of(&chars);
    }

    /// The UTF-8 bytes of the string.
    pub fn as_bytes(&self) -> (r: &[u8])
        ensures
            r@ == encode_utf8(self.value@),
    {
        self.value.as_str().as_bytes()
    }

    /// Removes and returns the last character, if any.
    pub fn pop(&mut self) -> (r: Option<char>)
        ensures
            old(self).value@.len() == 0 ==> r is None && final(self).value@ == old(self).value@,
            old(self).value@.len() > 0 ==> r == Some(old(self).value@.last())
                && final(self).value@ == old(self).value@.drop_last(),
    {
        let mut chars = chars_of(self.value.as_str());
        let r = chars.pop();
        self.value = string_of(&chars);
        r
    }

    /// The length of the string in UTF-8 bytes.
    pub fn len(&self) -> (r: usize)
        ensures
            r == encode_utf8(self.value@).len() as usize,
    {
        self.value.as_str().len()
    }

    /// Whether the string is empty.
    pub fn is_empty(&self) -> (r: bool)
        ensures
            r == (self.value@.len() == 0),
    {
        self.value.as_str().is_empty()
    }

    /// Removes all characters.
    pub fn clear(&mut self)
        ensures
            final(self).value@ == Seq::<char>::empty(),
    {
        self.value = std::string::String::new();
    }

    /// The string itself, as std's string.
    pub fn to_string(&self) -> (r: std::string::String)
        ensures
            r@ == self.value@,
    {
        self.value.clone()
    }
}

proof fn lemma_encode_concat(a: Seq<char>, b: Seq<char>)
    ensures
        encode_utf8(a + b) == encode_utf8(a) + encode_utf8(b),
    decreases a.len(),
{
    if a.len() == 0 {
        assert(a + b =~= b);
        assert(encode_utf8(a) + encode_utf8(b) =~= encode_utf8(b));
    } else {
        lemma_encode_concat(a.drop_first(), b);
        assert((a + b).drop_first() =~= a.drop_first() + b);
        assert(encode_utf8(a + b) =~= encode_utf8(a) + encode_utf8(b));
    }
}

impl String {
    /// Shortens the string to `new_len` bytes; nothing happens where it is
    /// no longer than that. `new_len` must fall on a character boundary.
    pub fn truncate(&mut self, new_len: usize)
        requires
            new_len >= encode_utf8(old(self).value@).len() as usize || is_char_boundary(
                encode_utf8(old(self).value@),
                new_len as int,
            ),
        ensures
            new_len >= encode_utf8(old(self).value@).len() as usize ==> final(self).value@ == old(
                self,
            ).value@,
            new_len < encode_utf8(old(self).value@).len() as usize ==> encode_utf8(final(self).value@)
                == encode_utf8(old(self).value@).subrange(0, new_len as int),
    {
        if new_len < self.value.as_str().len() {
            let (head, _) = self.value.as_str().split_at(new_len);
            self.value = std::string::String::from_str(head);
        }
    }

    /// Splits the string at byte `at`, which must fall on a character
    /// boundary: this string keeps the bytes before it, the result holds the
    /// rest.
    pub fn split_off(&mut self, at: usize) -> (r: String)
        requires
            is_char_boundary(encode_utf8(old(self).value@), at as int),
        ensures
            encode_utf8(final(self).value@) == encode_utf8(old(self).value@).subrange(0, at as int),
            encode_utf8(r.value@) == encode_utf8(old(self).value@).subrange(
                at as int,
                encode_utf8(old(self).value@).len() as int,
            ),
    {
        let (head, tail) = self.value.as_str().split_at(at);
        let rest = String::new(std::string::String::from_str(tail));
        self.value = std::string::String::from_str(head);
        rest
    }

    /// Inserts `string` at byte `idx`, which must fall on a character
    /// boundary.
    pub fn insert_str(&mut self, idx: usize, string: &str)
        requires
            is_char_boundary(encode_utf8(old(self).value@), idx as int),
        ensures
            encode_utf8(final(self).value@) == encode_utf8(old(self).value@).subrange(0, idx as int)
                + encode_utf8(string@) + encode_utf8(old(self).value@).subrange(
                idx as int,
                encode_utf8(old(self).value@).len() as int,
            ),
    {
        let (head, tail) = self.value.as_str().split_at(idx);
        let mut joined = std::string::String::from_str(head);
        joined.append(string);
        joined.append(tail);
        proof {
            lemma_encode_concat(head@, string@);
            lemma_encode_concat(head@ + string@, tail@);
        }
        self.value = joined;
    }

    /// Inserts the character `c` at byte `idx`, which must fall on a
    /// character boundary.
    pub fn insert(&mut self, idx: usize, c: char)
        requires
            is_char_boundary(encode_utf8(old(self).value@), idx as int),
        ensures
            encode_utf8(final(self).value@) == encode_utf8(old(self).value@).subrange(0, idx as int)
                + encode_utf8(seq![c]) + encode_utf8(old(self).value@).subrange(
                idx as int,
                encode_utf8(old(self).value@).len() as int,
            ),
    {
        let mut one: Vec<char> = Vec::new();
        one.push(c);
        let piece = string_of(&one);
        self.insert_str(idx, piece.as_str());
    }

    /// Removes and returns the character that starts at byte `idx`, which
    /// must be a character boundary inside the string.
    pub fn remove(&mut self, idx: usize) -> (r: char)
        requires
            idx < encode_utf8(old(self).value@).len(),
            is_char_boundary(encode_utf8(old(self).value@), idx as int),
        ensures
            ({
                let bytes = encode_utf8(old(self).value@);
                let after = decode_utf8(bytes.subrange(idx as int, bytes.len() as int));
                &&& after.len() > 0
                &&& r == after[0]
                &&& final(self).value@ == decode_utf8(bytes.subrange(0, idx as int))
                    + after.drop_first()
            }),
    {
        let (head, tail) = self.value.as_str().split_at(idx);
        let tail_chars = chars_of(tail);
        proof {
            vstd::utf8::encode_utf8_decode_utf8(head@);
            vstd::utf8::encode_utf8_decode_utf8(tail@);
            if tail@.len() == 0 {
                assert(encode_utf8(tail@).len() == 0);
            }
        }
        let c = tail_chars[0];
        let mut rest: Vec<char> = Vec::new();
        let mut i: usize = 1;
        while i < tail_chars.len()
            invariant
                1 <= i <= tail_chars@.len(),
                rest@ == tail_chars@.subrange(1, i as int),
            decreases tail_chars@.len() - i,
        {
            rest.push(tail_chars[i]);
            assert(tail_chars@.subrange(1, i + 1) =~= tail_chars@.subrange(1, i as int).push(
                tail_chars@[i as int],
            ));
            i += 1;
        }
        assert(rest@ =~= tail_chars@.drop_first());
        let mut joined = std::string::String::from_str(head);
        let rest_string = string_of(&rest);
        joined.append(rest_string.as_str());
        self.value = joined;
        c
    }
}

impl std::ops::Add<&str> for String {
    type Output = String;

    fn add(self, other: &str) -> (r: String) {
        let mut s = self;
        s.value.append(other);
        s
    }
}

impl vstd::std_specs::ops::AddSpecImpl<&str> for String {
    open spec fn obeys_add_spec() -> bool {
        false
    }

    open spec fn add_req(self, other: &str) -> bool {
        true
    }

    open spec fn add_spec(self, other: &str) -> String {
        self
    }
}

impl std::ops::Add<&String> for String {
    type Output = String;

    fn add(self, other: &String) -> (r: String) {
        let mut s = self;
        s.value.append(other.value.as_str());
        s
    }
}

impl vstd::std_specs::ops::AddSpecImpl<&String> for String {
    open spec fn obeys_add_spec() -> bool {
        false
    }

    open spec fn add_req(self, other: &String) -> bool {
        true
    }

    open spec fn add_spec(self, other: &String) -> String {
        self
    }
}

impl String {
    /// The concatenation of this string and `other`.
    pub fn concat(self, other: &str) -> (r: String)
        ensures
            r.value@ == self.value@ + other@,
    {
        let mut s = self;
        s.value.append(other);
        s
    }

    /// The order of the two strings' characters: see `lex_order`.
    fn compare(&self, other: &String) -> (r: Ordering)
        ensures
            r == lex_order(self.value@, other.value@),
    {
        let a = chars_of(self.value.as_str());
        let b = chars_of(other.value.as_str());
        let mut i: usize = 0;
        assert(a@.subrange(0, a@.len() as int) =~= a@);
        assert(b@.subrange(0, b@.len() as int) =~= b@);
        while i < a.len() && i < b.len() && a[i] == b[i]
            invariant
                i <= a@.len(),
                i <= b@.len(),
                a@ == self.value@,
                b@ == other.value@,
                lex_order(a@, b@) == lex_order(
                    a@.subrange(i as int, a@.len() as int),
                    b@.subrange(i as int, b@.len() as int),
                ),
            decreases a@.len() - i,
        {
            let ghost sa = a@.subrange(i as int, a@.len() as int);
            let ghost sb = b@.subrange(i as int, b@.len() as int);
            assert(sa.skip(1) =~= a@.subrange(i + 1, a@.len() as int));
            assert(sb.skip(1) =~= b@.subrange(i + 1, b@.len() as int));
            assert(sa[0] == a@[i as int] && sb[0] == b@[i as int]);
            i += 1;
        }
        let ghost sa = a@.subrange(i as int, a@.len() as int);
        let ghost sb = b@.subrange(i as int, b@.len() as int);
        if i == a.len() {
            if i == b.len() {
                Ordering::Equal
            } else {
                Ordering::Less
            }
        } else if i == b.len() {
            Ordering::Greater
        } else {
            assert(sa[0] == a@[i as int] && sb[0] == b@[i as int]);
            if a[i] < b[i] {
                Ordering::Less
            } else {
                Ordering::Greater
            }
        }
    }
}

impl PartialEq for String {
    fn eq(&self, other: &Self) -> (r: bool) {
        self.value == other.value
    }
}

impl vstd::std_specs::cmp::PartialEqSpecImpl for String {
    open spec fn obeys_eq_spec() -> bool {
        true
    }

    open spec fn eq_spec(&self, other: &Self) -> bool {
        self.value@ == other.value@
    }
}

impl Eq for String {}

impl PartialOrd for String {
    fn partial_cmp(&self, other: &Self) -> (r: Option<Ordering>) {
        Some(self.compare(other))
    }
}

impl vstd::std_specs::cmp::PartialOrdSpecImpl for String {
    open spec fn obeys_partial_cmp_spec() -> bool {
        true
    }

    open spec fn partial_cmp_spec(&self, other: &Self) -> Option<Ordering> {
        Some(lex_order(self.value@, other.value@))
    }
}

impl Any for String {
    open spec fn same_value(&self, other: &Self) -> bool {
        self.value@ == other.value@
    }

    fn is_equal(&self, other: &Self) -> (r: bool) {
        self.value == other.value
    }
}

impl super::Ordered for String {}

} // verus!
