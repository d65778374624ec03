//! The sets of characters that may appear unencoded in each URI component
//! (RFC 3986, section 2 and appendix A).
use vstd::prelude::*;

verus! {

pub open spec fn is_alpha(c: char) -> bool {
    ('a' <= c && c <= 'z') || ('A' <= c && c <= 'Z')
}

pub open spec fn is_digit(c: char) -> bool {
    '0' <= c && c <= '9'
}

pub open spec fn is_hex_digit(c: char) -> bool {
    is_digit(c) || ('a' <= c && c <= 'f') || ('A' <= c && c <= 'F')
}

/// `unreserved = ALPHA / DIGIT / "-" / "." / "_" / "~"`
pub open spec fn is_unreserved(c: char) -> bool {
    is_alpha(c) || is_digit(c) || c == '-' || c == '.' || c == '_' || c == '~'
}

/// `sub-delims = "!" / "$" / "&" / "'" / "(" / ")" / "*" / "+" / "," / ";" / "="`
pub open spec fn is_sub_delim(c: char) -> bool {
    c == '!' || c == '$' || c == '&' || c == '\'' || c == '(' || c == ')' || c == '*' || c == '+'
        || c == ',' || c == ';' || c == '='
}

/// A named set of characters.
#[derive(Clone, Copy, Debug, PartialEq, Eq, Structural)]
pub enum CharSet {
    /// Letters only: the first character of a scheme.
    Alpha,
    /// Decimal digits.
    Digit,
    /// Hexadecimal digits, either case.
    HexDigit,
    /// Letters, digits, `+`, `-` and `.`: the rest of a scheme.
    SchemeNotFirst,
    /// What a user-info may hold unencoded: unreserved, sub-delims and `:`.
    UserInfo,
    /// What a registered host name may hold unencoded: unreserved and sub-delims.
    RegName,
    /// `pchar` without percent-encodings: unreserved, sub-delims, `:` and `@`.
    PathChar,
    /// What a query or fragment may hold unencoded: `pchar`, `/` and `?`.
    QueryOrFragment,
    /// The query set without `+`, which is always encoded when a query is
    /// generated so that it is never taken for an encoded space.
    QueryWithoutPlus,
}

impl CharSet {
    pub open spec fn has(self, c: char) -> bool {
        match self {
            CharSet::Alpha => is_alpha(c),
            CharSet::Digit => is_digit(c),
            CharSet::HexDigit => is_hex_digit(c),
            CharSet::SchemeNotFirst => is_alpha(c) || is_digit(c) || c == '+' || c == '-' || c
                == '.',
            CharSet::UserInfo => is_unreserved(c) || is_sub_delim(c) || c == ':',
            CharSet::RegName => is_unreserved(c) || is_sub_delim(c),
            CharSet::PathChar => is_unreserved(c) || is_sub_delim(c) || c == ':' || c == '@',
            CharSet::QueryOrFragment => is_unreserved(c) || is_sub_delim(c) || c == ':' || c
                == '@' || c == '/' || c == '?',
            CharSet::QueryWithoutPlus => c != '+' && (is_unreserved(c) || is_sub_delim(c) || c
                == ':' || c == '@' || c == '/' || c == '?'),
        }
    }

    /// Every set holds ASCII characters only, and never `%`.
    pub proof fn lemma_ascii_no_percent(self, c: char)
        requires
            self.has(c),
        ensures
            (c as u32) < 128,
            c != '%',
    {
    }

    /// Whether `c` belongs to the set.
    pub fn contains(&self, c: char) -> (r: bool)
        ensures
            r == self.has(c),
    {
        let alpha = ('a' <= c && c <= 'z') || ('A' <= c && c <= 'Z');
        let digit = '0' <= c && c <= '9';
        let unreserved = alpha || digit || c == '-' || c == '.' || c == '_' || c == '~';
        let sub_delim = c == '!' || c == '$' || c == '&' || c == '\'' || c == '(' || c == ')' || c
            == '*' || c == '+' || c == ',' || c == ';' || c == '=';
        match self {
            CharSet::Alpha => alpha,
            CharSet::Digit => digit,
            CharSet::HexDigit => digit || ('a' <= c && c <= 'f') || ('A' <= c && c <= 'F'),
            CharSet::SchemeNotFirst => alpha || digit || c == '+' || c == '-' || c == '.',
            CharSet::UserInfo => unreserved || sub_delim || c == ':',
            CharSet::RegName => unreserved || sub_delim,
            CharSet::PathChar => unreserved || sub_delim || c == ':' || c == '@',
            CharSet::QueryOrFragment => unreserved || sub_delim || c == ':' || c == '@' || c == '/'
                || c == '?',
            CharSet::QueryWithoutPlus => c != '+' && (unreserved || sub_delim || c == ':' || c
                == '@' || c == '/' || c == '?'),
        }
    }
}

/// The ASCII lower-case form of a character; other characters are kept.
pub open spec fn ascii_lower(c: char) -> char {
    if 'A' <= c && c <= 'Z' {
        ((c as u8) + 32) as char
    } else {
        c
    }
}

pub fn to_ascii_lower(c: char) -> (r: char)
    ensures
        r == ascii_lower(c),
{
    if 'A' <= c && c <= 'Z' {
        ((c as u8) + 32) as char
    } else {
        c
    }
}

/// The ASCII lower-case form of each character of a sequence.
pub open spec fn ascii_lowercase(s: Seq<char>) -> Seq<char> {
    s.map_values(|c: char| ascii_lower(c))
}

pub fn lowercase_chars(s: &Vec<char>) -> (r: Vec<char>)
    ensures
        r@ == ascii_lowercase(s@),
{
    let mut r: Vec<char> = Vec::new();
    let mut i: usize = 0;
    while i < s.len()
        invariant
            i <= s@.len(),
            r@ == ascii_lowercase(s@.subrange(0, i as int)),
        decreases s@.len() - i,
    {
        r.push(to_ascii_lower(s[i]));
        proof {
            assert(s@.subrange(0, i + 1) =~= s@.subrange(0, i as int).push(s@[i as int]));
        }
        i += 1;
    }
    assert(s@.subrange(0, s@.len() as int) =~= s@);
    r
}

/// The value of a hexadecimal digit.
pub open spec fn hex_value(c: char) -> u8 {
    if '0' <= c && c <= '9' {
        (c as u32 - '0' as u32) as u8
    } else if 'a' <= c && c <= 'f' {
        (c as u32 - 'a' as u32 + 10) as u8
    } else {
        (c as u32 - 'A' as u32 + 10) as u8
    }
}

pub fn hex_digit_value(c: char) -> (r: u8)
    requires
        is_hex_digit(c),
    ensures
        r == hex_value(c),
        r < 16,
{
    if '0' <= c && c <= '9' {
        (c as u32 - '0' as u32) as u8
    } else if 'a' <= c && c <= 'f' {
        (c as u32 - 'a' as u32 + 10) as u8
    } else {
        (c as u32 - 'A' as u32 + 10) as u8
    }
}

/// The upper-case hexadecimal digit for a value below 16.
pub open spec fn hex_char(n: u8) -> char {
    if n < 10 {
        (n + 48) as char
    } else {
        (n + 55) as char
    }
}

pub fn hex_digit_char(n: u8) -> (r: char)
    requires
        n < 16,
    ensures
        r == hex_char(n),
        is_hex_digit(r),
        hex_value(r) == n,
{
    if n < 10 {
        (n + 48) as char
    } else {
        (n + 55) as char
    }
}

pub proof fn lemma_hex_char(n: u8)
    requires
        n < 16,
    ensures
        is_hex_digit(hex_char(n)),
        hex_value(hex_char(n)) == n,
{
}

/// The decimal digit for a value below 10.
pub open spec fn digit_char(n: u8) -> char {
    (n + 48) as char
}

} // verus!

verus! {

/// Whether every character of `s` is a decimal digit.
pub open spec fn all_digits(s: Seq<char>) -> bool {
    forall|i: int| 0 <= i < s.len() ==> is_digit(#[trigger] s[i])
}

/// The number that a string of decimal digits writes.
pub open spec fn decimal_value(s: Seq<char>) -> nat
    decreases s.len(),
{
    if s.len() == 0 {
        0
    } else {
        decimal_value(s.drop_last()) * 10 + (s.last() as u32 - '0' as u32) as nat
    }
}

proof fn lemma_capped_step(x: nat, d: nat)
    requires
        d < 10,
    ensures
        (if x >= 256 { 256nat } else { x }) * 10 + d >= 256 <==> x * 10 + d >= 256,
        (if x >= 256 { 256nat } else { x }) * 10 + d < 256 ==> (if x >= 256 { 256nat } else { x })
            * 10 + d == x * 10 + d,
{
}

/// Whether the digits `s` write a number that fits in a byte.
pub fn fits_in_octet(s: &Vec<char>) -> (r: bool)
    requires
        all_digits(s@),
    ensures
        r == (decimal_value(s@) <= 255),
{
    let mut v: u32 = 0;
    let mut i: usize = 0;
    while i < s.len()
        invariant
            i <= s@.len(),
            all_digits(s@),
            v <= 256,
            v == (if decimal_value(s@.subrange(0, i as int)) >= 256 {
                256nat
            } else {
                decimal_value(s@.subrange(0, i as int))
            }),
        decreases s@.len() - i,
    {
        let c = s[i];
        assert(is_digit(s@[i as int]));
        let d = c as u32 - '0' as u32;
        proof {
            let p = s@.subrange(0, i + 1);
            assert(p.drop_last() =~= s@.subrange(0, i as int));
            assert(p.last() == c);
            lemma_capped_step(decimal_value(s@.subrange(0, i as int)), d as nat);
        }
        let w = v * 10 + d;
        v = if w >= 256 { 256 } else { w };
        i += 1;
    }
    assert(s@.subrange(0, s@.len() as int) =~= s@);
    v <= 255
}

} // verus!
