//! Splitting the host-and-port part of an authority.
use super::characters::CharSet;
use super::codec::{bytes_result, decode_range, decoded};
use super::context::Context;
use super::error::{agrees, Error};
use super::ipv6_address::{ipv6_validation, validate_ipv6_chars};
use crate::text::{
    find_either, index_of_either, lemma_find_either_bounds, parse_u16, string_of, sub_chars,
    unsigned_text_value,
};
use vstd::prelude::*;

verus! {

/// The bytes of a sequence of ASCII characters.
pub open spec fn ascii_bytes(s: Seq<char>) -> Seq<u8> {
    s.map_values(|c: char| c as u8)
}

/// The port that the text after `:` gives: none where it is empty, else its
/// value, which must fit in 16 bits.
pub open spec fn port_outcome(t: Seq<char>) -> Result<Option<u16>, Error> {
    if t.len() == 0 {
        Ok(None)
    } else {
        match unsigned_text_value(t) {
            Some(v) => if v <= u16::MAX {
                Ok(Some(v as u16))
            } else {
                Err(Error::IllegalPortNumber(arbitrary()))
            },
            None => Err(Error::IllegalPortNumber(arbitrary())),
        }
    }
}

/// Host and port of a host-and-port text. An IPv6 literal stands between
/// `[` and `]` and is held without them; any other host is a percent-encoded
/// registered name up to the first `:`. A port follows a `:`.
pub open spec fn host_port(t: Seq<char>) -> Result<(Seq<u8>, Option<u16>), Error> {
    if t.len() > 0 && t[0] == '[' {
        let k = find_either(t, ']', ']', 1);
        if k >= t.len() {
            Err(Error::TruncatedHost)
        } else {
            let literal = t.subrange(1, k);
            let rest = t.subrange(k + 1, t.len() as int);
            match ipv6_validation(literal) {
                Err(e) => Err(e),
                Ok(_) => if rest.len() == 0 {
                    Ok((ascii_bytes(literal), None))
                } else if rest[0] != ':' {
                    Err(Error::IllegalCharacter(Context::Host))
                } else {
                    match port_outcome(rest.skip(1)) {
                        Ok(p) => Ok((ascii_bytes(literal), p)),
                        Err(e) => Err(e),
                    }
                },
            }
        }
    } else {
        let k = find_either(t, ':', ':', 0);
        match decoded(t.subrange(0, k), CharSet::RegName, Context::Host) {
            Err(e) => Err(e),
            Ok(h) => if k >= t.len() {
                Ok((h, None))
            } else {
                match port_outcome(t.subrange(k + 1, t.len() as int)) {
                    Ok(p) => Ok((h, p)),
                    Err(e) => Err(e),
                }
            },
        }
    }
}

pub open spec fn host_port_view(r: Result<(Vec<u8>, Option<u16>), Error>) -> Result<
    (Seq<u8>, Option<u16>),
    Error,
> {
    match r {
        Ok((h, p)) => Ok((h@, p)),
        Err(e) => Err(e),
    }
}

fn ascii_bytes_of(s: &Vec<char>, start: usize, end: usize) -> (r: Vec<u8>)
    requires
        start <= end <= s@.len(),
    ensures
        r@ == ascii_bytes(s@.subrange(start as int, end as int)),
{
    let mut r: Vec<u8> = Vec::new();
    let mut i = start;
    while i < end
        invariant
            start <= i <= end <= s@.len(),
            r@ == ascii_bytes(s@.subrange(start as int, i as int)),
        decreases end - i,
    {
        r.push(s[i] as u8);
        assert(ascii_bytes(s@.subrange(start as int, i + 1)) =~= ascii_bytes(
            s@.subrange(start as int, i as int),
        ).push(s@[i as int] as u8));
        i += 1;
    }
    r
}

/// The port written by `t`: see `port_outcome`.
pub fn parse_port(t: &Vec<char>) -> (r: Result<Option<u16>, Error>)
    ensures
        agrees(r, port_outcome(t@)),
{
    if t.len() == 0 {
        return Ok(None);
    }
    let text = string_of(t);
    match parse_u16(text.as_str()) {
        Ok(n) => Ok(Some(n)),
        Err(e) => Err(Error::IllegalPortNumber(e)),
    }
}

/// Host and port of the host-and-port text `t`: see `host_port`.
pub fn parse_host_port(t: &Vec<char>) -> (r: Result<(Vec<u8>, Option<u16>), Error>)
    ensures
        agrees(host_port_view(r), host_port(t@)),
{
    let n = t.len();
    if n > 0 && t[0] == '[' {
        let k = index_of_either(t, ']', ']', 1);
        if k >= n {
            return Err(Error::TruncatedHost);
        }
        let literal = sub_chars(t, 1, k);
        match validate_ipv6_chars(&literal) {
            Err(e) => Err(e),
            Ok(_) => {
                let host = ascii_bytes_of(t, 1, k);
                if k + 1 == n {
                    Ok((host, None))
                } else if t[k + 1] != ':' {
                    Err(Error::IllegalCharacter(Context::Host))
                } else {
                    let port_text = sub_chars(t, k + 2, n);
                    proof {
                        let rest = t@.subrange(k + 1, n as int);
                        assert(rest.skip(1) =~= port_text@);
                    }
                    match parse_port(&port_text) {
                        Ok(p) => Ok((host, p)),
                        Err(e) => Err(e),
                    }
                }
            },
        }
    } else {
        let k = index_of_either(t, ':', ':', 0);
        let decoded_host = decode_range(t, 0, k, CharSet::RegName, Context::Host);
        match decoded_host {
            Err(e) => Err(e),
            Ok(h) => if k >= n {
                Ok((h, None))
            } else {
                let port_text = sub_chars(t, k + 1, n);
                match parse_port(&port_text) {
                    Ok(p) => Ok((h, p)),
                    Err(e) => Err(e),
                }
            },
        }
    }
}

} // verus!
