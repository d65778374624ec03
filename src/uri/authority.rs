//! The authority of a URI: `user-info@host:port`.
use super::characters::{ascii_lowercase, lowercase_chars, CharSet};
use super::codec::{decode_range, decoded, encoded, push_encoded};
use super::context::Context;
use super::error::{agrees, Error};
use super::ipv6_address::{ipv6_validation, validate_ipv6_chars};
use super::port::{host_port, host_port_view, parse_host_port};
use crate::text::{
    chars_of, copy_bytes, copy_opt_bytes, decimal_text, find_last, last_index_of,
    lemma_find_last_bounds, opt_bytes, push_chars, push_decimal, string_from_utf8, string_of,
    sub_chars,
};
use vstd::prelude::*;
use vstd::utf8::{decode_utf8, valid_utf8};

verus! {

/// What an authority holds: decoded user-info and host bytes, and a port.
pub struct AuthorityView {
    pub user_info: Option<Seq<u8>>,
    pub host: Seq<u8>,
    pub port: Option<u16>,
}

/// The user-info, host and port of a URI. The parts are held decoded, as
/// bytes, and are percent-encoded again when the authority is written out.
#[derive(Clone, Debug, PartialEq, Eq, Hash)]
pub struct Authority {
    user_info: Option<Vec<u8>>,
    host: Vec<u8>,
    port: Option<u16>,
}

impl View for Authority {
    type V = AuthorityView;

    closed spec fn view(&self) -> AuthorityView {
        AuthorityView { user_info: opt_bytes(self.user_info), host: self.host@, port: self.port }
    }
}

/// Whether a host is written as an IPv6 literal: its bytes are UTF-8 text
/// that validates as an IPv6 address.
pub open spec fn is_ipv6_host(host: Seq<u8>) -> bool {
    valid_utf8(host) && ipv6_validation(decode_utf8(host)) is Ok
}

/// How a host is written: an IPv6 literal in brackets and in lower case,
/// anything else percent-encoded as a registered name.
pub open spec fn host_text(host: Seq<u8>) -> Seq<char> {
    if is_ipv6_host(host) {
        seq!['['] + ascii_lowercase(decode_utf8(host)) + seq![']']
    } else {
        encoded(host, CharSet::RegName)
    }
}

/// How an authority is written: `user-info@`, the host, and `:port`.
pub open spec fn authority_text(a: AuthorityView) -> Seq<char> {
    (match a.user_info {
        Some(u) => encoded(u, CharSet::UserInfo) + seq!['@'],
        None => seq![],
    }) + host_text(a.host) + (match a.port {
        Some(p) => seq![':'] + decimal_text(p as nat),
        None => seq![],
    })
}

/// What an authority text holds: the text before its last `@` is the
/// user-info, the rest is host and port (see `host_port`).
pub open spec fn authority_outcome(t: Seq<char>) -> Result<AuthorityView, Error> {
    let at = find_last(t, '@', t.len() as int);
    if at >= 0 {
        match decoded(t.subrange(0, at), CharSet::UserInfo, Context::UserInfo) {
            Err(e) => Err(e),
            Ok(u) => match host_port(t.subrange(at + 1, t.len() as int)) {
                Ok((h, p)) => Ok(AuthorityView { user_info: Some(u), host: h, port: p }),
                Err(e) => Err(e),
            },
        }
    } else {
        match host_port(t) {
            Ok((h, p)) => Ok(AuthorityView { user_info: None, host: h, port: p }),
            Err(e) => Err(e),
        }
    }
}

pub open spec fn authority_result(r: Result<Authority, Error>) -> Result<AuthorityView, Error> {
    match r {
        Ok(a) => Ok(a@),
        Err(e) => Err(e),
    }
}

impl Default for Authority {
    fn default() -> (r: Authority)
        ensures
            r@ == (AuthorityView { user_info: None, host: Seq::<u8>::empty(), port: None }),
    {
        Authority { user_info: None, host: Vec::new(), port: None }
    }
}

impl Authority {
    /// An authority of the given parts.
    pub fn new(user_info: Option<Vec<u8>>, host: Vec<u8>, port: Option<u16>) -> (r: Authority)
        ensures
            r@ == (AuthorityView { user_info: opt_bytes(user_info), host: host@, port }),
    {
        Authority { user_info, host, port }
    }

    /// A copy of this authority.
    pub fn duplicate(&self) -> (r: Authority)
        ensures
            r@ == self@,
    {
        Authority {
            user_info: copy_opt_bytes(&self.user_info),
            host: copy_bytes(self.host.as_slice()),
            port: self.port,
        }
    }

    /// Borrow the host name part of the Authority.
    pub fn host(&self) -> (r: &[u8])
        ensures
            r@ == self@.host,
    {
        self.host.as_slice()
    }

    /// The port number part of the Authority.
    pub fn port(&self) -> (r: Option<u16>)
        ensures
            r == self@.port,
    {
        self.port
    }

    /// Change the `user_info` part of the Authority.
    pub fn set_user_info(&mut self, user_info: Option<Vec<u8>>)
        ensures
            final(self)@ == (AuthorityView { user_info: opt_bytes(user_info), ..old(self)@ }),
    {
        self.user_info = user_info;
    }

    /// Change the host name part of the Authority.
    pub fn set_host(&mut self, host: Vec<u8>)
        ensures
            final(self)@ == (AuthorityView { host: host@, ..old(self)@ }),
    {
        self.host = host;
    }

    /// Change the port number part of the Authority.
    pub fn set_port(&mut self, port: Option<u16>)
        ensures
            final(self)@ == (AuthorityView { port, ..old(self)@ }),
    {
        self.port = port;
    }

    /// Borrow the `user_info` part of the Authority.
    pub fn user_info(&self) -> (r: Option<&[u8]>)
        ensures
            match r {
                Some(u) => self@.user_info == Some(u@),
                None => self@.user_info is None,
            },
    {
        match &self.user_info {
            Some(u) => Some(u.as_slice()),
            None => None,
        }
    }

    /// Interpret the given string as the Authority component of a URI.
    pub fn parse(authority_string: &str) -> (r: Result<Authority, Error>)
        ensures
            agrees(authority_result(r), authority_outcome(authority_string@)),
    {
        let t = chars_of(authority_string);
        Self::parse_chars(&t)
    }

    /// Parses the authority text `t`: see `authority_outcome`.
    pub fn parse_chars(t: &Vec<char>) -> (r: Result<Authority, Error>)
        ensures
            agrees(authority_result(r), authority_outcome(t@)),
    {
        let (user_info, host_start) = match Self::parse_user_info(t) {
            Ok(p) => p,
            Err(e) => {
                return Err(e);
            },
        };
        let host_port_text = sub_chars(t, host_start, t.len());
        assert(t@.subrange(0, t@.len() as int) =~= t@);
        match parse_host_port(&host_port_text) {
            Ok((host, port)) => Ok(Authority { user_info, host, port }),
            Err(e) => Err(e),
        }
    }

    /// Splits off and decodes the user-info: the text before the last `@`.
    /// Returns it with the index at which host and port begin.
    fn parse_user_info(t: &Vec<char>) -> (r: Result<(Option<Vec<u8>>, usize), Error>)
        ensures
            match r {
                Ok((u, k)) => {
                    let at = find_last(t@, '@', t@.len() as int);
                    &&& k <= t@.len()
                    &&& at >= 0 ==> k == at + 1 && decoded(
                        t@.subrange(0, at),
                        CharSet::UserInfo,
                        Context::UserInfo,
                    ) == Ok::<Seq<u8>, Error>(opt_bytes(u)->Some_0) && u is Some
                    &&& at < 0 ==> k == 0 && u is None
                },
                Err(e) => {
                    let at = find_last(t@, '@', t@.len() as int);
                    &&& at >= 0
                    &&& decoded(t@.subrange(0, at), CharSet::UserInfo, Context::UserInfo)
                        == Err::<Seq<u8>, Error>(e)
                },
            },
    {
        let n = t.len();
        match last_index_of(t, '@') {
            Some(delimiter) => match decode_range(
                t,
                0,
                delimiter,
                CharSet::UserInfo,
                Context::UserInfo,
            ) {
                Ok(u) => Ok((Some(u), delimiter + 1)),
                Err(e) => Err(e),
            },
            None => Ok((None, 0)),
        }
    }

    /// Appends the written form of this authority to `out`.
    pub fn push_text(&self, out: &mut Vec<char>)
        ensures
            final(out)@ == old(out)@ + authority_text(self@),
    {
        let ghost start = out@;
        if let Some(user_info) = &self.user_info {
            push_encoded(out, user_info.as_slice(), CharSet::UserInfo);
            out.push('@');
        }
        let ghost after_user = out@;
        let host_string = string_from_utf8(copy_bytes(self.host.as_slice()));
        let mut literal = false;
        if let Ok(h) = host_string {
            let chars = chars_of(h.as_str());
            if validate_ipv6_chars(&chars).is_ok() {
                out.push('[');
                push_chars(out, &lowercase_chars(&chars));
                out.push(']');
                literal = true;
            }
        }
        if !literal {
            push_encoded(out, self.host.as_slice(), CharSet::RegName);
        }
        assert(out@ =~= after_user + host_text(self.host@));
        let ghost after_host = out@;
        if let Some(port) = self.port {
            out.push(':');
            push_decimal(out, port as u64);
        }
        assert(out@ =~= old(out)@ + authority_text(self@));
    }

    /// The written form of this authority: see `authority_text`.
    pub fn to_string(&self) -> (r: String)
        ensures
            r@ == authority_text(self@),
    {
        let mut out: Vec<char> = Vec::new();
        self.push_text(&mut out);
        assert(out@ =~= authority_text(self@));
        string_of(&out)
    }
}

} // verus!
