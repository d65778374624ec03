//! Parsing and generation of URI strings (RFC 3986).
use vstd::prelude::*;

pub mod absolute_uri;
pub mod authority;
pub mod characters;
pub mod codec;
pub mod context;
pub mod error;
pub mod ipv4_address;
pub mod ipv6_address;
pub mod laws;
pub mod port;

use authority::{authority_outcome, authority_result, authority_text, Authority, AuthorityView};
use characters::{ascii_lowercase, lowercase_chars, CharSet};
use codec::{bytes_result, decode_range, decoded, encoded, push_encoded};
use context::Context;
use error::{agrees, Error};
use crate::text::{
    chars_of, copy_bytes, copy_opt_bytes, find_either, index_of_either, lemma_find_either_bounds,
    opt_bytes, push_chars, string_of, sub_chars,
};
use std::string::FromUtf8Error;
use vstd::string::StringSliceAdditionalSpecFns;
use vstd::utf8::{decode_utf8, valid_utf8};

verus! {

/// What a URI holds: an optional scheme, an optional authority, the path
/// segments, and optional query and fragment, all decoded.
pub struct UriView {
    pub scheme: Option<Seq<char>>,
    pub authority: Option<AuthorityView>,
    pub path: Seq<Seq<u8>>,
    pub query: Option<Seq<u8>>,
    pub fragment: Option<Seq<u8>>,
}

/// The path segments of a vector of byte vectors.
pub open spec fn path_view(p: Seq<Vec<u8>>) -> Seq<Seq<u8>> {
    p.map_values(|v: Vec<u8>| v@)
}

/// Whether a path is absolute: its first segment is empty.
pub open spec fn is_absolute(path: Seq<Seq<u8>>) -> bool {
    path.len() > 0 && path[0].len() == 0
}

/// The encoded segments of a path joined by `/`.
pub open spec fn joined(path: Seq<Seq<u8>>) -> Seq<char>
    decreases path.len(),
{
    if path.len() == 0 {
        seq![]
    } else if path.len() == 1 {
        encoded(path[0], CharSet::PathChar)
    } else {
        joined(path.drop_last()) + seq!['/'] + encoded(path.last(), CharSet::PathChar)
    }
}

/// How a path is written; the path of one empty segment is `/`.
pub open spec fn path_text(path: Seq<Seq<u8>>) -> Seq<char> {
    (if path.len() == 1 && path[0].len() == 0 {
        seq!['/']
    } else {
        seq![]
    }) + joined(path)
}

/// How a URI is written: `scheme:`, `//authority`, the path, `?query` and
/// `#fragment`, each part where it is present.
pub open spec fn uri_text(u: UriView) -> Seq<char> {
    (match u.scheme {
        Some(s) => s + seq![':'],
        None => seq![],
    }) + (match u.authority {
        Some(a) => seq!['/', '/'] + authority_text(a),
        None => seq![],
    }) + path_text(u.path) + (match u.query {
        Some(q) => seq!['?'] + encoded(q, CharSet::QueryWithoutPlus),
        None => seq![],
    }) + (match u.fragment {
        Some(f) => seq!['#'] + encoded(f, CharSet::QueryOrFragment),
        None => seq![],
    })
}

/// Whether a scheme is well formed: a letter, then letters, digits, `+`,
/// `-` or `.`.
pub open spec fn scheme_ok(s: Seq<char>) -> bool {
    s.len() > 0 && CharSet::Alpha.has(s[0]) && forall|i: int|
        1 <= i < s.len() ==> CharSet::SchemeNotFirst.has(#[trigger] s[i])
}

/// The verdict on a scheme.
pub open spec fn scheme_check(s: Seq<char>) -> Result<(), error::Error> {
    if s.len() == 0 {
        Err(error::Error::EmptyScheme)
    } else if scheme_ok(s) {
        Ok(())
    } else {
        Err(error::Error::IllegalCharacter(context::Context::Scheme))
    }
}

/// The text of an optional string.
pub open spec fn opt_text(s: Option<String>) -> Option<Seq<char>> {
    match s {
        Some(t) => Some(t@),
        None => None,
    }
}

pub open spec fn opt_authority(a: Option<Authority>) -> Option<AuthorityView> {
    match a {
        Some(x) => Some(x@),
        None => None,
    }
}

/// The bytes of a path as `path_to_string` reads them: the segments joined
/// by `/`, and `/` for the path of one empty segment.
pub open spec fn path_bytes(path: Seq<Seq<u8>>) -> Seq<u8>
    decreases path.len(),
{
    if path.len() == 1 && path[0].len() == 0 {
        seq![47u8]
    } else {
        joined_bytes(path)
    }
}

pub open spec fn joined_bytes(path: Seq<Seq<u8>>) -> Seq<u8>
    decreases path.len(),
{
    if path.len() == 0 {
        seq![]
    } else if path.len() == 1 {
        path[0]
    } else {
        joined_bytes(path.drop_last()) + seq![47u8] + path.last()
    }
}

/// What a conversion of optional bytes to an optional string owes: `None`
/// stays `None`; bytes convert exactly where they are valid UTF-8.
pub open spec fn opt_string_outcome(
    bytes: Option<Seq<u8>>,
    r: Result<Option<String>, FromUtf8Error>,
) -> bool {
    match bytes {
        None => r matches Ok(None),
        Some(b) => (r is Ok <==> valid_utf8(b)) && (r matches Ok(x) ==> (x matches Some(s) && s@
            == decode_utf8(b))),
    }
}

/// A URI, split into its components. Components are decoded when a URI is
/// parsed and percent-encoded as needed when it is written; the written form
/// is kept up to date with the components at all times.
///
/// The path is a sequence of segments, the pieces between the slashes:
/// `"foo/bar"` is `["foo", "bar"]`, `"/foo/bar"` is `["", "foo", "bar"]`,
/// `"foo/bar/"` is `["foo", "bar", ""]`, `"/"` is `[""]` and `""` is `[]`.
#[derive(Debug, PartialEq, Eq, Hash)]
pub struct Uri {
    scheme: Option<String>,
    authority: Option<Authority>,
    path: Vec<Vec<u8>>,
    query: Option<Vec<u8>>,
    fragment: Option<Vec<u8>>,
    raw: String,
}

impl View for Uri {
    type V = UriView;

    closed spec fn view(&self) -> UriView {
        UriView {
            scheme: opt_text(self.scheme),
            authority: opt_authority(self.authority),
            path: path_view(self.path@),
            query: opt_bytes(self.query),
            fragment: opt_bytes(self.fragment),
        }
    }
}

impl Uri {
    #[verifier::type_invariant]
    spec fn raw_is_current(self) -> bool {
        self.raw@ == uri_text(self@)
    }

    /// Appends the written form of a path to `out`.
    fn push_path(out: &mut Vec<char>, path: &Vec<Vec<u8>>)
        ensures
            final(out)@ == old(out)@ + path_text(path_view(path@)),
    {
        let ghost pv = path_view(path@);
        if path.len() == 1 && path[0].len() == 0 {
            out.push('/');
        }
        let ghost path_start = out@;
        let mut i: usize = 0;
        while i < path.len()
            invariant
                i <= path@.len(),
                pv == path_view(path@),
                out@ == path_start + joined(pv.subrange(0, i as int)),
            decreases path@.len() - i,
        {
            if i > 0 {
                out.push('/');
            }
            push_encoded(out, path[i].as_slice(), CharSet::PathChar);
            proof {
                let next = pv.subrange(0, i + 1);
                assert(next.drop_last() =~= pv.subrange(0, i as int));
                assert(next.last() == path@[i as int]@);
                assert(out@ =~= path_start + joined(next));
            }
            i += 1;
        }
        assert(pv.subrange(0, path@.len() as int) =~= pv);
        assert(out@ =~= old(out)@ + path_text(pv));
    }

    /// The written form of the components.
    fn render(
        scheme: &Option<String>,
        authority: &Option<Authority>,
        path: &Vec<Vec<u8>>,
        query: &Option<Vec<u8>>,
        fragment: &Option<Vec<u8>>,
    ) -> (r: String)
        ensures
            r@ == uri_text(
                UriView {
                    scheme: opt_text(*scheme),
                    authority: opt_authority(*authority),
                    path: path_view(path@),
                    query: opt_bytes(*query),
                    fragment: opt_bytes(*fragment),
                },
            ),
    {
        let ghost u = UriView {
            scheme: opt_text(*scheme),
            authority: opt_authority(*authority),
            path: path_view(path@),
            query: opt_bytes(*query),
            fragment: opt_bytes(*fragment),
        };
        let mut out: Vec<char> = Vec::new();
        if let Some(s) = scheme {
            let cs = chars_of(s.as_str());
            push_chars(&mut out, &cs);
            out.push(':');
        }
        let ghost after_scheme = out@;
        assert(after_scheme =~= (match u.scheme {
            Some(s) => s + seq![':'],
            None => seq![],
        }));
        if let Some(a) = authority {
            out.push('/');
            out.push('/');
            a.push_text(&mut out);
        }
        let ghost after_authority = out@;
        assert(after_authority =~= after_scheme + (match u.authority {
            Some(a) => seq!['/', '/'] + authority_text(a),
            None => seq![],
        }));
        Self::push_path(&mut out, path);
        let ghost after_path = out@;
        if let Some(q) = query {
            out.push('?');
            push_encoded(&mut out, q.as_slice(), CharSet::QueryWithoutPlus);
        }
        let ghost after_query = out@;
        assert(after_query =~= after_path + (match u.query {
            Some(q) => seq!['?'] + encoded(q, CharSet::QueryWithoutPlus),
            None => seq![],
        }));
        if let Some(f) = fragment {
            out.push('#');
            push_encoded(&mut out, f.as_slice(), CharSet::QueryOrFragment);
        }
        assert(out@ =~= after_query + (match u.fragment {
            Some(f) => seq!['#'] + encoded(f, CharSet::QueryOrFragment),
            None => seq![],
        }));
        assert(out@ =~= uri_text(u));
        string_of(&out)
    }

    /// A URI of the given components.
    fn assemble(
        scheme: Option<String>,
        authority: Option<Authority>,
        path: Vec<Vec<u8>>,
        query: Option<Vec<u8>>,
        fragment: Option<Vec<u8>>,
    ) -> (r: Uri)
        ensures
            r@ == (UriView {
                scheme: opt_text(scheme),
                authority: opt_authority(authority),
                path: path_view(path@),
                query: opt_bytes(query),
                fragment: opt_bytes(fragment),
            }),
    {
        let raw = Self::render(&scheme, &authority, &path, &query, &fragment);
        Uri { scheme, authority, path, query, fragment, raw }
    }

    /// The written form of the URI.
    pub fn as_str(&self) -> (r: &str)
        ensures
            r@ == uri_text(self@),
    {
        proof {
            use_type_invariant(self);
        }
        self.raw.as_str()
    }

    /// The written form of the URI, as a new string.
    pub fn to_string(&self) -> (r: String)
        ensures
            r@ == uri_text(self@),
    {
        proof {
            use_type_invariant(self);
        }
        self.raw.clone()
    }
}


/// The index of the first `/` byte in `b` at or after `i`, or the length of
/// `b` where there is none.
pub open spec fn find_slash(b: Seq<u8>, i: int) -> int
    decreases b.len() - i,
{
    if i >= b.len() {
        b.len() as int
    } else if b[i] == 47u8 {
        i
    } else {
        find_slash(b, i + 1)
    }
}

proof fn lemma_find_slash_bounds(b: Seq<u8>, i: int)
    requires
        0 <= i <= b.len(),
    ensures
        i <= find_slash(b, i) <= b.len(),
    decreases b.len() - i,
{
    if i < b.len() && b[i] != 47u8 {
        lemma_find_slash_bounds(b, i + 1);
    }
}

#[via_fn]
proof fn slash_pieces_decreases(b: Seq<u8>, i: int) {
    lemma_find_slash_bounds(b, i);
}

/// The pieces of `b[i..]` between `/` bytes.
pub open spec fn slash_pieces(b: Seq<u8>, i: int) -> Seq<Seq<u8>>
    decreases b.len() - i
    when 0 <= i <= b.len()
    via slash_pieces_decreases
{
    let k = find_slash(b, i);
    if k >= b.len() {
        seq![b.subrange(i, b.len() as int)]
    } else {
        seq![b.subrange(i, k)] + slash_pieces(b, k + 1)
    }
}

/// The path that a string names when it is split at its slashes; the empty
/// string names the empty path.
pub open spec fn path_of_text(b: Seq<u8>) -> Seq<Seq<u8>> {
    if b.len() == 0 {
        seq![]
    } else {
        slash_pieces(b, 0)
    }
}

fn copy_path(path: &Vec<Vec<u8>>) -> (r: Vec<Vec<u8>>)
    ensures
        path_view(r@) == path_view(path@),
{
    let mut r: Vec<Vec<u8>> = Vec::new();
    let mut i: usize = 0;
    while i < path.len()
        invariant
            i <= path@.len(),
            path_view(r@) == path_view(path@).subrange(0, i as int),
        decreases path@.len() - i,
    {
        let c = copy_bytes(path[i].as_slice());
        let ghost before = r@;
        r.push(c);
        assert(path_view(r@) =~= path_view(before).push(c@));
        assert(path_view(path@).subrange(0, i + 1) =~= path_view(path@).subrange(0, i as int).push(
            path@[i as int]@,
        ));
        i += 1;
    }
    assert(path_view(path@).subrange(0, path@.len() as int) =~= path_view(path@));
    r
}

fn copy_opt_string(s: &Option<String>) -> (r: Option<String>)
    ensures
        opt_text(r) == opt_text(*s),
{
    match s {
        Some(t) => Some(t.clone()),
        None => None,
    }
}

fn copy_opt_authority(a: &Option<Authority>) -> (r: Option<Authority>)
    ensures
        opt_authority(r) == opt_authority(*a),
{
    match a {
        Some(x) => Some(x.duplicate()),
        None => None,
    }
}

/// Converts optional bytes to an optional string.
fn opt_bytes_to_string(b: Option<&[u8]>) -> (r: Result<Option<String>, FromUtf8Error>)
    ensures
        opt_string_outcome(
            match b {
                Some(x) => Some(x@),
                None => None,
            },
            r,
        ),
{
    match b {
        Some(x) => match crate::text::string_from_utf8(copy_bytes(x)) {
            Ok(s) => Ok(Some(s)),
            Err(e) => Err(e),
        },
        None => Ok(None),
    }
}

impl Clone for Uri {
    fn clone(&self) -> (r: Uri)
        ensures
            r@ == self@,
    {
        self.duplicate()
    }
}

impl Default for Uri {
    fn default() -> (r: Uri)
        ensures
            r@ == (UriView {
                scheme: None,
                authority: None,
                path: Seq::<Seq<u8>>::empty(),
                query: None,
                fragment: None,
            }),
    {
        let r = Uri::assemble(None, None, Vec::new(), None, None);
        assert(path_view(Seq::<Vec<u8>>::empty()) =~= Seq::<Seq<u8>>::empty());
        r
    }
}

impl Uri {
    /// A copy of this URI.
    pub fn duplicate(&self) -> (r: Uri)
        ensures
            r@ == self@,
    {
        Uri::assemble(
            copy_opt_string(&self.scheme),
            copy_opt_authority(&self.authority),
            copy_path(&self.path),
            copy_opt_bytes(&self.query),
            copy_opt_bytes(&self.fragment),
        )
    }

    /// Borrow the authority (if any) of the URI.
    pub fn authority(&self) -> (r: Option<&Authority>)
        ensures
            opt_authority(
                match r {
                    Some(a) => Some(*a),
                    None => None,
                },
            ) == self@.authority,
    {
        match &self.authority {
            Some(a) => Some(a),
            None => None,
        }
    }

    /// Determines if the URI contains a relative path rather than an absolute
    /// path.
    pub fn contains_relative_path(&self) -> (r: bool)
        ensures
            r == !is_absolute(self@.path),
    {
        !Self::is_path_absolute(&self.path)
    }

    /// Borrow the fragment (if any) of the URI.
    pub fn fragment(&self) -> (r: Option<&[u8]>)
        ensures
            match r {
                Some(f) => self@.fragment == Some(f@),
                None => self@.fragment is None,
            },
    {
        match &self.fragment {
            Some(f) => Some(f.as_slice()),
            None => None,
        }
    }

    /// Convert the fragment (if any) into a string; fails where the fragment
    /// is no valid UTF-8.
    pub fn fragment_to_string(&self) -> (r: Result<Option<String>, FromUtf8Error>)
        ensures
            opt_string_outcome(self@.fragment, r),
    {
        opt_bytes_to_string(self.fragment())
    }

    /// Borrow the host portion of the Authority (if any) of the URI.
    pub fn host(&self) -> (r: Option<&[u8]>)
        ensures
            match r {
                Some(h) => self@.authority matches Some(a) && a.host == h@,
                None => self@.authority is None,
            },
    {
        match &self.authority {
            Some(a) => Some(a.host()),
            None => None,
        }
    }

    /// Convert the host portion of the Authority (if any) into a string;
    /// fails where the host is no valid UTF-8.
    pub fn host_to_string(&self) -> (r: Result<Option<String>, FromUtf8Error>)
        ensures
            opt_string_outcome(
                match self@.authority {
                    Some(a) => Some(a.host),
                    None => None,
                },
                r,
            ),
    {
        opt_bytes_to_string(self.host())
    }

    /// Determines if the URI is a relative reference: it has no scheme, but
    /// may still have an authority.
    pub fn is_relative_reference(&self) -> (r: bool)
        ensures
            r == self@.scheme is None,
    {
        self.scheme.is_none()
    }

    /// Borrow the path component of the URI.
    pub fn path(&self) -> (r: &Vec<Vec<u8>>)
        ensures
            path_view(r@) == self@.path,
    {
        &self.path
    }

    /// Convert the path portion of the URI into a string; fails where the
    /// path is no valid UTF-8.
    pub fn path_to_string(&self) -> (r: Result<String, FromUtf8Error>)
        ensures
            r is Ok <==> valid_utf8(path_bytes(self@.path)),
            r matches Ok(s) ==> s@ == decode_utf8(path_bytes(self@.path)),
    {
        let ghost pv = self@.path;
        let mut bytes: Vec<u8> = Vec::new();
        if self.path.len() == 1 && self.path[0].len() == 0 {
            bytes.push(47u8);
            assert(bytes@ =~= path_bytes(pv));
        } else {
            let mut i: usize = 0;
            while i < self.path.len()
                invariant
                    i <= self.path@.len(),
                    pv == path_view(self.path@),
                    bytes@ == joined_bytes(pv.subrange(0, i as int)),
                decreases self.path@.len() - i,
            {
                if i > 0 {
                    bytes.push(47u8);
                }
                let seg = &self.path[i];
                let mut j: usize = 0;
                let ghost before = bytes@;
                while j < seg.len()
                    invariant
                        j <= seg@.len(),
                        bytes@ == before + seg@.subrange(0, j as int),
                    decreases seg@.len() - j,
                {
                    bytes.push(seg[j]);
                    assert(seg@.subrange(0, j + 1) =~= seg@.subrange(0, j as int).push(seg@[j as int]));
                    j += 1;
                }
                proof {
                    assert(seg@.subrange(0, seg@.len() as int) =~= seg@);
                    let next = pv.subrange(0, i + 1);
                    assert(next.drop_last() =~= pv.subrange(0, i as int));
                    assert(next.last() == seg@);
                    assert(bytes@ =~= joined_bytes(next));
                }
                i += 1;
            }
            assert(pv.subrange(0, self.path@.len() as int) =~= pv);
        }
        crate::text::string_from_utf8(bytes)
    }

    /// The port (if any) contained in the URI.
    pub fn port(&self) -> (r: Option<u16>)
        ensures
            r == (match self@.authority {
                Some(a) => a.port,
                None => None,
            }),
    {
        match &self.authority {
            Some(a) => a.port(),
            None => None,
        }
    }

    /// Borrow the query (if any) of the URI.
    pub fn query(&self) -> (r: Option<&[u8]>)
        ensures
            match r {
                Some(q) => self@.query == Some(q@),
                None => self@.query is None,
            },
    {
        match &self.query {
            Some(q) => Some(q.as_slice()),
            None => None,
        }
    }

    /// Convert the query (if any) into a string; fails where the query is no
    /// valid UTF-8.
    pub fn query_to_string(&self) -> (r: Result<Option<String>, FromUtf8Error>)
        ensures
            opt_string_outcome(self@.query, r),
    {
        opt_bytes_to_string(self.query())
    }

    /// Borrow the scheme (if any) of the URI.
    pub fn scheme(&self) -> (r: Option<&str>)
        ensures
            match r {
                Some(s) => self@.scheme == Some(s@),
                None => self@.scheme is None,
            },
    {
        match &self.scheme {
            Some(s) => Some(s.as_str()),
            None => None,
        }
    }

    /// Borrow the `user_info` portion (if any) of the Authority (if any).
    pub fn user_info(&self) -> (r: Option<&[u8]>)
        ensures
            match r {
                Some(u) => self@.authority matches Some(a) && a.user_info == Some(u@),
                None => self@.authority matches Some(a) ==> a.user_info is None,
            },
    {
        match &self.authority {
            Some(a) => a.user_info(),
            None => None,
        }
    }

    /// Convert the `user_info` (if any) into a string; fails where it is no
    /// valid UTF-8.
    pub fn user_info_to_string(&self) -> (r: Result<Option<String>, FromUtf8Error>)
        ensures
            opt_string_outcome(
                match self@.authority {
                    Some(a) => a.user_info,
                    None => None,
                },
                r,
            ),
    {
        opt_bytes_to_string(self.user_info())
    }

    /// Change the authority of the URI.
    pub fn set_authority(&mut self, authority: Option<Authority>)
        ensures
            final(self)@ == (UriView { authority: opt_authority(authority), ..old(self)@ }),
    {
        *self = Uri::assemble(
            copy_opt_string(&self.scheme),
            authority,
            copy_path(&self.path),
            copy_opt_bytes(&self.query),
            copy_opt_bytes(&self.fragment),
        );
    }

    /// Change the fragment of the URI.
    pub fn set_fragment(&mut self, fragment: Option<Vec<u8>>)
        ensures
            final(self)@ == (UriView { fragment: opt_bytes(fragment), ..old(self)@ }),
    {
        *self = Uri::assemble(
            copy_opt_string(&self.scheme),
            copy_opt_authority(&self.authority),
            copy_path(&self.path),
            copy_opt_bytes(&self.query),
            fragment,
        );
    }

    /// Change the path of the URI.
    pub fn set_path(&mut self, path: Vec<Vec<u8>>)
        ensures
            final(self)@ == (UriView { path: path_view(path@), ..old(self)@ }),
    {
        *self = Uri::assemble(
            copy_opt_string(&self.scheme),
            copy_opt_authority(&self.authority),
            path,
            copy_opt_bytes(&self.query),
            copy_opt_bytes(&self.fragment),
        );
    }

    /// Change the path of the URI to the pieces of `path` between its
    /// slashes; the empty string gives the empty path.
    pub fn set_path_from_str(&mut self, path: &str)
        ensures
            final(self)@ == (UriView { path: path_of_text(path.spec_bytes()), ..old(self)@ }),
    {
        let b = path.as_bytes();
        let mut segments: Vec<Vec<u8>> = Vec::new();
        if b.len() > 0 {
            let ghost bs = b@;
            let mut i: usize = 0;
            loop
                invariant_except_break
                    slash_pieces(bs, 0) == path_view(segments@) + slash_pieces(bs, i as int),
                invariant
                    i <= bs.len(),
                    bs == b@,
                ensures
                    slash_pieces(bs, 0) == path_view(segments@),
                decreases bs.len() - i,
            {
                let mut k = i;
                while k < b.len() && b[k] != 47u8
                    invariant
                        i <= k <= bs.len(),
                        bs == b@,
                        find_slash(bs, i as int) == find_slash(bs, k as int),
                    decreases bs.len() - k,
                {
                    k += 1;
                }
                let mut piece: Vec<u8> = Vec::new();
                let mut j = i;
                while j < k
                    invariant
                        i <= j <= k <= bs.len(),
                        bs == b@,
                        piece@ == bs.subrange(i as int, j as int),
                    decreases k - j,
                {
                    piece.push(b[j]);
                    assert(bs.subrange(i as int, j + 1) =~= bs.subrange(i as int, j as int).push(bs[j as int]));
                    j += 1;
                }
                let ghost before = segments@;
                let ghost piece_view = piece@;
                segments.push(piece);
                assert(path_view(segments@) =~= path_view(before) + seq![piece_view]);
                assert(find_slash(bs, k as int) == k);
                if k >= b.len() {
                    assert(slash_pieces(bs, i as int) == seq![bs.subrange(i as int, k as int)]);
                    assert(path_view(segments@) =~= path_view(before) + slash_pieces(bs, i as int));
                    assert(slash_pieces(bs, 0) =~= path_view(segments@));
                    break;
                }
                assert(slash_pieces(bs, i as int) == seq![bs.subrange(i as int, k as int)] + slash_pieces(bs, k + 1));
                assert(path_view(segments@) + slash_pieces(bs, k + 1) =~= path_view(before) + slash_pieces(bs, i as int));
                i = k + 1;
            }
        }
        assert(b@.len() == 0 ==> path_view(segments@) =~= Seq::<Seq<u8>>::empty());
        self.set_path(segments);
    }

    /// Change the scheme of the URI. A scheme that is not well formed is
    /// refused, and the URI is then left as it was.
    pub fn set_scheme(&mut self, scheme: Option<String>) -> (r: Result<(), error::Error>)
        ensures
            match scheme {
                None => r is Ok && final(self)@ == (UriView { scheme: None, ..old(self)@ }),
                Some(s) => match scheme_check(s@) {
                    Ok(_) => r is Ok && final(self)@ == (UriView { scheme: Some(s@), ..old(self)@ }),
                    Err(e) => r == Err::<(), error::Error>(e) && final(self)@ == old(self)@,
                },
            },
    {
        if let Some(s) = &scheme {
            let cs = chars_of(s.as_str());
            if let Err(e) = Self::check_scheme(&cs) {
                return Err(e);
            }
        }
        *self = Uri::assemble(
            scheme,
            copy_opt_authority(&self.authority),
            copy_path(&self.path),
            copy_opt_bytes(&self.query),
            copy_opt_bytes(&self.fragment),
        );
        Ok(())
    }

    /// Change the query of the URI.
    pub fn set_query(&mut self, query: Option<Vec<u8>>)
        ensures
            final(self)@ == (UriView { query: opt_bytes(query), ..old(self)@ }),
    {
        *self = Uri::assemble(
            copy_opt_string(&self.scheme),
            copy_opt_authority(&self.authority),
            copy_path(&self.path),
            query,
            copy_opt_bytes(&self.fragment),
        );
    }

    fn is_path_absolute(path: &Vec<Vec<u8>>) -> (r: bool)
        ensures
            r == is_absolute(path_view(path@)),
    {
        path.len() > 0 && path[0].len() == 0
    }

    /// Checks a scheme: see `scheme_check`.
    fn check_scheme(scheme: &Vec<char>) -> (r: Result<(), error::Error>)
        ensures
            r == scheme_check(scheme@),
    {
        if scheme.len() == 0 {
            return Err(error::Error::EmptyScheme);
        }
        if !CharSet::Alpha.contains(scheme[0]) {
            return Err(error::Error::IllegalCharacter(context::Context::Scheme));
        }
        let mut i: usize = 1;
        while i < scheme.len()
            invariant
                1 <= i <= scheme@.len(),
                forall|j: int| 1 <= j < i ==> CharSet::SchemeNotFirst.has(#[trigger] scheme@[j]),
            decreases scheme@.len() - i,
        {
            if !CharSet::SchemeNotFirst.contains(scheme[i]) {
                return Err(error::Error::IllegalCharacter(context::Context::Scheme));
            }
            i += 1;
        }
        Ok(())
    }
}
} // verus!

verus! {

/// Where the search for the scheme's `:` stops: the first `/`, `?` or `#`.
pub open spec fn scheme_limit(s: Seq<char>) -> int {
    let a = find_either(s, '/', '?', 0);
    let b = find_either(s, '#', '#', 0);
    if a < b {
        a
    } else {
        b
    }
}

/// The scheme, lower-cased, where a `:` comes before any `/`, `?` or `#`,
/// and the text after it; else no scheme and all of the text.
pub open spec fn scheme_outcome(s: Seq<char>) -> Result<(Option<Seq<char>>, Seq<char>), Error> {
    let colon = find_either(s, ':', ':', 0);
    if colon < scheme_limit(s) {
        let scheme = s.subrange(0, colon);
        match scheme_check(scheme) {
            Err(e) => Err(e),
            Ok(_) => Ok((Some(ascii_lowercase(scheme)), s.subrange(colon + 1, s.len() as int))),
        }
    } else {
        Ok((None, s))
    }
}

#[via_fn]
proof fn segments_decreases(p: Seq<char>, i: int) {
    lemma_find_either_bounds(p, '/', '/', i);
}

/// The decoded segments of `p[i..]`, split at `/`; the first fault decides.
pub open spec fn segments_outcome(p: Seq<char>, i: int) -> Result<Seq<Seq<u8>>, Error>
    decreases p.len() - i
    when 0 <= i <= p.len()
    via segments_decreases
{
    let k = find_either(p, '/', '/', i);
    match decoded(p.subrange(i, k), CharSet::PathChar, Context::Path) {
        Err(e) => Err(e),
        Ok(seg) => if k >= p.len() {
            Ok(seq![seg])
        } else {
            match segments_outcome(p, k + 1) {
                Ok(rest) => Ok(seq![seg] + rest),
                Err(e) => Err(e),
            }
        },
    }
}

/// The path that a path text stands for: `"/"` is one empty segment, `""`
/// no segment, any other text its decoded pieces between slashes.
pub open spec fn path_outcome(p: Seq<char>) -> Result<Seq<Seq<u8>>, Error> {
    if p =~= seq!['/'] {
        Ok(seq![seq![]])
    } else if p.len() == 0 {
        Ok(seq![])
    } else {
        segments_outcome(p, 0)
    }
}

/// Authority and path of the text before any `?` or `#`: after a leading
/// `//`, the authority runs to the next `/` and the path (at least `/`)
/// follows; without `//` it is all path.
pub open spec fn authority_and_path(ap: Seq<char>) -> Result<
    (Option<AuthorityView>, Seq<Seq<u8>>),
    Error,
> {
    if ap.len() >= 2 && ap[0] == '/' && ap[1] == '/' {
        let a = ap.subrange(2, ap.len() as int);
        let k = find_either(a, '/', '/', 0);
        match authority_outcome(a.subrange(0, k)) {
            Err(e) => Err(e),
            Ok(auth) => if k >= a.len() {
                Ok((Some(auth), seq![seq![]]))
            } else {
                match path_outcome(a.subrange(k, a.len() as int)) {
                    Ok(p) => Ok((Some(auth), p)),
                    Err(e) => Err(e),
                }
            },
        }
    } else {
        match path_outcome(ap) {
            Ok(p) => Ok((None, p)),
            Err(e) => Err(e),
        }
    }
}

/// The fragment after the first `#`, decoded, and the text before it.
pub open spec fn fragment_outcome(t: Seq<char>) -> Result<(Option<Seq<u8>>, Seq<char>), Error> {
    let k = find_either(t, '#', '#', 0);
    if k < t.len() {
        match decoded(
            t.subrange(k + 1, t.len() as int),
            CharSet::QueryOrFragment,
            Context::Fragment,
        ) {
            Ok(f) => Ok((Some(f), t.subrange(0, k))),
            Err(e) => Err(e),
        }
    } else {
        Ok((None, t))
    }
}

/// The query of a text that is empty or starts with `?`.
pub open spec fn query_outcome(q: Seq<char>) -> Result<Option<Seq<u8>>, Error> {
    if q.len() == 0 {
        Ok(None)
    } else {
        match decoded(q.skip(1), CharSet::QueryOrFragment, Context::Query) {
            Ok(x) => Ok(Some(x)),
            Err(e) => Err(e),
        }
    }
}

/// What a URI string stands for, or the first fault in it.
pub open spec fn uri_outcome(s: Seq<char>) -> Result<UriView, Error> {
    match scheme_outcome(s) {
        Err(e) => Err(e),
        Ok((scheme, rest)) => {
            let pe = find_either(rest, '?', '#', 0);
            match authority_and_path(rest.subrange(0, pe)) {
                Err(e) => Err(e),
                Ok((authority, path)) => match fragment_outcome(
                    rest.subrange(pe, rest.len() as int),
                ) {
                    Err(e) => Err(e),
                    Ok((fragment, qtext)) => match query_outcome(qtext) {
                        Err(e) => Err(e),
                        Ok(query) => Ok(UriView { scheme, authority, path, query, fragment }),
                    },
                },
            }
        },
    }
}

pub open spec fn uri_result(r: Result<Uri, Error>) -> Result<UriView, Error> {
    match r {
        Ok(u) => Ok(u@),
        Err(e) => Err(e),
    }
}

pub open spec fn path_result(r: Result<Vec<Vec<u8>>, Error>) -> Result<Seq<Seq<u8>>, Error> {
    match r {
        Ok(p) => Ok(path_view(p@)),
        Err(e) => Err(e),
    }
}

pub open spec fn prepend_segments(p: Seq<Seq<u8>>, r: Result<Seq<Seq<u8>>, Error>) -> Result<
    Seq<Seq<u8>>,
    Error,
> {
    match r {
        Ok(x) => Ok(p + x),
        Err(e) => Err(e),
    }
}

proof fn lemma_prepend_segments_twice(
    p: Seq<Seq<u8>>,
    q: Seq<Seq<u8>>,
    r: Result<Seq<Seq<u8>>, Error>,
)
    ensures
        prepend_segments(p, prepend_segments(q, r)) == prepend_segments(p + q, r),
{
    if let Ok(x) = r {
        assert(p + (q + x) =~= (p + q) + x);
    }
}

impl Uri {
    /// Interpret the given string as a URI: see `uri_outcome`.
    pub fn parse(uri_string: &str) -> (r: Result<Uri, Error>)
        ensures
            agrees(uri_result(r), uri_outcome(uri_string@)),
    {
        let s = chars_of(uri_string);
        let (scheme, rest_start) = match Self::parse_scheme(&s) {
            Ok(x) => x,
            Err(e) => {
                return Err(e);
            },
        };
        let rest = sub_chars(&s, rest_start, s.len());
        let path_end = index_of_either(&rest, '?', '#', 0);
        let authority_and_path_string = sub_chars(&rest, 0, path_end);
        let query_and_or_fragment = sub_chars(&rest, path_end, rest.len());
        let (authority, path) = match Self::split_authority_from_path_and_parse_them(
            &authority_and_path_string,
        ) {
            Ok(x) => x,
            Err(e) => {
                return Err(e);
            },
        };
        let (fragment, query_end) = match Self::parse_fragment(&query_and_or_fragment) {
            Ok(x) => x,
            Err(e) => {
                return Err(e);
            },
        };
        let possible_query = sub_chars(&query_and_or_fragment, 0, query_end);
        proof {
            lemma_find_either_bounds(rest@, '?', '#', 0);
            let qf = query_and_or_fragment@;
            if qf.len() > 0 {
                assert(qf[0] == rest@[path_end as int]);
                assert(qf[0] == '?' || qf[0] == '#');
                if qf[0] == '#' {
                    assert(find_either(qf, '#', '#', 0) == 0);
                    assert(qf.subrange(0, query_end as int).len() == 0);
                } else if query_end > 0 {
                    assert(possible_query@[0] == '?');
                }
            }
        }
        let query = match Self::parse_query(&possible_query) {
            Ok(q) => q,
            Err(e) => {
                return Err(e);
            },
        };
        proof {
            assert(query_and_or_fragment@.subrange(0, query_and_or_fragment@.len() as int)
                =~= query_and_or_fragment@);
        }
        Ok(Uri::assemble(scheme, authority, path, query, fragment))
    }

    /// Splits off and checks the scheme: returns it, lower-cased, with the
    /// index at which the rest of the text begins.
    fn parse_scheme(s: &Vec<char>) -> (r: Result<(Option<String>, usize), Error>)
        ensures
            match r {
                Ok((scheme, k)) => k <= s@.len() && scheme_outcome(s@) == Ok::<
                    (Option<Seq<char>>, Seq<char>),
                    Error,
                >((opt_text(scheme), s@.subrange(k as int, s@.len() as int))),
                Err(e) => scheme_outcome(s@) == Err::<(Option<Seq<char>>, Seq<char>), Error>(e),
            },
    {
        let a = index_of_either(s, '/', '?', 0);
        let b = index_of_either(s, '#', '#', 0);
        let limit = if a < b {
            a
        } else {
            b
        };
        let colon = index_of_either(s, ':', ':', 0);
        if colon < limit {
            let scheme = sub_chars(s, 0, colon);
            match Self::check_scheme(&scheme) {
                Err(e) => Err(e),
                Ok(_) => {
                    let lowered = lowercase_chars(&scheme);
                    Ok((Some(string_of(&lowered)), colon + 1))
                },
            }
        } else {
            assert(s@.subrange(0, s@.len() as int) =~= s@);
            Ok((None, 0))
        }
    }

    /// Parses the text before any `?` or `#`: see `authority_and_path`.
    fn split_authority_from_path_and_parse_them(ap: &Vec<char>) -> (r: Result<
        (Option<Authority>, Vec<Vec<u8>>),
        Error,
    >)
        ensures
            agrees(
                match r {
                    Ok((a, p)) => Ok((opt_authority(a), path_view(p@))),
                    Err(e) => Err(e),
                },
                authority_and_path(ap@),
            ),
    {
        if ap.len() >= 2 && ap[0] == '/' && ap[1] == '/' {
            let a = sub_chars(ap, 2, ap.len());
            let authority_end = index_of_either(&a, '/', '/', 0);
            let authority_string = sub_chars(&a, 0, authority_end);
            let authority = match Authority::parse_chars(&authority_string) {
                Ok(x) => x,
                Err(e) => {
                    return Err(e);
                },
            };
            if authority_end >= a.len() {
                let mut path: Vec<Vec<u8>> = Vec::new();
                path.push(Vec::new());
                assert(path_view(path@) =~= seq![Seq::<u8>::empty()]);
                Ok((Some(authority), path))
            } else {
                let path_string = sub_chars(&a, authority_end, a.len());
                match Self::parse_path(&path_string) {
                    Ok(p) => Ok((Some(authority), p)),
                    Err(e) => Err(e),
                }
            }
        } else {
            match Self::parse_path(ap) {
                Ok(p) => Ok((None, p)),
                Err(e) => Err(e),
            }
        }
    }

    /// Parses a path text: see `path_outcome`.
    fn parse_path(p: &Vec<char>) -> (r: Result<Vec<Vec<u8>>, Error>)
        ensures
            path_result(r) == path_outcome(p@),
    {
        if p.len() == 1 && p[0] == '/' {
            let mut path: Vec<Vec<u8>> = Vec::new();
            path.push(Vec::new());
            assert(p@ =~= seq!['/']);
            assert(path_view(path@) =~= seq![Seq::<u8>::empty()]);
            return Ok(path);
        }
        proof {
            if p@ =~= seq!['/'] {
                assert(p@.len() == 1 && p@[0] == seq!['/'][0]);
            }
        }
        let mut path: Vec<Vec<u8>> = Vec::new();
        if p.len() == 0 {
            assert(path_view(path@) =~= Seq::<Seq<u8>>::empty());
            return Ok(path);
        }
        let mut i: usize = 0;
        loop
            invariant
                i <= p@.len(),
                path_outcome(p@) == segments_outcome(p@, 0),
                segments_outcome(p@, 0) == prepend_segments(
                    path_view(path@),
                    segments_outcome(p@, i as int),
                ),
            decreases p@.len() - i,
        {
            let k = index_of_either(p, '/', '/', i);
            match decode_range(p, i, k, CharSet::PathChar, Context::Path) {
                Err(e) => {
                    return Err(e);
                },
                Ok(seg) => {
                    let ghost sv = seg@;
                    let ghost before = path_view(path@);
                    path.push(seg);
                    assert(path_view(path@) =~= before + seq![sv]);
                    if k >= p.len() {
                        assert(segments_outcome(p@, i as int) == Ok::<Seq<Seq<u8>>, Error>(seq![sv]));
                        assert(before + seq![sv] =~= path_view(path@));
                        return Ok(path);
                    }
                    proof {
                        lemma_prepend_segments_twice(before, seq![sv], segments_outcome(p@, k + 1));
                    }
                    i = k + 1;
                },
            }
        }
    }

    /// Splits off and decodes the fragment: see `fragment_outcome`. Returns
    /// it with the index at which the text before it ends.
    fn parse_fragment(t: &Vec<char>) -> (r: Result<(Option<Vec<u8>>, usize), Error>)
        ensures
            match r {
                Ok((f, k)) => k <= t@.len() && fragment_outcome(t@) == Ok::<
                    (Option<Seq<u8>>, Seq<char>),
                    Error,
                >((opt_bytes(f), t@.subrange(0, k as int))),
                Err(e) => fragment_outcome(t@) == Err::<(Option<Seq<u8>>, Seq<char>), Error>(e),
            },
    {
        let k = index_of_either(t, '#', '#', 0);
        if k < t.len() {
            match Self::decode_query_or_fragment(t, k + 1, t.len(), Context::Fragment) {
                Ok(f) => Ok((Some(f), k)),
                Err(e) => Err(e),
            }
        } else {
            assert(t@.subrange(0, t@.len() as int) =~= t@);
            Ok((None, t.len()))
        }
    }

    /// Decodes a query from a text that is empty or starts with `?`.
    fn parse_query(q: &Vec<char>) -> (r: Result<Option<Vec<u8>>, Error>)
        requires
            q@.len() > 0 ==> q@[0] == '?',
        ensures
            match r {
                Ok(x) => query_outcome(q@) == Ok::<Option<Seq<u8>>, Error>(opt_bytes(x)),
                Err(e) => query_outcome(q@) == Err::<Option<Seq<u8>>, Error>(e),
            },
    {
        if q.len() == 0 {
            Ok(None)
        } else {
            assert(q@.skip(1) =~= q@.subrange(1, q@.len() as int));
            match Self::decode_query_or_fragment(q, 1, q.len(), Context::Query) {
                Ok(x) => Ok(Some(x)),
                Err(e) => Err(e),
            }
        }
    }

    /// Decodes `s[start..end]` against the query and fragment set.
    fn decode_query_or_fragment(s: &Vec<char>, start: usize, end: usize, context: Context) -> (r:
        Result<Vec<u8>, Error>)
        requires
            start <= end <= s@.len(),
        ensures
            bytes_result(r) == decoded(
                s@.subrange(start as int, end as int),
                CharSet::QueryOrFragment,
                context,
            ),
    {
        decode_range(s, start, end, CharSet::QueryOrFragment, context)
    }
}

} // verus!

verus! {

/// Whether a segment is `.`.
pub open spec fn is_dot(seg: Seq<u8>) -> bool {
    seg.len() == 1 && seg[0] == 46u8
}

/// Whether a segment is `..`.
pub open spec fn is_dot_dot(seg: Seq<u8>) -> bool {
    seg.len() == 2 && seg[0] == 46u8 && seg[1] == 46u8
}

/// Whether `..` may remove the last segment: never the empty first segment
/// that makes a path absolute.
pub open spec fn can_go_up(out: Seq<Seq<u8>>) -> bool {
    out.len() > 0 && (out[0].len() == 0 ==> out.len() > 1)
}

/// One step of dot-segment removal: the segments kept so far, and whether
/// they end at a directory boundary.
pub open spec fn norm_step(st: (Seq<Seq<u8>>, bool), seg: Seq<u8>) -> (Seq<Seq<u8>>, bool) {
    let (out, at_dir) = st;
    if is_dot(seg) {
        (out, true)
    } else if is_dot_dot(seg) {
        (
            if can_go_up(out) {
                out.drop_last()
            } else {
                out
            },
            true,
        )
    } else {
        (
            if !at_dir || seg.len() > 0 {
                out.push(seg)
            } else {
                out
            },
            seg.len() == 0,
        )
    }
}

/// Dot-segment removal over all of a path.
pub open spec fn norm_state(p: Seq<Seq<u8>>) -> (Seq<Seq<u8>>, bool)
    decreases p.len(),
{
    if p.len() == 0 {
        (seq![], false)
    } else {
        norm_step(norm_state(p.drop_last()), p.last())
    }
}

/// The path with `.` and `..` segments applied and removed; a path that
/// ends at a directory keeps a trailing empty segment.
pub open spec fn normalized(p: Seq<Seq<u8>>) -> Seq<Seq<u8>> {
    let (out, at_dir) = norm_state(p);
    if at_dir && out.len() > 0 && out.last().len() > 0 {
        out.push(seq![])
    } else {
        out
    }
}

/// The path of a resolved reference that has neither scheme nor authority
/// and a relative path: the base path without its last segment (kept where
/// the base has no authority and at most one segment), then the reference
/// path, normalized.
pub open spec fn merged(base: UriView, rpath: Seq<Seq<u8>>) -> Seq<Seq<u8>> {
    let kept = if (base.authority is Some || base.path.len() > 1) && base.path.len() > 0 {
        base.path.drop_last()
    } else {
        base.path
    };
    normalized(kept + rpath)
}

/// The target of `reference` resolved against `base` (RFC 3986, 5.2.2).
pub open spec fn resolved(base: UriView, reference: UriView) -> UriView {
    if reference.scheme is Some {
        UriView { path: normalized(reference.path), ..reference }
    } else if reference.authority is Some {
        UriView { scheme: base.scheme, path: normalized(reference.path), ..reference }
    } else if reference.path.len() == 0 {
        UriView {
            scheme: base.scheme,
            authority: base.authority,
            path: base.path,
            query: if reference.query is None {
                base.query
            } else {
                reference.query
            },
            fragment: reference.fragment,
        }
    } else if is_absolute(reference.path) {
        UriView { scheme: base.scheme, authority: base.authority, ..reference }
    } else {
        UriView {
            scheme: base.scheme,
            authority: base.authority,
            path: merged(base, reference.path),
            ..reference
        }
    }
}

fn is_dot_segment(seg: &Vec<u8>) -> (r: bool)
    ensures
        r == is_dot(seg@),
{
    seg.len() == 1 && seg[0] == 46u8
}

fn is_dot_dot_segment(seg: &Vec<u8>) -> (r: bool)
    ensures
        r == is_dot_dot(seg@),
{
    seg.len() == 2 && seg[0] == 46u8 && seg[1] == 46u8
}

impl Uri {
    /// Whether `..` may remove the last segment of `path`.
    fn can_navigate_path_up_one_level(path: &Vec<Vec<u8>>) -> (r: bool)
        ensures
            r == can_go_up(path_view(path@)),
    {
        if path.len() == 0 {
            false
        } else if path[0].len() == 0 {
            path.len() > 1
        } else {
            true
        }
    }

    /// Dot-segment removal: see `normalized`.
    fn normalize_path(path: &Vec<Vec<u8>>) -> (r: Vec<Vec<u8>>)
        ensures
            path_view(r@) == normalized(path_view(path@)),
    {
        let ghost pv = path_view(path@);
        let mut at_directory_level = false;
        let mut normalized_path: Vec<Vec<u8>> = Vec::new();
        let mut i: usize = 0;
        while i < path.len()
            invariant
                i <= path@.len(),
                pv == path_view(path@),
                norm_state(pv.subrange(0, i as int)) == (
                    path_view(normalized_path@),
                    at_directory_level,
                ),
            decreases path@.len() - i,
        {
            let segment = &path[i];
            let ghost before = path_view(normalized_path@);
            proof {
                let next = pv.subrange(0, i + 1);
                assert(next.drop_last() =~= pv.subrange(0, i as int));
                assert(next.last() == segment@);
            }
            if is_dot_segment(segment) {
                at_directory_level = true;
            } else if is_dot_dot_segment(segment) {
                if Self::can_navigate_path_up_one_level(&normalized_path) {
                    normalized_path.pop();
                    assert(path_view(normalized_path@) =~= before.drop_last());
                }
                at_directory_level = true;
            } else {
                let new_at_directory_level = segment.len() == 0;
                if !at_directory_level || segment.len() > 0 {
                    normalized_path.push(copy_bytes(segment.as_slice()));
                    assert(path_view(normalized_path@) =~= before.push(segment@));
                }
                at_directory_level = new_at_directory_level;
            }
            i += 1;
        }
        assert(pv.subrange(0, path@.len() as int) =~= pv);
        let n = normalized_path.len();
        if at_directory_level && n > 0 && normalized_path[n - 1].len() > 0 {
            let ghost before = path_view(normalized_path@);
            normalized_path.push(Vec::new());
            assert(path_view(normalized_path@) =~= before.push(seq![]));
        }
        normalized_path
    }

    /// Remove the `.` and `..` segments of the path, applying them (RFC
    /// 3986, 5.2.4).
    pub fn normalize(&mut self)
        ensures
            final(self)@ == (UriView { path: normalized(old(self)@.path), ..old(self)@ }),
    {
        let path = Self::normalize_path(&self.path);
        self.set_path(path);
    }

    /// The URI that `relative_reference` names when it is read against this
    /// URI as its base (RFC 3986, 5.2.2).
    pub fn resolve(&self, relative_reference: &Uri) -> (r: Uri)
        ensures
            r@ == resolved(self@, relative_reference@),
    {
        let reference = relative_reference;
        let fragment = copy_opt_bytes(&reference.fragment);
        if reference.scheme.is_some() {
            Uri::assemble(
                copy_opt_string(&reference.scheme),
                copy_opt_authority(&reference.authority),
                Self::normalize_path(&reference.path),
                copy_opt_bytes(&reference.query),
                fragment,
            )
        } else if reference.authority.is_some() {
            Uri::assemble(
                copy_opt_string(&self.scheme),
                copy_opt_authority(&reference.authority),
                Self::normalize_path(&reference.path),
                copy_opt_bytes(&reference.query),
                fragment,
            )
        } else if reference.path.len() == 0 {
            let query = if reference.query.is_none() {
                copy_opt_bytes(&self.query)
            } else {
                copy_opt_bytes(&reference.query)
            };
            Uri::assemble(
                copy_opt_string(&self.scheme),
                copy_opt_authority(&self.authority),
                copy_path(&self.path),
                query,
                fragment,
            )
        } else if Self::is_path_absolute(&reference.path) {
            Uri::assemble(
                copy_opt_string(&self.scheme),
                copy_opt_authority(&self.authority),
                copy_path(&reference.path),
                copy_opt_bytes(&reference.query),
                fragment,
            )
        } else {
            let mut path = copy_path(&self.path);
            let ghost base = path_view(path@);
            if (self.authority.is_some() || path.len() > 1) && path.len() > 0 {
                path.pop();
                assert(path_view(path@) =~= base.drop_last());
            }
            let ghost kept = path_view(path@);
            let mut j: usize = 0;
            while j < reference.path.len()
                invariant
                    j <= reference.path@.len(),
                    path_view(path@) == kept + path_view(reference.path@).subrange(0, j as int),
                decreases reference.path@.len() - j,
            {
                let ghost before = path_view(path@);
                let seg = copy_bytes(reference.path[j].as_slice());
                path.push(seg);
                assert(path_view(path@) =~= before.push(reference.path@[j as int]@));
                assert(path_view(reference.path@).subrange(0, j + 1) =~= path_view(
                    reference.path@,
                ).subrange(0, j as int).push(reference.path@[j as int]@));
                j += 1;
            }
            assert(path_view(reference.path@).subrange(0, reference.path@.len() as int)
                =~= path_view(reference.path@));
            Uri::assemble(
                copy_opt_string(&self.scheme),
                copy_opt_authority(&self.authority),
                Self::normalize_path(&path),
                copy_opt_bytes(&reference.query),
                fragment,
            )
        }
    }
}

} // verus!


verus! {

impl crate::foundation_types::Any for Uri {
    open spec fn same_value(&self, other: &Self) -> bool {
        uri_text(self@) == uri_text(other@)
    }

    open spec fn kind_name() -> Seq<char> {
        "Uri"@
    }

    fn is_equal(&self, other: &Self) -> (r: bool) {
        proof {
            use_type_invariant(self);
            use_type_invariant(other);
        }
        self.raw == other.raw
    }

    fn instance_of(&self, name: &str) -> (r: bool) {
        crate::foundation_types::any::str_equal(name, "Uri")
    }

    fn type_of(&self) -> (r: String) {
        String::from_str("Uri")
    }
}


} // verus!
