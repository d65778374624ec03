//! Properties of URI paths: normalization is idempotent, and paths survive
//! being written out and parsed again.
use super::authority::AuthorityView;
use super::characters::{self, CharSet};
use super::codec::{self, encoded};
use super::context::Context;
use super::error::Error;
use super::{
    authority_and_path, can_go_up, fragment_outcome, is_dot, is_dot_dot, joined,
    norm_state, normalized, path_outcome, path_text, scheme_outcome, segments_outcome, uri_outcome,
    uri_text, UriView,
};
use crate::text::{find_either, lemma_find_either_bounds};
use vstd::prelude::*;

verus! {

/// A path in normal form: no `.` or `..` segment, and no two empty
/// segments in a row.
pub open spec fn is_normal(p: Seq<Seq<u8>>) -> bool {
    &&& forall|i: int| 0 <= i < p.len() ==> !is_dot(#[trigger] p[i]) && !is_dot_dot(p[i])
    &&& forall|i: int|
        0 <= i < p.len() - 1 ==> !(#[trigger] p[i].len() == 0 && p[i + 1].len() == 0)
}

proof fn lemma_norm_state_normal(p: Seq<Seq<u8>>)
    ensures
        is_normal(norm_state(p).0),
        !norm_state(p).1 ==> (norm_state(p).0.len() == 0 || norm_state(p).0.last().len() > 0),
    decreases p.len(),
{
    if p.len() > 0 {
        lemma_norm_state_normal(p.drop_last());
        let (out, at_dir) = norm_state(p.drop_last());
        let seg = p.last();
        if is_dot(seg) {
        } else if is_dot_dot(seg) {
            if can_go_up(out) {
                let d = out.drop_last();
                assert forall|i: int| 0 <= i < d.len() - 1 implies !(#[trigger] d[i].len() == 0
                    && d[i + 1].len() == 0) by {
                    assert(d[i] == out[i] && d[i + 1] == out[i + 1]);
                }
            }
        } else if !at_dir || seg.len() > 0 {
            let n = out.push(seg);
            assert forall|i: int| 0 <= i < n.len() - 1 implies !(#[trigger] n[i].len() == 0 && n[i
                + 1].len() == 0) by {
                if i + 1 == n.len() - 1 {
                    assert(n[i] == out.last());
                } else {
                    assert(n[i] == out[i] && n[i + 1] == out[i + 1]);
                }
            }
            assert forall|i: int| 0 <= i < n.len() implies !is_dot(#[trigger] n[i]) && !is_dot_dot(
                n[i],
            ) by {
                if i < out.len() {
                    assert(n[i] == out[i]);
                }
            }
        }
    }
}

proof fn lemma_norm_state_of_normal(q: Seq<Seq<u8>>)
    requires
        is_normal(q),
    ensures
        norm_state(q) == (q, q.len() > 0 && q.last().len() == 0),
    decreases q.len(),
{
    if q.len() > 0 {
        let d = q.drop_last();
        assert forall|i: int| 0 <= i < d.len() - 1 implies !(#[trigger] d[i].len() == 0 && d[i
            + 1].len() == 0) by {
            assert(d[i] == q[i] && d[i + 1] == q[i + 1]);
        }
        assert forall|i: int| 0 <= i < d.len() implies !is_dot(#[trigger] d[i]) && !is_dot_dot(
            d[i],
        ) by {
            assert(d[i] == q[i]);
        }
        lemma_norm_state_of_normal(d);
        let seg = q.last();
        assert(!is_dot(q[q.len() - 1]) && !is_dot_dot(q[q.len() - 1]));
        if d.len() > 0 {
            assert(!(q[d.len() - 1].len() == 0 && q[d.len() as int].len() == 0));
            assert(d.last() == q[d.len() - 1]);
        }
        assert(d.push(seg) =~= q);
    }
}

/// Normalizing a path twice gives what normalizing it once gives.
pub proof fn lemma_normalize_idempotent(p: Seq<Seq<u8>>)
    ensures
        normalized(normalized(p)) == normalized(p),
{
    lemma_norm_state_normal(p);
    let (out, at_dir) = norm_state(p);
    let q = normalized(p);
    if at_dir && out.len() > 0 && out.last().len() > 0 {
        let e = Seq::<u8>::empty();
        assert(q == out.push(e));
        assert forall|i: int| 0 <= i < q.len() - 1 implies !(#[trigger] q[i].len() == 0 && q[i
            + 1].len() == 0) by {
            if i + 1 == q.len() - 1 {
                assert(q[i] == out.last());
            } else {
                assert(q[i] == out[i] && q[i + 1] == out[i + 1]);
            }
        }
        assert forall|i: int| 0 <= i < q.len() implies !is_dot(#[trigger] q[i]) && !is_dot_dot(
            q[i],
        ) by {
            if i < out.len() {
                assert(q[i] == out[i]);
            }
        }
    }
    lemma_norm_state_of_normal(q);
}

} // verus!

verus! {

/// Whether a byte sequence holds no `:`.
pub open spec fn no_colon(b: Seq<u8>) -> bool {
    forall|j: int| 0 <= j < b.len() ==> b[j] != 58u8
}

proof fn lemma_encoded_path_chars(b: Seq<u8>)
    ensures
        forall|j: int|
            0 <= j < encoded(b, CharSet::PathChar).len() ==> {
                let c = #[trigger] encoded(b, CharSet::PathChar)[j];
                &&& c != '/'
                &&& c != '?'
                &&& c != '#'
                &&& no_colon(b) ==> c != ':'
            },
        encoded(b, CharSet::PathChar).len() >= b.len(),
    decreases b.len(),
{
    if b.len() > 0 {
        lemma_encoded_path_chars(b.skip(1));
        let x = b[0];
        let piece = codec::encode_byte(x, CharSet::PathChar);
        let rest = encoded(b.skip(1), CharSet::PathChar);
        let e = encoded(b, CharSet::PathChar);
        assert(e == piece + rest);
        if !(x < 128 && CharSet::PathChar.has(x as char)) {
            characters::lemma_hex_char(x / 16);
            characters::lemma_hex_char(x % 16);
        }
        assert(no_colon(b) ==> no_colon(b.skip(1))) by {
            if no_colon(b) {
                assert forall|j: int| 0 <= j < b.skip(1).len() implies b.skip(1)[j] != 58u8 by {
                    assert(b.skip(1)[j] == b[j + 1]);
                }
            }
        }
        assert(no_colon(b) ==> x != 58u8);
        assert forall|j: int| 0 <= j < e.len() implies {
            let c = #[trigger] e[j];
            &&& c != '/'
            &&& c != '?'
            &&& c != '#'
            &&& no_colon(b) ==> c != ':'
        } by {
            if j >= piece.len() {
                assert(e[j] == rest[j - piece.len()]);
            }
        }
    }
}

proof fn lemma_joined_chars(p: Seq<Seq<u8>>)
    ensures
        forall|j: int| 0 <= j < joined(p).len() ==> #[trigger] joined(p)[j] != '?' && joined(p)[j] != '#',
    decreases p.len(),
{
    if p.len() == 1 {
        lemma_encoded_path_chars(p[0]);
    } else if p.len() > 1 {
        lemma_joined_chars(p.drop_last());
        lemma_encoded_path_chars(p.last());
        let a = joined(p.drop_last());
        let e = encoded(p.last(), CharSet::PathChar);
        assert(joined(p) == a + seq!['/'] + e);
        assert forall|j: int| 0 <= j < joined(p).len() implies #[trigger] joined(p)[j] != '?'
            && joined(p)[j] != '#' by {
            if j < a.len() {
                assert(joined(p)[j] == a[j]);
            } else if j > a.len() {
                assert(joined(p)[j] == e[j - a.len() - 1]);
            }
        }
    }
}

proof fn lemma_find_at_least(s: Seq<char>, a: char, b: char, i: int, m: int)
    requires
        0 <= i,
        0 <= m,
        i + m <= s.len(),
        forall|j: int| i <= j < i + m ==> s[j] != a && s[j] != b,
    ensures
        find_either(s, a, b, i) >= i + m,
    decreases m,
{
    if m > 0 {
        lemma_find_at_least(s, a, b, i + 1, m - 1);
    } else {
        lemma_find_either_bounds(s, a, b, i);
    }
}

proof fn lemma_find_after_run(s: Seq<char>, c: char, i: int, m: int)
    requires
        0 <= i,
        0 <= m,
        i + m <= s.len(),
        forall|j: int| i <= j < i + m ==> s[j] != c,
        i + m == s.len() || s[i + m] == c,
    ensures
        find_either(s, c, c, i) == i + m,
    decreases m,
{
    if m > 0 {
        lemma_find_after_run(s, c, i + 1, m - 1);
    }
}

proof fn lemma_joined_front(p: Seq<Seq<u8>>)
    requires
        p.len() >= 2,
    ensures
        joined(p) == encoded(p[0], CharSet::PathChar) + seq!['/'] + joined(p.skip(1)),
    decreases p.len(),
{
    if p.len() == 2 {
        assert(p.drop_last().len() == 1);
        assert(p.skip(1).len() == 1);
        assert(joined(p.skip(1)) == encoded(p[1], CharSet::PathChar));
        assert(joined(p.drop_last()) == encoded(p[0], CharSet::PathChar));
    } else {
        lemma_joined_front(p.drop_last());
        assert(p.skip(1).drop_last() =~= p.drop_last().skip(1));
        assert(p.skip(1).last() == p.last());
        assert(joined(p) =~= encoded(p[0], CharSet::PathChar) + seq!['/'] + joined(p.skip(1)));
    }
}

proof fn lemma_joined_len(p: Seq<Seq<u8>>)
    requires
        p.len() >= 1,
    ensures
        joined(p).len() >= p.len() - 1,
    decreases p.len(),
{
    if p.len() > 1 {
        lemma_joined_len(p.drop_last());
    }
}

proof fn lemma_segments_of_joined(s: Seq<char>, i: int, p: Seq<Seq<u8>>)
    requires
        p.len() >= 1,
        0 <= i <= s.len(),
        s.subrange(i, s.len() as int) == joined(p),
    ensures
        segments_outcome(s, i) == Ok::<Seq<Seq<u8>>, Error>(p),
    decreases p.len(),
{
    let e = encoded(p[0], CharSet::PathChar);
    lemma_encoded_path_chars(p[0]);
    codec::lemma_decode_encode(p[0], CharSet::PathChar, Context::Path);
    let m = e.len() as int;
    if p.len() == 1 {
        assert(joined(p) == e);
        assert forall|j: int| i <= j < i + m implies s[j] != '/' by {
            assert(s[j] == s.subrange(i, s.len() as int)[j - i]);
        }
        lemma_find_after_run(s, '/', i, m);
        assert(s.subrange(i, i + m) =~= e);
        assert(seq![p[0]] =~= p);
    } else {
        lemma_joined_front(p);
        let t = s.subrange(i, s.len() as int);
        assert(t =~= e + seq!['/'] + joined(p.skip(1)));
        assert forall|j: int| i <= j < i + m implies s[j] != '/' by {
            assert(s[j] == t[j - i]);
            assert(t[j - i] == e[j - i]);
        }
        assert(s[i + m] == t[m]);
        lemma_find_after_run(s, '/', i, m);
        assert(s.subrange(i, i + m) =~= e);
        assert(t.subrange(m + 1, t.len() as int) =~= joined(p.skip(1)));
        assert(s.subrange(i + m + 1, s.len() as int) =~= t.subrange(m + 1, t.len() as int));
        lemma_segments_of_joined(s, i + m + 1, p.skip(1));
        assert(seq![p[0]] + p.skip(1) =~= p);
    }
}

/// Writing a path and parsing it back gives the same segments, for every
/// path but two empty segments, which is written `/` like the path of one
/// empty segment.
pub proof fn lemma_path_round_trip(p: Seq<Seq<u8>>)
    requires
        !(p.len() == 2 && p[0].len() == 0 && p[1].len() == 0),
    ensures
        path_outcome(path_text(p)) == Ok::<Seq<Seq<u8>>, Error>(p),
{
    let t = path_text(p);
    if p.len() == 0 {
        assert(t =~= Seq::<char>::empty());
        assert(p =~= Seq::<Seq<u8>>::empty());
        if t =~= seq!['/'] {
            assert(t.len() == 1);
        }
    } else if p.len() == 1 && p[0].len() == 0 {
        assert(p[0] =~= Seq::<u8>::empty());
        assert(t =~= seq!['/']);
        assert(p =~= seq![Seq::<u8>::empty()]);
    } else {
        assert(t =~= joined(p));
        lemma_encoded_path_chars(p[0]);
        if p.len() == 1 {
            assert(t == encoded(p[0], CharSet::PathChar));
            assert(t.len() > 0);
            if t =~= seq!['/'] {
                assert(t[0] == '/');
            }
        } else {
            lemma_joined_front(p);
            lemma_joined_len(p.skip(1));
            let e = encoded(p[0], CharSet::PathChar);
            if p.len() == 2 {
                lemma_encoded_path_chars(p[1]);
                assert(joined(p.skip(1)) == encoded(p[1], CharSet::PathChar));
            }
            assert(t.len() >= 2);
        }
        assert(!(t =~= seq!['/']));
        assert(t.subrange(0, t.len() as int) =~= t);
        lemma_segments_of_joined(t, 0, p);
    }
}


/// A URI of a path alone, written out and parsed again, gives the same
/// URI: for every path but one that starts with two empty segments (which
/// would be read as an authority) or whose first segment holds a `:` (which
/// would be read as a scheme).
pub proof fn lemma_uri_path_round_trip(p: Seq<Seq<u8>>)
    requires
        !(p.len() >= 2 && p[0].len() == 0 && p[1].len() == 0),
        p.len() > 0 ==> no_colon(p[0]),
    ensures
        uri_outcome(
            uri_text(UriView { scheme: None, authority: None, path: p, query: None, fragment: None }),
        ) == Ok::<UriView, Error>(
            UriView { scheme: None, authority: None, path: p, query: None, fragment: None },
        ),
{
    let u = UriView { scheme: None, authority: None, path: p, query: None, fragment: None };
    let t = uri_text(u);
    assert(t =~= path_text(p));
    lemma_joined_chars(p);
    assert forall|j: int| 0 <= j < t.len() implies t[j] != '?' && t[j] != '#' by {
        if p.len() == 1 && p[0].len() == 0 {
            assert(t =~= seq!['/'] + joined(p));
            if j > 0 {
                assert(t[j] == joined(p)[j - 1]);
            }
        } else {
            assert(t =~= joined(p));
        }
    }
    lemma_find_at_least(t, '#', '#', 0, t.len() as int);
    lemma_find_at_least(t, '?', '#', 0, t.len() as int);
    lemma_find_either_bounds(t, '/', '?', 0);
    lemma_find_either_bounds(t, ':', ':', 0);
    lemma_find_either_bounds(t, '#', '#', 0);
    lemma_find_either_bounds(t, '?', '#', 0);
    if p.len() == 0 {
        assert(t.len() == 0);
    } else if p.len() == 1 && p[0].len() == 0 {
    } else {
        assert(t =~= joined(p));
        let e0 = encoded(p[0], CharSet::PathChar);
        lemma_encoded_path_chars(p[0]);
        if p.len() == 1 {
            assert(t == e0);
        } else {
            lemma_joined_front(p);
            assert(t == e0 + seq!['/'] + joined(p.skip(1)));
            assert(t[e0.len() as int] == '/');
            if p[0].len() == 0 {
                let rest = p.skip(1);
                lemma_encoded_path_chars(rest[0]);
                if rest.len() >= 2 {
                    lemma_joined_front(rest);
                }
                assert(rest[0].len() > 0);
                assert(joined(rest)[0] == encoded(rest[0], CharSet::PathChar)[0]);
                assert(t[1] == joined(rest)[0]);
            }
        }
        assert forall|j: int| 0 <= j < e0.len() implies t[j] != ':' && t[j] != '/' && t[j] != '?' by {
            assert(t[j] == e0[j]);
        }
        lemma_find_at_least(t, ':', ':', 0, e0.len() as int);
        lemma_find_at_least(t, '/', '?', 0, e0.len() as int);
    }
    assert(scheme_outcome(t) == Ok::<(Option<Seq<char>>, Seq<char>), Error>((None, t)));
    assert(t.subrange(0, t.len() as int) =~= t);
    lemma_path_round_trip(p);
    assert(authority_and_path(t) == Ok::<(Option<AuthorityView>, Seq<Seq<u8>>), Error>((None, p)));
    let tail = t.subrange(t.len() as int, t.len() as int);
    assert(tail.len() == 0);
    assert(fragment_outcome(tail) == Ok::<(Option<Seq<u8>>, Seq<char>), Error>((None, tail)));
}

} // verus!
