//! Validation of dotted-decimal IPv4 addresses, one character at a time.
use super::characters::{all_digits, decimal_value, fits_in_octet, is_digit};
use super::context::Context;
use super::error::Error;
use crate::text::chars_of;
use vstd::prelude::*;

verus! {

/// Where a scan of an IPv4 address stands: whether it is inside a group,
/// how many groups it has closed, and the digits of the open group.
pub struct Ipv4Progress {
    pub in_octet: bool,
    pub groups: nat,
    pub digits: Seq<char>,
}

/// The step of the scan on one character.
pub open spec fn ipv4_next(p: Ipv4Progress, c: char) -> Result<Ipv4Progress, Error> {
    if !p.in_octet {
        if is_digit(c) {
            Ok(Ipv4Progress { in_octet: true, groups: p.groups, digits: p.digits.push(c) })
        } else {
            Err(Error::IllegalCharacter(Context::Ipv4Address))
        }
    } else if c == '.' {
        if p.groups + 1 > 4 {
            Err(Error::TooManyAddressParts)
        } else if decimal_value(p.digits) > 255 {
            Err(Error::InvalidDecimalOctet)
        } else {
            Ok(Ipv4Progress { in_octet: false, groups: p.groups + 1, digits: seq![] })
        }
    } else if is_digit(c) {
        Ok(Ipv4Progress { in_octet: true, groups: p.groups, digits: p.digits.push(c) })
    } else {
        Err(Error::IllegalCharacter(Context::Ipv4Address))
    }
}

/// The verdict at the end of the input.
pub open spec fn ipv4_finish(p: Ipv4Progress) -> Result<(), Error> {
    if !p.in_octet {
        Err(Error::TruncatedHost)
    } else {
        let groups = if p.digits.len() > 0 { p.groups + 1 } else { p.groups };
        if p.digits.len() > 0 && decimal_value(p.digits) > 255 {
            Err(Error::InvalidDecimalOctet)
        } else if groups == 4 {
            Ok(())
        } else if groups < 4 {
            Err(Error::TooFewAddressParts)
        } else {
            Err(Error::TooManyAddressParts)
        }
    }
}

/// The scan over all of `s`, stopping at the first error.
pub open spec fn ipv4_scan(s: Seq<char>) -> Result<Ipv4Progress, Error>
    decreases s.len(),
{
    if s.len() == 0 {
        Ok(Ipv4Progress { in_octet: false, groups: 0, digits: seq![] })
    } else {
        match ipv4_scan(s.drop_last()) {
            Ok(p) => ipv4_next(p, s.last()),
            Err(e) => Err(e),
        }
    }
}

/// The verdict on `s` as an IPv4 address.
pub open spec fn ipv4_validation(s: Seq<char>) -> Result<(), Error> {
    match ipv4_scan(s) {
        Ok(p) => ipv4_finish(p),
        Err(e) => Err(e),
    }
}

struct Shared {
    num_groups: usize,
    octet_buffer: Vec<char>,
}

enum State {
    NotInOctet(Shared),
    ExpectDigitOrDot(Shared),
}

impl Shared {
    spec fn wf(&self) -> bool {
        self.num_groups <= 4 && all_digits(self.octet_buffer@)
    }
}

impl State {
    spec fn view(&self) -> Ipv4Progress {
        match self {
            State::NotInOctet(s) => Ipv4Progress {
                in_octet: false,
                groups: s.num_groups as nat,
                digits: s.octet_buffer@,
            },
            State::ExpectDigitOrDot(s) => Ipv4Progress {
                in_octet: true,
                groups: s.num_groups as nat,
                digits: s.octet_buffer@,
            },
        }
    }

    spec fn wf(&self) -> bool {
        match self {
            State::NotInOctet(s) => s.wf() && s.octet_buffer@.len() == 0,
            State::ExpectDigitOrDot(s) => s.wf(),
        }
    }

    fn finalize(self) -> (r: Result<(), Error>)
        requires
            self.wf(),
        ensures
            r == ipv4_finish(self.view()),
    {
        match self {
            Self::NotInOctet(_) => Err(Error::TruncatedHost),
            Self::ExpectDigitOrDot(state) => Self::finalize_expect_digit_or_dot(state),
        }
    }

    fn finalize_expect_digit_or_dot(state: Shared) -> (r: Result<(), Error>)
        requires
            state.wf(),
        ensures
            r == ipv4_finish(State::ExpectDigitOrDot(state).view()),
    {
        let mut state = state;
        if state.octet_buffer.len() > 0 {
            state.num_groups += 1;
            if !fits_in_octet(&state.octet_buffer) {
                return Err(Error::InvalidDecimalOctet);
            }
        }
        if state.num_groups == 4 {
            Ok(())
        } else if state.num_groups < 4 {
            Err(Error::TooFewAddressParts)
        } else {
            Err(Error::TooManyAddressParts)
        }
    }

    fn new() -> (r: Self)
        ensures
            r.wf(),
            r.view() == (Ipv4Progress { in_octet: false, groups: 0, digits: seq![] }),
    {
        Self::NotInOctet(Shared { num_groups: 0, octet_buffer: Vec::new() })
    }

    fn next(self, c: char) -> (r: Result<Self, Error>)
        requires
            self.wf(),
        ensures
            match r {
                Ok(s) => s.wf() && ipv4_next(self.view(), c) == Ok::<Ipv4Progress, Error>(s.view()),
                Err(e) => ipv4_next(self.view(), c) == Err::<Ipv4Progress, Error>(e),
            },
    {
        match self {
            Self::NotInOctet(state) => Self::next_not_in_octet(state, c),
            Self::ExpectDigitOrDot(state) => Self::next_expect_digit_or_dot(state, c),
        }
    }

    fn next_not_in_octet(state: Shared, c: char) -> (r: Result<Self, Error>)
        requires
            state.wf(),
            state.octet_buffer@.len() == 0,
        ensures
            match r {
                Ok(s) => s.wf() && ipv4_next(State::NotInOctet(state).view(), c) == Ok::<
                    Ipv4Progress,
                    Error,
                >(s.view()),
                Err(e) => ipv4_next(State::NotInOctet(state).view(), c) == Err::<
                    Ipv4Progress,
                    Error,
                >(e),
            },
    {
        let mut state = state;
        if '0' <= c && c <= '9' {
            state.octet_buffer.push(c);
            Ok(Self::ExpectDigitOrDot(state))
        } else {
            Err(Error::IllegalCharacter(Context::Ipv4Address))
        }
    }

    fn next_expect_digit_or_dot(state: Shared, c: char) -> (r: Result<Self, Error>)
        requires
            state.wf(),
        ensures
            match r {
                Ok(s) => s.wf() && ipv4_next(State::ExpectDigitOrDot(state).view(), c) == Ok::<
                    Ipv4Progress,
                    Error,
                >(s.view()),
                Err(e) => ipv4_next(State::ExpectDigitOrDot(state).view(), c) == Err::<
                    Ipv4Progress,
                    Error,
                >(e),
            },
    {
        let mut state = state;
        if c == '.' {
            state.num_groups += 1;
            if state.num_groups > 4 {
                return Err(Error::TooManyAddressParts);
            }
            if !fits_in_octet(&state.octet_buffer) {
                return Err(Error::InvalidDecimalOctet);
            }
            state.octet_buffer.clear();
            Ok(Self::NotInOctet(state))
        } else if '0' <= c && c <= '9' {
            state.octet_buffer.push(c);
            Ok(Self::ExpectDigitOrDot(state))
        } else {
            Err(Error::IllegalCharacter(Context::Ipv4Address))
        }
    }
}

/// Checks that the characters `s[start..end]` form an IPv4 address.
pub fn validate_ipv4_range(s: &Vec<char>, start: usize, end: usize) -> (r: Result<(), Error>)
    requires
        start <= end <= s@.len(),
    ensures
        r == ipv4_validation(s@.subrange(start as int, end as int)),
{
    let mut state = State::new();
    let mut i = start;
    while i < end
        invariant
            start <= i <= end <= s@.len(),
            state.wf(),
            ipv4_scan(s@.subrange(start as int, i as int)) == Ok::<Ipv4Progress, Error>(
                state.view(),
            ),
        decreases end - i,
    {
        let c = s[i];
        proof {
            let p = s@.subrange(start as int, i + 1);
            assert(p.drop_last() =~= s@.subrange(start as int, i as int));
            assert(p.last() == c);
        }
        match state.next(c) {
            Ok(next) => {
                state = next;
            },
            Err(e) => {
                proof {
                    let whole = s@.subrange(start as int, end as int);
                    let p = s@.subrange(start as int, i + 1);
                    assert(p.drop_last() =~= s@.subrange(start as int, i as int));
                    assert(ipv4_scan(p) == Err::<Ipv4Progress, Error>(e));
                    assert(whole.subrange(0, (i + 1 - start) as int) =~= p);
                    lemma_scan_error_sticks(whole, (i + 1 - start) as int);
                }
                return Err(e);
            },
        }
        i += 1;
    }
    state.finalize()
}

/// Once the scan of a prefix fails, the scan of the whole fails the same way.
proof fn lemma_scan_error_sticks(s: Seq<char>, n: int)
    requires
        0 <= n <= s.len(),
        ipv4_scan(s.subrange(0, n)) is Err,
    ensures
        ipv4_scan(s) == ipv4_scan(s.subrange(0, n)),
    decreases s.len() - n,
{
    if n == s.len() {
        assert(s.subrange(0, n) =~= s);
    } else {
        let p = s.subrange(0, n + 1);
        assert(p.drop_last() =~= s.subrange(0, n));
        lemma_scan_error_sticks(s, n + 1);
    }
}

/// Checks that `address` is a dotted-decimal IPv4 address: four groups of
/// decimal digits, each at most 255, joined by dots.
pub fn validate_ipv4_address(address: &str) -> (r: Result<(), Error>)
    ensures
        r == ipv4_validation(address@),
{
    let s = chars_of(address);
    assert(s@.subrange(0, s@.len() as int) =~= s@);
    validate_ipv4_range(&s, 0, s.len())
}

} // verus!
