//! Validation of IPv6 address literals (the text between `[` and `]`), one
//! character at a time.
use super::characters::{is_digit, is_hex_digit};
use super::context::Context;
use super::error::Error;
use super::ipv4_address::{ipv4_validation, validate_ipv4_range};
use crate::text::chars_of;
use vstd::prelude::*;

verus! {

/// The phases of the scan.
#[derive(Clone, Copy, PartialEq, Eq, Structural)]
pub enum Phase {
    NoGroupsYet,
    ColonButNoGroupsYet,
    AfterDoubleColon,
    InGroupNotIpv4,
    InGroupCouldBeIpv4,
    InGroupIpv4,
    ColonAfterGroup,
}

/// Where a scan of an IPv6 address stands: its phase, the groups closed,
/// the digits of the open group, whether `::` was seen, and where a group
/// that may begin an IPv4 tail started.
#[derive(Clone, Copy)]
pub struct Ipv6Scan {
    pub phase: Phase,
    pub num_groups: usize,
    pub num_digits: usize,
    pub double_colon: bool,
    pub ipv4_start: usize,
}

pub open spec fn start_group(p: Ipv6Scan, c: char, i: usize) -> Result<Ipv6Scan, Error> {
    if is_digit(c) {
        Ok(Ipv6Scan { phase: Phase::InGroupCouldBeIpv4, num_digits: 1, ipv4_start: i, ..p })
    } else if is_hex_digit(c) {
        Ok(Ipv6Scan { phase: Phase::InGroupNotIpv4, num_digits: 1, ..p })
    } else {
        Err(Error::IllegalCharacter(Context::Ipv6Address))
    }
}

pub open spec fn second_colon(p: Ipv6Scan) -> Result<Ipv6Scan, Error> {
    if p.double_colon {
        Err(Error::TooManyDoubleColons)
    } else {
        Ok(Ipv6Scan { phase: Phase::AfterDoubleColon, double_colon: true, ..p })
    }
}

pub open spec fn close_group(p: Ipv6Scan) -> Ipv6Scan {
    Ipv6Scan {
        phase: Phase::ColonAfterGroup,
        num_digits: 0,
        num_groups: (p.num_groups + 1) as usize,
        ..p
    }
}

/// The step of the scan on the character `c` at index `i`.
pub open spec fn ipv6_next(p: Ipv6Scan, c: char, i: usize) -> Result<Ipv6Scan, Error> {
    match p.phase {
        Phase::NoGroupsYet => if c == ':' {
            Ok(Ipv6Scan { phase: Phase::ColonButNoGroupsYet, ..p })
        } else {
            start_group(p, c, i)
        },
        Phase::ColonButNoGroupsYet => if c == ':' {
            second_colon(p)
        } else {
            Err(Error::IllegalCharacter(Context::Ipv6Address))
        },
        Phase::AfterDoubleColon => if c == ':' {
            Err(Error::TooManyDoubleColons)
        } else {
            start_group(p, c, i)
        },
        Phase::InGroupNotIpv4 => if c == ':' {
            Ok(close_group(p))
        } else if is_hex_digit(c) {
            if p.num_digits + 1 > 4 {
                Err(Error::TooManyDigits)
            } else {
                Ok(Ipv6Scan { num_digits: (p.num_digits + 1) as usize, ..p })
            }
        } else {
            Err(Error::IllegalCharacter(Context::Ipv6Address))
        },
        Phase::InGroupCouldBeIpv4 => if c == ':' {
            Ok(close_group(p))
        } else if c == '.' {
            Ok(Ipv6Scan { phase: Phase::InGroupIpv4, ..p })
        } else if is_hex_digit(c) {
            if p.num_digits + 1 > 4 {
                Err(Error::TooManyDigits)
            } else if is_digit(c) {
                Ok(Ipv6Scan { num_digits: (p.num_digits + 1) as usize, ..p })
            } else {
                Ok(
                    Ipv6Scan {
                        phase: Phase::InGroupNotIpv4,
                        num_digits: (p.num_digits + 1) as usize,
                        ..p
                    },
                )
            }
        } else {
            Err(Error::IllegalCharacter(Context::Ipv6Address))
        },
        Phase::InGroupIpv4 => Ok(p),
        Phase::ColonAfterGroup => if c == ':' {
            second_colon(p)
        } else {
            start_group(p, c, i)
        },
    }
}

pub open spec fn ipv6_initial() -> Ipv6Scan {
    Ipv6Scan {
        phase: Phase::NoGroupsYet,
        num_groups: 0,
        num_digits: 0,
        double_colon: false,
        ipv4_start: 0,
    }
}

/// The scan over all of `s`, stopping at the first error.
pub open spec fn ipv6_scan(s: Seq<char>) -> Result<Ipv6Scan, Error>
    decreases s.len(),
{
    if s.len() == 0 {
        Ok(ipv6_initial())
    } else {
        match ipv6_scan(s.drop_last()) {
            Ok(p) => ipv6_next(p, s.last(), (s.len() - 1) as usize),
            Err(e) => Err(e),
        }
    }
}

/// The count of groups once an address is complete: an eight-group address,
/// or fewer with one `::`.
pub open spec fn ipv6_count(groups: int, double_colon: bool) -> Result<(), Error> {
    if double_colon {
        if groups > 7 {
            Err(Error::TooManyAddressParts)
        } else {
            Ok(())
        }
    } else if groups < 8 {
        Err(Error::TooFewAddressParts)
    } else if groups > 8 {
        Err(Error::TooManyAddressParts)
    } else {
        Ok(())
    }
}

/// The verdict at the end of the input `s`.
pub open spec fn ipv6_finish(s: Seq<char>, p: Ipv6Scan) -> Result<(), Error> {
    match p.phase {
        Phase::InGroupNotIpv4 | Phase::InGroupCouldBeIpv4 => ipv6_count(
            p.num_groups + 1,
            p.double_colon,
        ),
        Phase::InGroupIpv4 => match ipv4_validation(s.subrange(p.ipv4_start as int, s.len() as int)) {
            Ok(_) => ipv6_count(p.num_groups + 2, p.double_colon),
            Err(e) => Err(e),
        },
        Phase::ColonButNoGroupsYet | Phase::ColonAfterGroup => Err(Error::TruncatedHost),
        Phase::NoGroupsYet => Err(Error::TooFewAddressParts),
        Phase::AfterDoubleColon => ipv6_count(p.num_groups as int, p.double_colon),
    }
}

/// The verdict on `s` as an IPv6 address.
pub open spec fn ipv6_validation(s: Seq<char>) -> Result<(), Error> {
    match ipv6_scan(s) {
        Ok(p) => ipv6_finish(s, p),
        Err(e) => Err(e),
    }
}

impl Ipv6Scan {
    pub open spec fn bounded(self, i: int) -> bool {
        self.num_groups <= i && self.num_digits <= 4 && self.ipv4_start <= i
    }

    fn start_group(self, c: char, i: usize) -> (r: Result<Ipv6Scan, Error>)
        ensures
            r == start_group(self, c, i),
    {
        if '0' <= c && c <= '9' {
            Ok(Ipv6Scan { phase: Phase::InGroupCouldBeIpv4, num_digits: 1, ipv4_start: i, ..self })
        } else if ('a' <= c && c <= 'f') || ('A' <= c && c <= 'F') {
            Ok(Ipv6Scan { phase: Phase::InGroupNotIpv4, num_digits: 1, ..self })
        } else {
            Err(Error::IllegalCharacter(Context::Ipv6Address))
        }
    }

    fn second_colon(self) -> (r: Result<Ipv6Scan, Error>)
        ensures
            r == second_colon(self),
    {
        if self.double_colon {
            Err(Error::TooManyDoubleColons)
        } else {
            Ok(Ipv6Scan { phase: Phase::AfterDoubleColon, double_colon: true, ..self })
        }
    }

    fn next(self, c: char, i: usize) -> (r: Result<Ipv6Scan, Error>)
        requires
            self.bounded(i as int),
            i < usize::MAX,
        ensures
            r == ipv6_next(self, c, i),
            r matches Ok(p) ==> p.bounded(i + 1),
    {
        let hex = ('0' <= c && c <= '9') || ('a' <= c && c <= 'f') || ('A' <= c && c <= 'F');
        match self.phase {
            Phase::NoGroupsYet => if c == ':' {
                Ok(Ipv6Scan { phase: Phase::ColonButNoGroupsYet, ..self })
            } else {
                self.start_group(c, i)
            },
            Phase::ColonButNoGroupsYet => if c == ':' {
                self.second_colon()
            } else {
                Err(Error::IllegalCharacter(Context::Ipv6Address))
            },
            Phase::AfterDoubleColon => if c == ':' {
                Err(Error::TooManyDoubleColons)
            } else {
                self.start_group(c, i)
            },
            Phase::InGroupNotIpv4 => if c == ':' {
                Ok(
                    Ipv6Scan {
                        phase: Phase::ColonAfterGroup,
                        num_digits: 0,
                        num_groups: self.num_groups + 1,
                        ..self
                    },
                )
            } else if hex {
                if self.num_digits + 1 > 4 {
                    Err(Error::TooManyDigits)
                } else {
                    Ok(Ipv6Scan { num_digits: self.num_digits + 1, ..self })
                }
            } else {
                Err(Error::IllegalCharacter(Context::Ipv6Address))
            },
            Phase::InGroupCouldBeIpv4 => if c == ':' {
                Ok(
                    Ipv6Scan {
                        phase: Phase::ColonAfterGroup,
                        num_digits: 0,
                        num_groups: self.num_groups + 1,
                        ..self
                    },
                )
            } else if c == '.' {
                Ok(Ipv6Scan { phase: Phase::InGroupIpv4, ..self })
            } else if hex {
                if self.num_digits + 1 > 4 {
                    Err(Error::TooManyDigits)
                } else if '0' <= c && c <= '9' {
                    Ok(Ipv6Scan { num_digits: self.num_digits + 1, ..self })
                } else {
                    Ok(
                        Ipv6Scan {
                            phase: Phase::InGroupNotIpv4,
                            num_digits: self.num_digits + 1,
                            ..self
                        },
                    )
                }
            } else {
                Err(Error::IllegalCharacter(Context::Ipv6Address))
            },
            Phase::InGroupIpv4 => Ok(self),
            Phase::ColonAfterGroup => if c == ':' {
                self.second_colon()
            } else {
                self.start_group(c, i)
            },
        }
    }
}

fn count_groups(groups: usize, double_colon: bool) -> (r: Result<(), Error>)
    ensures
        r == ipv6_count(groups as int, double_colon),
{
    if double_colon {
        if groups > 7 {
            Err(Error::TooManyAddressParts)
        } else {
            Ok(())
        }
    } else if groups < 8 {
        Err(Error::TooFewAddressParts)
    } else if groups > 8 {
        Err(Error::TooManyAddressParts)
    } else {
        Ok(())
    }
}

/// Once the scan of a prefix fails, the scan of the whole fails the same way.
proof fn lemma_scan_error_sticks(s: Seq<char>, n: int)
    requires
        0 <= n <= s.len(),
        ipv6_scan(s.subrange(0, n)) is Err,
    ensures
        ipv6_scan(s) == ipv6_scan(s.subrange(0, n)),
    decreases s.len() - n,
{
    if n == s.len() {
        assert(s.subrange(0, n) =~= s);
    } else {
        let p = s.subrange(0, n + 1);
        assert(p.drop_last() =~= s.subrange(0, n));
        lemma_scan_error_sticks(s, n + 1);
    }
}

/// Checks that the characters `s` form an IPv6 address.
pub fn validate_ipv6_chars(s: &Vec<char>) -> (r: Result<(), Error>)
    ensures
        r == ipv6_validation(s@),
{
    let mut p = Ipv6Scan {
        phase: Phase::NoGroupsYet,
        num_groups: 0,
        num_digits: 0,
        double_colon: false,
        ipv4_start: 0,
    };
    let mut i: usize = 0;
    while i < s.len()
        invariant
            i <= s@.len(),
            p.bounded(i as int),
            ipv6_scan(s@.subrange(0, i as int)) == Ok::<Ipv6Scan, Error>(p),
        decreases s@.len() - i,
    {
        let c = s[i];
        let ghost q = s@.subrange(0, i + 1);
        proof {
            assert(q.drop_last() =~= s@.subrange(0, i as int));
            assert(q.last() == c);
        }
        match p.next(c, i) {
            Ok(next) => {
                p = next;
            },
            Err(e) => {
                proof {
                    assert(s@.subrange(0, (i + 1) as int) == q);
                    lemma_scan_error_sticks(s@, i + 1);
                }
                return Err(e);
            },
        }
        i += 1;
    }
    assert(s@.subrange(0, s@.len() as int) =~= s@);
    match p.phase {
        Phase::InGroupNotIpv4 | Phase::InGroupCouldBeIpv4 => {
            if p.num_groups > 8 {
                Err(Error::TooManyAddressParts)
            } else {
                count_groups(p.num_groups + 1, p.double_colon)
            }
        },
        Phase::InGroupIpv4 => match validate_ipv4_range(s, p.ipv4_start, s.len()) {
            Ok(_) => {
                if p.num_groups > 8 {
                    Err(Error::TooManyAddressParts)
                } else {
                    count_groups(p.num_groups + 2, p.double_colon)
                }
            },
            Err(e) => Err(e),
        },
        Phase::ColonButNoGroupsYet | Phase::ColonAfterGroup => Err(Error::TruncatedHost),
        Phase::NoGroupsYet => Err(Error::TooFewAddressParts),
        Phase::AfterDoubleColon => count_groups(p.num_groups, p.double_colon),
    }
}

/// Checks that `address` is an IPv6 address: colon-separated groups of at
/// most four hex digits, eight of them or fewer with one `::`, of which the
/// last two may be written as an IPv4 address.
pub fn validate_ipv6_address(address: &str) -> (r: Result<(), Error>)
    ensures
        r == ipv6_validation(address@),
{
    let s = chars_of(address);
    validate_ipv6_chars(&s)
}

} // verus!
