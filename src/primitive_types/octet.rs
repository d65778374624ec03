//! A byte value.
use super::any::Any;
use std::cmp::Ordering;
use vstd::prelude::*;

verus! {

/// A byte value.
#[derive(Debug, Clone, Copy, PartialEq, Eq, Structural)]
pub struct Octet {
    value: u8,
}

impl Octet {
    /// An octet holding `value`.
    pub fn new(value: u8) -> (r: Self)
        ensures
            r.value() == value,
    {
        Octet { value }
    }

    /// The byte held.
    pub closed spec fn value(&self) -> u8 {
        self.value
    }

    /// The value in decimal.
    pub fn to_string(&self) -> (r: String)
        ensures
            r@ == crate::text::signed_decimal_text(self.value() as int),
    {
        crate::text::signed_decimal(self.value as i64)
    }
}

impl Any for Octet {
    open spec fn same_value(&self, other: &Self) -> bool {
        self.value() == other.value()
    }

    fn is_equal(&self, other: &Self) -> (r: bool) {
        self.value == other.value
    }
}

impl PartialOrd for Octet {
    fn partial_cmp(&self, other: &Self) -> (r: Option<Ordering>) {
        if self.value < other.value {
            Some(Ordering::Less)
        } else if self.value == other.value {
            Some(Ordering::Equal)
        } else {
            Some(Ordering::Greater)
        }
    }
}

impl vstd::std_specs::cmp::PartialOrdSpecImpl for Octet {
    open spec fn obeys_partial_cmp_spec() -> bool {
        true
    }

    open spec fn partial_cmp_spec(&self, other: &Self) -> Option<Ordering> {
        if self.value() < other.value() {
            Some(Ordering::Less)
        } else if self.value() == other.value() {
            Some(Ordering::Equal)
        } else {
            Some(Ordering::Greater)
        }
    }
}

impl super::Ordered for Octet {}

} // verus!
