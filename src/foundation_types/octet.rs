//! A byte value.
use super::any::{str_equal, Any};
use std::cmp::Ordering;
use vstd::prelude::*;

verus! {

/// A byte value.
#[derive(Debug, Clone, Copy, Ord)]
pub struct Octet {
    pub value: u8,
}

impl Octet {
    /// A value holding `value`.
    pub fn new(value: u8) -> (r: Self)
        ensures
            r.value == value,
    {
        Octet { value }
    }
}

impl Any for Octet {
    open spec fn same_value(&self, other: &Self) -> bool {
        self.value == other.value
    }

    open spec fn kind_name() -> Seq<char> {
        "Octet"@
    }

    fn is_equal(&self, other: &Self) -> (r: bool) {
        self.value == other.value
    }

    fn instance_of(&self, name: &str) -> (r: bool) {
        str_equal(name, "Octet")
    }

    fn type_of(&self) -> (r: String) {
        String::from_str("Octet")
    }
}

impl PartialEq<Octet> for Octet {
    fn eq(&self, other: &Octet) -> (r: bool) {
        self.value == other.value
    }
}

impl vstd::std_specs::cmp::PartialEqSpecImpl<Octet> for Octet {
    open spec fn obeys_eq_spec() -> bool {
        true
    }

    open spec fn eq_spec(&self, other: &Octet) -> bool {
        self.value == other.value
    }
}

impl PartialEq<u8> for Octet {
    fn eq(&self, other: &u8) -> (r: bool) {
        self.value == *other
    }
}

impl vstd::std_specs::cmp::PartialEqSpecImpl<u8> for Octet {
    open spec fn obeys_eq_spec() -> bool {
        true
    }

    open spec fn eq_spec(&self, other: &u8) -> bool {
        self.value == *other
    }
}

impl Eq for Octet {}

impl PartialOrd for Octet {
    fn partial_cmp(&self, other: &Self) -> (r: Option<Ordering>) {
        if self.value < other.value {
            Some(Ordering::Less)
        } else if self.value == other.value {
            Some(Ordering::Equal)
        } else {
            Some(Ordering::Greater)
        }
    }
}

impl vstd::std_specs::cmp::PartialOrdSpecImpl for Octet {
    open spec fn obeys_partial_cmp_spec() -> bool {
        true
    }

    open spec fn partial_cmp_spec(&self, other: &Self) -> Option<Ordering> {
        if self.value < other.value {
            Some(Ordering::Less)
        } else if self.value == other.value {
            Some(Ordering::Equal)
        } else {
            Some(Ordering::Greater)
        }
    }
}

impl super::Ordered for Octet {}

} // verus!
