//! A character value.
use super::any::{str_equal, Any};
use std::cmp::Ordering;
use vstd::prelude::*;

verus! {

/// A character value.
#[derive(Debug, Clone, Copy, Ord)]
pub struct Character {
    pub value: char,
}

impl Character {
    /// A value holding `value`.
    pub fn new(value: char) -> (r: Self)
        ensures
            r.value == value,
    {
        Character { value }
    }
}

impl Any for Character {
    open spec fn same_value(&self, other: &Self) -> bool {
        self.value == other.value
    }

    open spec fn kind_name() -> Seq<char> {
        "Character"@
    }

    fn is_equal(&self, other: &Self) -> (r: bool) {
        self.value == other.value
    }

    fn instance_of(&self, name: &str) -> (r: bool) {
        str_equal(name, "Character")
    }

    fn type_of(&self) -> (r: String) {
        String::from_str("Character")
    }
}

impl PartialEq<Character> for Character {
    fn eq(&self, other: &Character) -> (r: bool) {
        self.value == other.value
    }
}

impl vstd::std_specs::cmp::PartialEqSpecImpl<Character> for Character {
    open spec fn obeys_eq_spec() -> bool {
        true
    }

    open spec fn eq_spec(&self, other: &Character) -> bool {
        self.value == other.value
    }
}

impl PartialEq<char> for Character {
    fn eq(&self, other: &char) -> (r: bool) {
        self.value == *other
    }
}

impl vstd::std_specs::cmp::PartialEqSpecImpl<char> for Character {
    open spec fn obeys_eq_spec() -> bool {
        true
    }

    open spec fn eq_spec(&self, other: &char) -> bool {
        self.value == *other
    }
}

impl Eq for Character {}

impl PartialOrd for Character {
    fn partial_cmp(&self, other: &Self) -> (r: Option<Ordering>) {
        if self.value < other.value {
            Some(Ordering::Less)
        } else if self.value == other.value {
            Some(Ordering::Equal)
        } else {
            Some(Ordering::Greater)
        }
    }
}

impl vstd::std_specs::cmp::PartialOrdSpecImpl for Character {
    open spec fn obeys_partial_cmp_spec() -> bool {
        true
    }

    open spec fn partial_cmp_spec(&self, other: &Self) -> Option<Ordering> {
        if self.value < other.value {
            Some(Ordering::Less)
        } else if self.value == other.value {
            Some(Ordering::Equal)
        } else {
            Some(Ordering::Greater)
        }
    }
}

impl super::Ordered for Character {}

} // verus!
