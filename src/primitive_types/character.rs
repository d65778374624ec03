//! A character value.
use super::any::Any;
use std::cmp::Ordering;
use vstd::prelude::*;

verus! {

/// A character value.
#[derive(Debug, Clone, Copy, PartialEq, Eq, Structural)]
pub struct Character {
    pub value: char,
}

impl Character {
    /// A value holding `value`.
    pub fn new(value: char) -> (r: Self)
        ensures
            r.value == value,
    {
        Character { value }
    }
}

impl Character {
    /// The character as a string.
    pub fn to_string(&self) -> (r: String)
        ensures
            r@ == seq![self.value],
    {
        let mut v: Vec<char> = Vec::new();
        v.push(self.value);
        crate::text::string_of(&v)
    }
}

impl Any for Character {
    open spec fn same_value(&self, other: &Self) -> bool {
        self.value == other.value
    }

    fn is_equal(&self, other: &Self) -> (r: bool) {
        self.value == other.value
    }
}

impl PartialOrd for Character {
    fn partial_cmp(&self, other: &Self) -> (r: Option<Ordering>) {
        if self.value < other.value {
            Some(Ordering::Less)
        } else if self.value == other.value {
            Some(Ordering::Equal)
        } else {
            Some(Ordering::Greater)
        }
    }
}

impl vstd::std_specs::cmp::PartialOrdSpecImpl for Character {
    open spec fn obeys_partial_cmp_spec() -> bool {
        true
    }

    open spec fn partial_cmp_spec(&self, other: &Self) -> Option<Ordering> {
        if self.value < other.value {
            Some(Ordering::Less)
        } else if self.value == other.value {
            Some(Ordering::Equal)
        } else {
            Some(Ordering::Greater)
        }
    }
}

impl super::Ordered for Character {}

} // verus!
