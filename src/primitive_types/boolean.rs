//! A boolean value.
use super::any::Any;
use vstd::prelude::*;

verus! {

/// A boolean value.
#[derive(Debug, Clone, Copy, PartialEq, Eq, Structural)]
pub struct Boolean {
    value: bool,
}

impl Boolean {
    /// A boolean holding `value`.
    pub fn new(value: bool) -> (r: Self)
        ensures
            r.value() == value,
    {
        Boolean { value }
    }

    /// The truth value held.
    pub closed spec fn value(&self) -> bool {
        self.value
    }

    /// `true` or `false`.
    pub fn to_string(&self) -> (r: String)
        ensures
            r@ == (if self.value() {
                "true"@
            } else {
                "false"@
            }),
    {
        if self.value {
            String::from_str("true")
        } else {
            String::from_str("false")
        }
    }
}

impl Any for Boolean {
    open spec fn same_value(&self, other: &Self) -> bool {
        self.value() == other.value()
    }

    fn is_equal(&self, other: &Self) -> (r: bool) {
        self.value == other.value
    }
}

} // verus!
