//! The root of the openEHR type hierarchy.
use vstd::prelude::*;

verus! {

/// Equality of openEHR values.
pub trait Any: Sized {
    /// Whether two values are the same value.
    spec fn same_value(&self, other: &Self) -> bool;

    /// Returns true if the two values are equal.
    fn is_equal(&self, other: &Self) -> (r: bool)
        ensures
            r == self.same_value(other),
    ;
}

} // verus!
