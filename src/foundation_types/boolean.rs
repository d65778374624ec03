//! A boolean value.
use super::any::{str_equal, Any};
use vstd::prelude::*;

verus! {

/// A boolean value.
#[derive(Debug, Clone, Copy)]
pub struct Boolean {
    pub value: bool,
}

impl Boolean {
    /// A value holding `value`.
    pub fn new(value: bool) -> (r: Self)
        ensures
            r.value == value,
    {
        Boolean { value }
    }
}

impl Any for Boolean {
    open spec fn same_value(&self, other: &Self) -> bool {
        self.value == other.value
    }

    open spec fn kind_name() -> Seq<char> {
        "Boolean"@
    }

    fn is_equal(&self, other: &Self) -> (r: bool) {
        self.value == other.value
    }

    fn instance_of(&self, name: &str) -> (r: bool) {
        str_equal(name, "Boolean")
    }

    fn type_of(&self) -> (r: String) {
        String::from_str("Boolean")
    }
}

impl PartialEq<Boolean> for Boolean {
    fn eq(&self, other: &Boolean) -> (r: bool) {
        self.value == other.value
    }
}

impl vstd::std_specs::cmp::PartialEqSpecImpl<Boolean> for Boolean {
    open spec fn obeys_eq_spec() -> bool {
        true
    }

    open spec fn eq_spec(&self, other: &Boolean) -> bool {
        self.value == other.value
    }
}

impl PartialEq<bool> for Boolean {
    fn eq(&self, other: &bool) -> (r: bool) {
        self.value == *other
    }
}

impl vstd::std_specs::cmp::PartialEqSpecImpl<bool> for Boolean {
    open spec fn obeys_eq_spec() -> bool {
        true
    }

    open spec fn eq_spec(&self, other: &bool) -> bool {
        self.value == *other
    }
}

impl Eq for Boolean {}

impl std::ops::Not for &Boolean {
    type Output = Boolean;

    fn not(self) -> (r: Boolean) {
        Boolean::new(!self.value)
    }
}

impl vstd::std_specs::ops::NotSpecImpl for &Boolean {
    open spec fn obeys_not_spec() -> bool {
        true
    }

    open spec fn not_req(self) -> bool {
        true
    }

    open spec fn not_spec(self) -> Boolean {
        Boolean { value: !self.value }
    }
}

} // verus!
