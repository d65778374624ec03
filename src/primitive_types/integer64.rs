//! A 64-bit signed integer value.
use super::any::Any;
use std::cmp::Ordering;
use vstd::prelude::*;

verus! {

/// A 64-bit signed integer value.
#[derive(Debug, Clone, Copy, PartialEq, Eq, Structural)]
pub struct Integer64 {
    pub value: i64,
}

impl Integer64 {
    /// A value holding `value`.
    pub fn new(value: i64) -> (r: Self)
        ensures
            r.value == value,
    {
        Integer64 { value }
    }
}

impl Any for Integer64 {
    open spec fn same_value(&self, other: &Self) -> bool {
        self.value == other.value
    }

    fn is_equal(&self, other: &Self) -> (r: bool) {
        self.value == other.value
    }
}

impl PartialOrd for Integer64 {
    fn partial_cmp(&self, other: &Self) -> (r: Option<Ordering>) {
        if self.value < other.value {
            Some(Ordering::Less)
        } else if self.value == other.value {
            Some(Ordering::Equal)
        } else {
            Some(Ordering::Greater)
        }
    }
}

impl vstd::std_specs::cmp::PartialOrdSpecImpl for Integer64 {
    open spec fn obeys_partial_cmp_spec() -> bool {
        true
    }

    open spec fn partial_cmp_spec(&self, other: &Self) -> Option<Ordering> {
        if self.value < other.value {
            Some(Ordering::Less)
        } else if self.value == other.value {
            Some(Ordering::Equal)
        } else {
            Some(Ordering::Greater)
        }
    }
}

impl std::ops::Add for Integer64 {
    type Output = Integer64;

    fn add(self, other: Self) -> (r: Integer64) {
        Integer64::new(self.value + other.value)
    }
}

impl vstd::std_specs::ops::AddSpecImpl for Integer64 {
    open spec fn obeys_add_spec() -> bool {
        true
    }

    open spec fn add_req(self, other: Self) -> bool {
        i64::MIN <= self.value + other.value <= i64::MAX
    }

    open spec fn add_spec(self, other: Self) -> Integer64 {
        Integer64 { value: (self.value + other.value) as i64 }
    }
}

impl std::ops::Sub for Integer64 {
    type Output = Integer64;

    fn sub(self, other: Self) -> (r: Integer64) {
        Integer64::new(self.value - other.value)
    }
}

impl vstd::std_specs::ops::SubSpecImpl for Integer64 {
    open spec fn obeys_sub_spec() -> bool {
        true
    }

    open spec fn sub_req(self, other: Self) -> bool {
        i64::MIN <= self.value - other.value <= i64::MAX
    }

    open spec fn sub_spec(self, other: Self) -> Integer64 {
        Integer64 { value: (self.value - other.value) as i64 }
    }
}

impl std::ops::Mul for Integer64 {
    type Output = Integer64;

    fn mul(self, other: Self) -> (r: Integer64) {
        Integer64::new(self.value * other.value)
    }
}

impl vstd::std_specs::ops::MulSpecImpl for Integer64 {
    open spec fn obeys_mul_spec() -> bool {
        true
    }

    open spec fn mul_req(self, other: Self) -> bool {
        i64::MIN <= self.value * other.value <= i64::MAX
    }

    open spec fn mul_spec(self, other: Self) -> Integer64 {
        Integer64 { value: (self.value * other.value) as i64 }
    }
}

impl std::ops::Neg for Integer64 {
    type Output = Integer64;

    fn neg(self) -> (r: Integer64) {
        Integer64::new(-self.value)
    }
}

impl vstd::std_specs::ops::NegSpecImpl for Integer64 {
    open spec fn obeys_neg_spec() -> bool {
        true
    }

    open spec fn neg_req(self) -> bool {
        self.value != i64::MIN
    }

    open spec fn neg_spec(self) -> Integer64 {
        Integer64 { value: (-self.value) as i64 }
    }
}

impl std::ops::Div for Integer64 {
    type Output = Integer64;

    fn div(self, other: Self) -> (r: Integer64) {
        Integer64::new(std::ops::Div::div(self.value, other.value))
    }
}

impl vstd::std_specs::ops::DivSpecImpl for Integer64 {
    open spec fn obeys_div_spec() -> bool {
        true
    }

    open spec fn div_req(self, other: Self) -> bool {
        other.value != 0 && !(self.value == i64::MIN && other.value == -1)
    }

    open spec fn div_spec(self, other: Self) -> Integer64 {
        Integer64 { value: crate::foundation_types::truncated_div(self.value as int, other.value as int) as i64 }
    }
}

impl Integer64 {
    /// The value in decimal.
    pub fn to_string(&self) -> (r: String)
        ensures
            r@ == crate::text::signed_decimal_text(self.value as int),
    {
        crate::text::signed_decimal(self.value as i64)
    }
}

impl super::Numeric for Integer64 {}

impl super::Ordered for Integer64 {}

impl super::OrderedNumeric for Integer64 {}

} // verus!
