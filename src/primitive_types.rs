//! The openEHR primitive types: booleans, characters, integers, octets and
//! strings as values with equality, ordering and arithmetic.
use vstd::prelude::*;

pub mod any;
pub mod boolean;
pub mod character;
pub mod integer;
pub mod integer64;
pub mod octet;
pub mod string;

verus! {

/// Numbers.
pub trait Numeric: any::Any {
}

/// Values with a total order.
pub trait Ordered: any::Any {
}

/// Numbers with a total order.
pub trait OrderedNumeric: Ordered + Numeric {
}

} // verus!
