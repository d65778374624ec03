//! Immutable openEHR foundation value types: booleans, integers, octets,
//! characters and strings, with equality, ordering and arithmetic.
use vstd::prelude::*;

pub mod any;
pub mod boolean;
pub mod character;
pub mod integer;
pub mod integer64;
pub mod octet;
pub mod string;
pub mod terminology;

pub use any::Any;
pub use boolean::Boolean;
pub use character::Character;
pub use integer::Integer;
pub use integer64::Integer64;
pub use octet::Octet;
pub use string::{String, StringExtension};
pub use terminology::{TerminologyCode, TerminologyTerm};
pub use crate::uri::Uri;

verus! {

/// The remainder of a division that rounds toward zero: it has the sign of
/// `a` and a magnitude below that of `b`.
pub open spec fn truncated_rem(a: int, b: int) -> int {
    if a >= 0 {
        a % b
    } else {
        -((-a) % b)
    }
}

/// The quotient of a division that rounds toward zero.
pub open spec fn truncated_div(a: int, b: int) -> int {
    if a >= 0 {
        a / b
    } else {
        -((-a) / b)
    }
}

/// Values with a total order.
pub trait Ordered: Any {
}

/// Numbers with a total order.
pub trait OrderNumeric: Ordered {
}

} // verus!
