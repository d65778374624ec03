//! Strings as openEHR values.
use super::any::{str_equal, Any};
use crate::text::{parse_i64, signed_text_value};
use vstd::prelude::*;

verus! {

/// The openEHR string is std's string.
pub type String = std::string::String;

/// Reading a string as an integer.
pub trait StringExtension {
    /// The 64-bit integer that the string writes, if any.
    spec fn integer_value(&self) -> Option<int>;

    /// Whether the string writes a 64-bit integer: an optional sign and
    /// decimal digits.
    fn is_integer(&self) -> (r: bool)
        ensures
            r == self.integer_value() is Some,
    ;

    /// The 64-bit integer that the string writes, if any.
    fn as_integer(&self) -> (r: Option<i64>)
        ensures
            match r {
                Some(v) => self.integer_value() == Some(v as int),
                None => self.integer_value() is None,
            },
    ;
}

impl StringExtension for String {
    open spec fn integer_value(&self) -> Option<int> {
        match signed_text_value(self@) {
            Some(v) => if i64::MIN <= v <= i64::MAX {
                Some(v)
            } else {
                None
            },
            None => None,
        }
    }

    fn is_integer(&self) -> (r: bool) {
        parse_i64(self.as_str()).is_ok()
    }

    fn as_integer(&self) -> (r: Option<i64>) {
        match parse_i64(self.as_str()) {
            Ok(v) => Some(v),
            Err(_) => None,
        }
    }
}

impl Any for String {
    open spec fn same_value(&self, other: &Self) -> bool {
        self@ == other@
    }

    open spec fn kind_name() -> Seq<char> {
        "String"@
    }

    fn is_equal(&self, other: &Self) -> (r: bool) {
        *self == *other
    }

    fn instance_of(&self, name: &str) -> (r: bool) {
        str_equal(name, "String")
    }

    fn type_of(&self) -> (r: String) {
        String::from_str("String")
    }
}

impl super::Ordered for String {}

} // verus!
