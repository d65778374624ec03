//! The root of the openEHR type hierarchy.
use vstd::prelude::*;
use vstd::string::StrSliceExecFns;

verus! {

/// The operations that every openEHR value offers.
pub trait Any: Sized {
    /// Whether two values are the same value.
    spec fn same_value(&self, other: &Self) -> bool;

    /// The name of the type.
    spec fn kind_name() -> Seq<char>;

    /// Returns true if the two values are equal.
    fn is_equal(&self, other: &Self) -> (r: bool)
        ensures
            r == self.same_value(other),
    ;

    /// Returns true if the value is an instance of the named type.
    fn instance_of(&self, name: &str) -> (r: bool)
        ensures
            r == (name@ == Self::kind_name()),
    ;

    /// The name of the value's type.
    fn type_of(&self) -> (r: String)
        ensures
            r@ == Self::kind_name(),
    ;
}

/// Whether two strings hold the same characters.
pub fn str_equal(a: &str, b: &str) -> (r: bool)
    ensures
        r == (a@ == b@),
{
    let n = a.unicode_len();
    if n != b.unicode_len() {
        return false;
    }
    let mut i: usize = 0;
    while i < n
        invariant
            n == a@.len() == b@.len(),
            i <= n,
            forall|j: int| 0 <= j < i ==> a@[j] == b@[j],
        decreases n - i,
    {
        if a.get_char(i) != b.get_char(i) {
            return false;
        }
        i += 1;
    }
    assert(a@ =~= b@);
    true
}

} // verus!
