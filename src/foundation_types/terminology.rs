//! Coded terms of a terminology.
use super::any::{str_equal, Any};
use crate::uri::{uri_text, Uri};
use vstd::prelude::*;

verus! {

/// A code of a terminology, with the terminology's identity and a URI.
pub struct TerminologyCode {
    pub terminology_id: String,
    pub terminology_version: String,
    pub code_string: String,
    pub uri: Uri,
}

/// A term: a coded concept and its text.
pub struct TerminologyTerm {
    pub concept: TerminologyCode,
    pub text: String,
}

impl TerminologyCode {
    pub open spec fn same_code(&self, other: &Self) -> bool {
        &&& self.terminology_id@ == other.terminology_id@
        &&& self.terminology_version@ == other.terminology_version@
        &&& self.code_string@ == other.code_string@
        &&& uri_text(self.uri@) == uri_text(other.uri@)
    }

    fn equals(&self, other: &Self) -> (r: bool)
        ensures
            r == self.same_code(other),
    {
        self.terminology_id == other.terminology_id && self.terminology_version
            == other.terminology_version && self.code_string == other.code_string
            && self.uri.is_equal(&other.uri)
    }
}

impl PartialEq for TerminologyCode {
    fn eq(&self, other: &Self) -> (r: bool) {
        self.equals(other)
    }
}

impl vstd::std_specs::cmp::PartialEqSpecImpl for TerminologyCode {
    open spec fn obeys_eq_spec() -> bool {
        true
    }

    open spec fn eq_spec(&self, other: &Self) -> bool {
        self.same_code(other)
    }
}

impl Any for TerminologyCode {
    open spec fn same_value(&self, other: &Self) -> bool {
        self.same_code(other)
    }

    open spec fn kind_name() -> Seq<char> {
        "TerminologyCode"@
    }

    fn is_equal(&self, other: &Self) -> (r: bool) {
        self.equals(other)
    }

    fn instance_of(&self, name: &str) -> (r: bool) {
        str_equal(name, "TerminologyCode")
    }

    fn type_of(&self) -> (r: String) {
        String::from_str("TerminologyCode")
    }
}

impl TerminologyTerm {
    pub open spec fn same_term(&self, other: &Self) -> bool {
        self.concept.same_code(&other.concept) && self.text@ == other.text@
    }

    fn equals(&self, other: &Self) -> (r: bool)
        ensures
            r == self.same_term(other),
    {
        self.concept.equals(&other.concept) && self.text == other.text
    }
}

impl PartialEq for TerminologyTerm {
    fn eq(&self, other: &Self) -> (r: bool) {
        self.equals(other)
    }
}

impl vstd::std_specs::cmp::PartialEqSpecImpl for TerminologyTerm {
    open spec fn obeys_eq_spec() -> bool {
        true
    }

    open spec fn eq_spec(&self, other: &Self) -> bool {
        self.same_term(other)
    }
}

impl Any for TerminologyTerm {
    open spec fn same_value(&self, other: &Self) -> bool {
        self.same_term(other)
    }

    open spec fn kind_name() -> Seq<char> {
        "TerminologyTerm"@
    }

    fn is_equal(&self, other: &Self) -> (r: bool) {
        self.equals(other)
    }

    fn instance_of(&self, name: &str) -> (r: bool) {
        str_equal(name, "TerminologyTerm")
    }

    fn type_of(&self) -> (r: String) {
        String::from_str("TerminologyTerm")
    }
}

} // verus!
