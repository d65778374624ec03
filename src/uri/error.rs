//! The errors that parsing a URI or one of its parts can yield.
use super::context::{context_name, Context};
use std::num::ParseIntError;
use vstd::prelude::*;

verus! {

#[verifier::external_type_specification]
#[verifier::external_body]
pub struct ExParseIntError(ParseIntError);

/// Relies on `ParseIntError`'s derived `Clone`, which the derived `Clone` of
/// `Error` calls; nothing is claimed of the copy.
pub assume_specification[ <ParseIntError as Clone>::clone ](e: &ParseIntError) -> ParseIntError;

/// Every way in which a URI string, or a part of one, can be malformed.
#[derive(Debug, Clone, PartialEq, Eq)]
pub enum Error {
    /// The URI begins with an empty scheme, such as `://www.example.com`.
    EmptyScheme,
    /// A character that the component does not permit, such as a caret
    /// (`^`) in a query: `http://www.example.com?eat_my_^`.
    IllegalCharacter(Context),
    /// A malformed percent encoding, such as `http://www.example.com?foo=%GG`.
    IllegalPercentEncoding,
    /// A port that is no 16-bit unsigned decimal number, such as
    /// `http://www.example.com:99999` or `http://www.example.com:foo`.
    IllegalPortNumber(ParseIntError),
    /// An IPv4 address with a group above 255, such as
    /// `http://[::ffff:1.2.3.256]/`.
    InvalidDecimalOctet,
    /// An IP address with missing groups, such as `http://[::ffff:1.2.3]/`.
    TooFewAddressParts,
    /// An IP address with too many groups, such as `http://[::ffff:1.2.3.4.8]/`.
    TooManyAddressParts,
    /// An IPv6 group of more than four digits, such as
    /// `http://[20001:db8:85a3::1]/`.
    TooManyDigits,
    /// An IPv6 address with more than one `::`, such as
    /// `http://[2001:db8:85a3::8a2e::]/`.
    TooManyDoubleColons,
    /// A host that ends before it is complete, such as
    /// `http://[2001:db8:85a3::8a2e:0:]/`.
    TruncatedHost,
    /// An absolute URI was asked for and the URI has no scheme.
    MissingScheme(MissingSchemeError),
}

/// A URI without a scheme where an absolute URI was needed; it carries the
/// URI as a string.
#[derive(Debug, Clone, PartialEq, Eq)]
pub struct MissingSchemeError {
    pub uri_string: String,
}

impl MissingSchemeError {
    /// The diagnostic message: `missing scheme in uri: ` and the URI.
    pub fn message(&self) -> (r: String)
        ensures
            r@ == "missing scheme in uri: "@ + self.uri_string@,
    {
        let mut r = String::from_str("missing scheme in uri: ");
        r.append(self.uri_string.as_str());
        r
    }
}

/// The diagnostic message of an error.
pub open spec fn error_message(e: Error) -> Seq<char> {
    match e {
        Error::EmptyScheme => "scheme expected but missing"@,
        Error::IllegalCharacter(c) => "illegal character in "@ + context_name(c),
        Error::IllegalPercentEncoding => "illegal percent encoding"@,
        Error::IllegalPortNumber(_) => "illegal port number"@,
        Error::InvalidDecimalOctet => "octet group expected"@,
        Error::TooFewAddressParts => "too few address parts"@,
        Error::TooManyAddressParts => "too many address parts"@,
        Error::TooManyDigits => "too many digits in IPv6 address part"@,
        Error::TooManyDoubleColons => "too many double-colons in IPv6 address"@,
        Error::TruncatedHost => "truncated host"@,
        Error::MissingScheme(m) => "missing scheme in uri: "@ + m.uri_string@,
    }
}

impl Error {
    /// The diagnostic message: see `error_message`.
    pub fn message(&self) -> (r: String)
        ensures
            r@ == error_message(*self),
    {
        match self {
            Error::EmptyScheme => String::from_str("scheme expected but missing"),
            Error::IllegalCharacter(c) => {
                let mut r = String::from_str("illegal character in ");
                r.append(c.name());
                r
            },
            Error::IllegalPercentEncoding => String::from_str("illegal percent encoding"),
            Error::IllegalPortNumber(_) => String::from_str("illegal port number"),
            Error::InvalidDecimalOctet => String::from_str("octet group expected"),
            Error::TooFewAddressParts => String::from_str("too few address parts"),
            Error::TooManyAddressParts => String::from_str("too many address parts"),
            Error::TooManyDigits => String::from_str("too many digits in IPv6 address part"),
            Error::TooManyDoubleColons => String::from_str(
                "too many double-colons in IPv6 address",
            ),
            Error::TruncatedHost => String::from_str("truncated host"),
            Error::MissingScheme(m) => m.message(),
        }
    }
}

impl From<MissingSchemeError> for Error {
    fn from(e: MissingSchemeError) -> (r: Error)
        ensures
            r == Error::MissingScheme(e),
    {
        Error::MissingScheme(e)
    }
}

impl vstd::std_specs::convert::FromSpecImpl<MissingSchemeError> for Error {
    open spec fn obeys_from_spec() -> bool {
        true
    }

    open spec fn from_spec(e: MissingSchemeError) -> Error {
        Error::MissingScheme(e)
    }
}

} // verus!

verus! {

/// Two errors of the same kind: equal, except that two port errors agree
/// whatever std's parse error holds.
pub open spec fn same_error(e: Error, f: Error) -> bool {
    match (e, f) {
        (Error::IllegalPortNumber(_), Error::IllegalPortNumber(_)) => true,
        _ => e == f,
    }
}

/// Two outcomes that agree: equal values, or errors of the same kind.
pub open spec fn agrees<T>(r: Result<T, Error>, s: Result<T, Error>) -> bool {
    match (r, s) {
        (Ok(a), Ok(b)) => a == b,
        (Err(e), Err(f)) => same_error(e, f),
        _ => false,
    }
}

} // verus!
