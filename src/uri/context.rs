//! Which part of a URI a parser was reading when it failed.
use vstd::prelude::*;

verus! {

/// The URI component in which an illegal character was found.
#[derive(Clone, Copy, Debug, PartialEq, Eq, Hash, Structural)]
pub enum Context {
    Fragment,
    Host,
    Ipv4Address,
    Ipv6Address,
    Path,
    Query,
    Scheme,
    UserInfo,
}

/// The name of a component, as a diagnostic message says it.
pub open spec fn context_name(c: Context) -> Seq<char> {
    match c {
        Context::Fragment => "fragment"@,
        Context::Host => "host"@,
        Context::Ipv4Address => "IPv4 address"@,
        Context::Ipv6Address => "IPv6 address"@,
        Context::Path => "path"@,
        Context::Query => "query"@,
        Context::Scheme => "scheme"@,
        Context::UserInfo => "user info"@,
    }
}

impl Context {
    /// The name of the component, as a diagnostic message says it.
    pub fn name(&self) -> (r: &'static str)
        ensures
            r@ == context_name(*self),
    {
        match self {
            Context::Fragment => "fragment",
            Context::Host => "host",
            Context::Ipv4Address => "IPv4 address",
            Context::Ipv6Address => "IPv6 address",
            Context::Path => "path",
            Context::Query => "query",
            Context::Scheme => "scheme",
            Context::UserInfo => "user info",
        }
    }
}

} // verus!
