//! URIs that are known to have a scheme.
use super::authority::Authority;
use super::error::{agrees, Error, MissingSchemeError};
use super::{
    normalized, opt_authority, opt_string_outcome, path_bytes, path_of_text, path_view, resolved,
    scheme_check, uri_outcome, uri_result, uri_text, Uri, UriView,
};
use std::string::FromUtf8Error;
use vstd::prelude::*;
use vstd::string::StringSliceAdditionalSpecFns;
use vstd::utf8::{decode_utf8, valid_utf8};

verus! {

/// A URI with a scheme. It can only be made from a URI that has one, and
/// nothing it offers removes the scheme.
#[derive(Debug, PartialEq, Eq, Hash)]
pub struct AbsoluteUri {
    uri: Uri,
}

impl View for AbsoluteUri {
    type V = UriView;

    closed spec fn view(&self) -> UriView {
        self.uri@
    }
}

/// What making an absolute URI from `u` owes: `u` itself where it has a
/// scheme, else `MissingScheme` with the URI's written form.
pub open spec fn absolute_outcome(u: UriView, r: Result<AbsoluteUri, Error>) -> bool {
    match r {
        Ok(a) => u.scheme is Some && a@ == u,
        Err(e) => u.scheme is None && (e matches Error::MissingScheme(m) && m.uri_string@
            == uri_text(u)),
    }
}

impl AbsoluteUri {
    #[verifier::type_invariant]
    spec fn has_scheme(self) -> bool {
        self.uri@.scheme is Some
    }

    /// The absolute URI of `uri`, which must have a scheme.
    pub fn try_from(uri: Uri) -> (r: Result<AbsoluteUri, Error>)
        ensures
            absolute_outcome(uri@, r),
    {
        if uri.scheme().is_none() {
            let e = MissingSchemeError { uri_string: uri.to_string() };
            Err(Error::from(e))
        } else {
            Ok(AbsoluteUri { uri })
        }
    }

    /// The URI, as a plain `Uri`.
    pub fn into_uri(self) -> (r: Uri)
        ensures
            r@ == self@,
    {
        self.uri
    }

    /// Returns the `Uri` representation of this `AbsoluteUri`.
    pub fn uri(&self) -> (r: &Uri)
        ensures
            r@ == self@,
    {
        &self.uri
    }

    /// Borrow the authority (if any) of the URI.
    pub fn authority(&self) -> (r: Option<&Authority>)
        ensures
            opt_authority(
                match r {
                    Some(a) => Some(*a),
                    None => None,
                },
            ) == self@.authority,
    {
        self.uri.authority()
    }

    /// Borrow the fragment (if any) of the URI.
    pub fn fragment(&self) -> (r: Option<&[u8]>)
        ensures
            match r {
                Some(f) => self@.fragment == Some(f@),
                None => self@.fragment is None,
            },
    {
        self.uri.fragment()
    }

    /// Convert the fragment (if any) into a string.
    pub fn fragment_to_string(&self) -> (r: Result<Option<String>, FromUtf8Error>)
        ensures
            opt_string_outcome(self@.fragment, r),
    {
        self.uri.fragment_to_string()
    }

    /// Borrow the host portion of the Authority (if any) of the URI.
    pub fn host(&self) -> (r: Option<&[u8]>)
        ensures
            match r {
                Some(h) => self@.authority matches Some(a) && a.host == h@,
                None => self@.authority is None,
            },
    {
        self.uri.host()
    }

    /// Convert the host portion of the Authority (if any) into a string.
    pub fn host_to_string(&self) -> (r: Result<Option<String>, FromUtf8Error>)
        ensures
            opt_string_outcome(
                match self@.authority {
                    Some(a) => Some(a.host),
                    None => None,
                },
                r,
            ),
    {
        self.uri.host_to_string()
    }

    /// Remove the `.` and `..` segments of the path, applying them.
    pub fn normalize(&mut self)
        ensures
            final(self)@ == (UriView { path: normalized(old(self)@.path), ..old(self)@ }),
    {
        proof {
            use_type_invariant(&*self);
        }
        let mut uri = self.uri.duplicate();
        uri.normalize();
        *self = AbsoluteUri { uri };
    }

    /// Interpret the given string as a URI that must have a scheme.
    pub fn parse(uri_string: &str) -> (r: Result<AbsoluteUri, Error>)
        ensures
            match uri_outcome(uri_string@) {
                Ok(u) => absolute_outcome(u, r),
                Err(e) => r matches Err(f) && agrees(
                    Err::<(), Error>(f),
                    Err::<(), Error>(e),
                ),
            },
    {
        match Uri::parse(uri_string) {
            Ok(u) => Self::try_from(u),
            Err(e) => Err(e),
        }
    }

    /// Borrow the path component of the URI.
    pub fn path(&self) -> (r: &Vec<Vec<u8>>)
        ensures
            path_view(r@) == self@.path,
    {
        self.uri.path()
    }

    /// Convert the path portion of the URI into a string.
    pub fn path_to_string(&self) -> (r: Result<String, FromUtf8Error>)
        ensures
            r is Ok <==> valid_utf8(path_bytes(self@.path)),
            r matches Ok(s) ==> s@ == decode_utf8(path_bytes(self@.path)),
    {
        self.uri.path_to_string()
    }

    /// The port (if any) contained in the URI.
    pub fn port(&self) -> (r: Option<u16>)
        ensures
            r == (match self@.authority {
                Some(a) => a.port,
                None => None,
            }),
    {
        self.uri.port()
    }

    /// Borrow the query (if any) of the URI.
    pub fn query(&self) -> (r: Option<&[u8]>)
        ensures
            match r {
                Some(q) => self@.query == Some(q@),
                None => self@.query is None,
            },
    {
        self.uri.query()
    }

    /// Convert the query (if any) into a string.
    pub fn query_to_string(&self) -> (r: Result<Option<String>, FromUtf8Error>)
        ensures
            opt_string_outcome(self@.query, r),
    {
        self.uri.query_to_string()
    }

    /// The absolute URI that `relative_reference` names when it is read
    /// against this one; it always has a scheme.
    pub fn resolve(&self, relative_reference: &Uri) -> (r: AbsoluteUri)
        ensures
            r@ == resolved(self@, relative_reference@),
    {
        proof {
            use_type_invariant(self);
        }
        AbsoluteUri { uri: self.uri.resolve(relative_reference) }
    }

    /// Borrow the scheme of the URI.
    pub fn scheme(&self) -> (r: &str)
        ensures
            self@.scheme == Some(r@),
    {
        proof {
            use_type_invariant(self);
        }
        self.uri.scheme().unwrap()
    }

    /// Change the authority of the URI.
    pub fn set_authority(&mut self, authority: Option<Authority>)
        ensures
            final(self)@ == (UriView { authority: opt_authority(authority), ..old(self)@ }),
    {
        proof {
            use_type_invariant(&*self);
        }
        let mut uri = self.uri.duplicate();
        uri.set_authority(authority);
        *self = AbsoluteUri { uri };
    }

    /// Change the fragment of the URI.
    pub fn set_fragment(&mut self, fragment: Option<Vec<u8>>)
        ensures
            final(self)@ == (UriView {
                fragment: crate::text::opt_bytes(fragment),
                ..old(self)@
            }),
    {
        proof {
            use_type_invariant(&*self);
        }
        let mut uri = self.uri.duplicate();
        uri.set_fragment(fragment);
        *self = AbsoluteUri { uri };
    }

    /// Change the path of the URI.
    pub fn set_path(&mut self, path: Vec<Vec<u8>>)
        ensures
            final(self)@ == (UriView { path: path_view(path@), ..old(self)@ }),
    {
        proof {
            use_type_invariant(&*self);
        }
        let mut uri = self.uri.duplicate();
        uri.set_path(path);
        *self = AbsoluteUri { uri };
    }

    /// Change the path of the URI to the pieces of `path` between slashes.
    pub fn set_path_from_str(&mut self, path: &str)
        ensures
            final(self)@ == (UriView { path: path_of_text(path.spec_bytes()), ..old(self)@ }),
    {
        proof {
            use_type_invariant(&*self);
        }
        let mut uri = self.uri.duplicate();
        uri.set_path_from_str(path);
        *self = AbsoluteUri { uri };
    }

    /// Change the query of the URI.
    pub fn set_query(&mut self, query: Option<Vec<u8>>)
        ensures
            final(self)@ == (UriView { query: crate::text::opt_bytes(query), ..old(self)@ }),
    {
        proof {
            use_type_invariant(&*self);
        }
        let mut uri = self.uri.duplicate();
        uri.set_query(query);
        *self = AbsoluteUri { uri };
    }

    /// Change the scheme of the URI; an empty or malformed scheme is
    /// refused and the URI is left as it was.
    pub fn set_scheme(&mut self, scheme: &str) -> (r: Result<(), Error>)
        ensures
            match scheme_check(scheme@) {
                Ok(_) => r is Ok && final(self)@ == (UriView {
                    scheme: Some(scheme@),
                    ..old(self)@
                }),
                Err(e) => r == Err::<(), Error>(e) && final(self)@ == old(self)@,
            },
    {
        proof {
            use_type_invariant(&*self);
        }
        if scheme.is_empty() {
            Err(Error::EmptyScheme)
        } else {
            let mut uri = self.uri.duplicate();
            let r = uri.set_scheme(Some(String::from_str(scheme)));
            *self = AbsoluteUri { uri };
            r
        }
    }

    /// Borrow the `user_info` (if any) of the Authority (if any).
    pub fn user_info(&self) -> (r: Option<&[u8]>)
        ensures
            match r {
                Some(u) => self@.authority matches Some(a) && a.user_info == Some(u@),
                None => self@.authority matches Some(a) ==> a.user_info is None,
            },
    {
        self.uri.user_info()
    }

    /// Convert the `user_info` (if any) into a string.
    pub fn user_info_to_string(&self) -> (r: Result<Option<String>, FromUtf8Error>)
        ensures
            opt_string_outcome(
                match self@.authority {
                    Some(a) => a.user_info,
                    None => None,
                },
                r,
            ),
    {
        self.uri.user_info_to_string()
    }

    /// The written form of the URI.
    pub fn to_string(&self) -> (r: String)
        ensures
            r@ == uri_text(self@),
    {
        self.uri.to_string()
    }
}

impl Clone for AbsoluteUri {
    fn clone(&self) -> (r: AbsoluteUri)
        ensures
            r@ == self@,
    {
        proof {
            use_type_invariant(self);
        }
        AbsoluteUri { uri: self.uri.duplicate() }
    }
}

} // verus!
