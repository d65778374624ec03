//! Value types of the openEHR foundation layer and an RFC 3986 URI
//! parser and generator.

pub mod foundation_types;
pub mod primitive_types;
pub mod text;
pub mod uri;


pub use uri::absolute_uri::AbsoluteUri;
pub use uri::authority::Authority;
pub use uri::error::{Error, MissingSchemeError};
pub use uri::Uri;
