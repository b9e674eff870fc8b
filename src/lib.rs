//! WebFinger (RFC 7033): the request model and its well-known-path URI, the JSON
//! Resource Descriptor model, and the rules that turn an inbound request's
//! authority, `Host` header and query string into a validated request.
use vstd::prelude::*;

pub mod error;
pub mod extract;
pub mod percent;
pub mod query;
pub mod rel;
pub mod request;
pub mod response;
pub mod uri;

pub use error::{check_status, Error, Rejection};
pub use rel::Rel;
pub use request::{Builder as RequestBuilder, Request};
pub use response::{Builder as ResponseBuilder, Link, LinkBuilder, Response, Title};

verus! {

/// The path at which WebFinger servers answer: `/.well-known/webfinger`.
pub const WELL_KNOWN_PATH: &'static str = "/.well-known/webfinger";

/// The media type of a JSON Resource Descriptor.
pub const JRD_CONTENT_TYPE: &'static str = "application/jrd+json";

} // verus!
