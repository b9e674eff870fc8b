use vstd::prelude::*;

verus! {

/// What can go wrong on the client side of a WebFinger query.
#[derive(Debug)]
pub enum Error {
    /// The resource is not a URI.
    InvalidResource(http::uri::InvalidUri),
    /// The host is empty or is not a URI authority.
    InvalidAuthority(http::uri::InvalidUri),
    /// The server answered with a status outside the success range `200..=299`.
    HttpStatus(u16),
    /// The body of the answer is not a JSON Resource Descriptor; the message of the
    /// JSON parser.
    Decode(String),
    /// The transport failed; its message.
    Transport(String),
}

/// What the server side reports for an inbound request that is not a WebFinger
/// query.
#[derive(Debug)]
pub enum Rejection {
    /// The query string has no single `resource` parameter, or one of its
    /// parameters does not percent-decode to UTF-8.
    InvalidQueryString(String),
    /// Neither the request's URI nor its `Host` header names a host.
    MissingHost,
    /// The `resource` parameter is not a URI.
    InvalidResource(http::uri::InvalidUri),
}

/// The outcome of a query by its HTTP status: success for `200..=299`, otherwise
/// `Error::HttpStatus`; a body is decoded only after this has succeeded.
pub fn check_status(status: u16) -> (r: Result<(), Error>)
    ensures
        200 <= status <= 299 ==> r is Ok,
        !(200 <= status <= 299) ==> (r matches Err(Error::HttpStatus(s)) && s == status),
{
    if 200 <= status && status <= 299 {
        Ok(())
    } else {
        Err(Error::HttpStatus(status))
    }
}

} // verus!
