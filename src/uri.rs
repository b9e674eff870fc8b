//! What this library takes from the `http` crate: URI and authority parsing.
use vstd::prelude::*;

verus! {

/// The error that `http` reports for text that is not a URI or not an authority.
#[verifier::external_type_specification]
#[verifier::external_body]
pub struct ExInvalidUri(http::uri::InvalidUri);

/// The text that `http` writes for the URI it parses from `s`, or `None` when it
/// rejects `s`.
pub uninterp spec fn uri_text(s: Seq<char>) -> Option<Seq<char>>;

/// Whether `http` accepts `s` as a URI authority (`host[:port]`, with optional
/// user information).
pub uninterp spec fn is_authority(s: Seq<char>) -> bool;

/// Relies on `http::Uri`'s `FromStr`, and on its `Display` for the text of the
/// parsed URI: the outcome depends on `s` alone.
#[verifier::external_body]
pub(crate) fn parse_uri(s: &str) -> (r: Result<String, http::uri::InvalidUri>)
    ensures
        r matches Ok(t) ==> uri_text(s@) == Some(t@),
        r is Err ==> uri_text(s@) is None,
{
    s.parse::<http::Uri>().map(|u| u.to_string())
}

/// Relies on `http::uri::Authority`'s `FromStr`, the parser that `http`'s URI
/// builder applies to an authority: the outcome depends on `s` alone, and an empty
/// authority is refused.
#[verifier::external_body]
pub(crate) fn parse_authority(s: &str) -> (r: Result<(), http::uri::InvalidUri>)
    ensures
        r is Ok <==> is_authority(s@),
        s@.len() == 0 ==> r is Err,
{
    s.parse::<http::uri::Authority>().map(|_| ())
}

} // verus!
