//! The WebFinger request and its URI: the well-known path, a `resource`
//! parameter, and one `rel` parameter for each relation type asked for.
use vstd::prelude::*;
use vstd::string::*;
use vstd::utf8::*;

use crate::error::Error;
use crate::percent::{append_component, append_text, encode_component, lemma_encode_utf8_concat, string_of_utf8};
use crate::rel::Rel;
use crate::uri::{is_authority, parse_authority, parse_uri, uri_text};
use crate::WELL_KNOWN_PATH;

verus! {

/// A WebFinger request: which resource to describe, which server to ask, and
/// which relation types to ask for (all that the server offers when there are
/// none).
#[derive(Debug)]
pub struct Request {
    /// The text of the resource's URI, as `http` writes the URI it parsed, for
    /// example `acct:carol@example.com`.
    pub resource: String,
    /// The authority (`host[:port]`) of the server to query. It is independent of
    /// any host inside `resource`.
    pub host: String,
    /// The relation types asked for, in the order in which they go into the query.
    pub rels: Vec<Rel>,
}

/// The texts of a sequence of relation types.
pub open spec fn rel_texts(rels: Seq<Rel>) -> Seq<Seq<char>> {
    rels.map_values(|r: Rel| r@)
}

/// One `&rel=<value>` parameter for each relation type, in order.
pub open spec fn rel_params(rels: Seq<Seq<char>>) -> Seq<char>
    decreases rels.len(),
{
    if rels.len() == 0 {
        Seq::empty()
    } else {
        rel_params(rels.drop_last()) + "&rel="@ + encode_component(rels.last())
    }
}

/// The query string of a request: `resource=<resource>` and then the `rel`
/// parameters.
pub open spec fn query_of(resource: Seq<char>, rels: Seq<Seq<char>>) -> Seq<char> {
    "resource="@ + encode_component(resource) + rel_params(rels)
}

/// The path and query of a request: the well-known path, `?`, and the query.
pub open spec fn path_and_query_of(resource: Seq<char>, rels: Seq<Seq<char>>) -> Seq<char> {
    WELL_KNOWN_PATH@ + "?"@ + query_of(resource, rels)
}

/// The full URI of a request: always `https`, with the host as the authority.
pub open spec fn uri_of(host: Seq<char>, resource: Seq<char>, rels: Seq<Seq<char>>) -> Seq<char> {
    "https://"@ + host + path_and_query_of(resource, rels)
}

impl Request {
    /// A request for the resource whose URI is `resource`, with no host and no
    /// relation types yet; `Error::InvalidResource` when `resource` is not a URI.
    pub fn new(resource: &str) -> (r: Result<Request, Error>)
        ensures
            uri_text(resource@) matches Some(t) ==> (r matches Ok(q) && q.resource@ == t
                && q.host@.len() == 0 && q.rels@.len() == 0),
            uri_text(resource@) is None ==> r matches Err(Error::InvalidResource(_)),
    {
        match parse_uri(resource) {
            Ok(text) => Ok(Request { resource: text, host: String::new(), rels: Vec::new() }),
            Err(e) => Err(Error::InvalidResource(e)),
        }
    }

    /// A builder that starts from `Request::new(resource)`.
    pub fn builder(resource: &str) -> (r: Result<Builder, Error>)
        ensures
            uri_text(resource@) matches Some(t) ==> (r matches Ok(b) && b@.resource@ == t
                && b@.host@.len() == 0 && b@.rels@.len() == 0),
            uri_text(resource@) is None ==> r matches Err(Error::InvalidResource(_)),
    {
        Builder::new(resource)
    }

    /// The path and query of the request's URI: the well-known path, then
    /// `?resource=` and the percent-encoded resource, then `&rel=` and the
    /// percent-encoded relation type for each relation type, in order.
    pub fn path_and_query(&self) -> (r: String)
        ensures
            r@ == path_and_query_of(self.resource@, rel_texts(self.rels@)),
    {
        let ghost rels = rel_texts(self.rels@);
        let ghost head = WELL_KNOWN_PATH@ + "?"@ + "resource="@ + encode_component(self.resource@);
        let mut out: Vec<u8> = Vec::new();
        append_text(&mut out, WELL_KNOWN_PATH);
        append_text(&mut out, "?");
        append_text(&mut out, "resource=");
        append_component(&mut out, self.resource.as_str());
        proof {
            lemma_encode_utf8_concat(WELL_KNOWN_PATH@, "?"@);
            lemma_encode_utf8_concat(WELL_KNOWN_PATH@ + "?"@, "resource="@);
            lemma_encode_utf8_concat(WELL_KNOWN_PATH@ + "?"@ + "resource="@, encode_component(self.resource@));
            assert(rels.take(0) =~= Seq::<Seq<char>>::empty());
            assert(head + rel_params(rels.take(0)) =~= head);
        }
        let n = self.rels.len();
        let mut i: usize = 0;
        while i < n
            invariant
                n == self.rels@.len(),
                rels == rel_texts(self.rels@),
                i <= n,
                out@ == encode_utf8(head + rel_params(rels.take(i as int))),
            decreases n - i,
        {
            let ghost before = head + rel_params(rels.take(i as int));
            append_text(&mut out, "&rel=");
            append_component(&mut out, self.rels[i].as_str());
            proof {
                let r = rels[i as int];
                assert(rels.take(i + 1).drop_last() =~= rels.take(i as int));
                assert(rels.take(i + 1).last() == r);
                lemma_encode_utf8_concat(before, "&rel="@);
                lemma_encode_utf8_concat(before + "&rel="@, encode_component(r));
                assert(head + rel_params(rels.take(i + 1)) =~= before + "&rel="@ + encode_component(r));
            }
            i += 1;
        }
        proof {
            assert(rels.take(n as int) =~= rels);
            assert(head + rel_params(rels) =~= path_and_query_of(self.resource@, rels));
        }
        string_of_utf8(out, Ghost(path_and_query_of(self.resource@, rels)))
    }

    /// The full URI of the request: `https://`, the host, and `path_and_query`;
    /// `Error::InvalidAuthority` when the host is empty or not an authority.
    pub fn uri(&self) -> (r: Result<String, Error>)
        ensures
            is_authority(self.host@) ==> (r matches Ok(u) && u@ == uri_of(
                self.host@,
                self.resource@,
                rel_texts(self.rels@),
            )),
            !is_authority(self.host@) ==> r matches Err(Error::InvalidAuthority(_)),
            self.host@.len() == 0 ==> r is Err,
    {
        match parse_authority(self.host.as_str()) {
            Err(e) => Err(Error::InvalidAuthority(e)),
            Ok(()) => {
                let path = self.path_and_query();
                let mut u = String::from_str("https://");
                u.append(self.host.as_str());
                u.append(path.as_str());
                proof {
                    assert(u@ =~= uri_of(self.host@, self.resource@, rel_texts(self.rels@)));
                }
                Ok(u)
            },
        }
    }
}

/// Whether `i` is the position of the first `@` in `s`.
pub open spec fn is_first_at(s: Seq<char>, i: int) -> bool {
    &&& 0 <= i < s.len()
    &&& s[i] == '@'
    &&& forall|t: int| 0 <= t < i ==> s[t] != '@'
}

/// What follows the first `@` of a resource (`acct:carol@example.com` gives
/// `example.com`), or `None` when it has no `@`.
pub open spec fn host_in_resource(resource: Seq<char>) -> Option<Seq<char>> {
    if exists|i: int| is_first_at(resource, i) {
        let i = choose|i: int| is_first_at(resource, i);
        Some(resource.skip(i + 1))
    } else {
        None
    }
}

/// The host to query for `resource`: `host` when it is given, and else what
/// follows the first `@` of the resource; `None` when neither gives one.
pub fn resolve_host(resource: &str, host: Option<&str>) -> (r: Option<String>)
    ensures
        host matches Some(h) ==> (r matches Some(s) && s@ == h@),
        host is None ==> (match host_in_resource(resource@) {
            Some(t) => r matches Some(s) && s@ == t,
            None => r is None,
        }),
{
    if let Some(h) = host {
        return Some(h.to_owned());
    }
    let n = resource.unicode_len();
    let mut i: usize = 0;
    while i < n
        invariant
            host is None,
            n == resource@.len(),
            i <= n,
            forall|t: int| 0 <= t < i ==> resource@[t] != '@',
        decreases n - i,
    {
        if resource.get_char(i) == '@' {
            proof {
                assert(is_first_at(resource@, i as int));
                let c = choose|c: int| is_first_at(resource@, c);
                assert(c == i) by {
                    if c < i {
                        assert(resource@[c] != '@');
                    } else if c > i {
                        assert(resource@[i as int] != '@');
                    }
                }
            }
            return Some(resource.substring_char(i + 1, n).to_owned());
        }
        i += 1;
    }
    assert(!exists|c: int| is_first_at(resource@, c));
    None
}

/// Builds a `Request` step by step.
#[derive(Debug)]
pub struct Builder {
    request: Request,
}

impl View for Builder {
    type V = Request;

    /// The request built so far.
    closed spec fn view(&self) -> Request {
        self.request
    }
}

impl Builder {
    /// A builder for a request for `resource`, with no host and no relation types;
    /// `Error::InvalidResource` when `resource` is not a URI.
    pub fn new(resource: &str) -> (r: Result<Builder, Error>)
        ensures
            uri_text(resource@) matches Some(t) ==> (r matches Ok(b) && b@.resource@ == t
                && b@.host@.len() == 0 && b@.rels@.len() == 0),
            uri_text(resource@) is None ==> r matches Err(Error::InvalidResource(_)),
    {
        match Request::new(resource) {
            Ok(request) => Ok(Builder { request }),
            Err(e) => Err(e),
        }
    }

    /// Sets the host to query.
    pub fn host(self, host: &str) -> (r: Builder)
        ensures
            r@.host@ == host@,
            r@.resource == self@.resource,
            r@.rels == self@.rels,
    {
        let mut request = self.request;
        request.host = host.to_owned();
        Builder { request }
    }

    /// Adds a relation type to ask for, after those added before.
    pub fn rel(self, rel: &str) -> (r: Builder)
        ensures
            r@.rels@.len() == self@.rels@.len() + 1,
            r@.rels@.drop_last() == self@.rels@,
            r@.rels@.last()@ == rel@,
            r@.resource == self@.resource,
            r@.host == self@.host,
    {
        let mut request = self.request;
        request.rels.push(Rel::new(rel));
        Builder { request }
    }

    /// The request built.
    pub fn build(self) -> (r: Request)
        ensures
            r == self@,
    {
        self.request
    }
}

} // verus!
