//! Reading a WebFinger request back from an inbound HTTP request: the host from
//! the request's URI or its `Host` header, and the `resource` and `rel`
//! parameters from its raw query string.
//!
//! The query string is read as repeated `name=value` parameters separated by `&`,
//! so that each `rel` parameter adds one relation type, in the order in which
//! they appear.
use vstd::prelude::*;
use vstd::slice::slice_subrange;
use vstd::string::*;

use crate::error::Rejection;
use crate::percent::{decode_component, percent_decode_utf8};
use crate::query::split_seq;
use crate::rel::Rel;
use crate::request::{rel_texts, Request};
use crate::uri::{parse_uri, uri_text};

verus! {

/// The byte `&`, which separates the parameters of a query string.
pub const AMPERSAND: u8 = 0x26;

/// The byte `=`, which separates a parameter's name from its value.
pub const EQUALS: u8 = 0x3d;

/// Whether `i` is the position of the first `=` in a parameter.
pub open spec fn is_first_equals(param: Seq<u8>, i: int) -> bool {
    &&& 0 <= i < param.len()
    &&& param[i] == EQUALS
    &&& forall|t: int| 0 <= t < i ==> param[t] != EQUALS
}

/// Where a parameter's name ends: at its first `=`, or at its end.
pub open spec fn name_end(param: Seq<u8>) -> int {
    if exists|i: int| is_first_equals(param, i) {
        choose|i: int| is_first_equals(param, i)
    } else {
        param.len() as int
    }
}

/// The name of a parameter: what comes before its first `=`.
pub open spec fn param_name(param: Seq<u8>) -> Seq<u8> {
    param.take(name_end(param))
}

/// The value of a parameter: what comes after its first `=`; empty without one.
pub open spec fn param_value(param: Seq<u8>) -> Seq<u8> {
    if name_end(param) < param.len() {
        param.skip(name_end(param) + 1)
    } else {
        Seq::empty()
    }
}

/// The decoded name and value of a parameter, or `None` when one of them does not
/// decode.
pub open spec fn decode_param(param: Seq<u8>) -> Option<(Seq<char>, Seq<char>)> {
    match (decode_component(param_name(param)), decode_component(param_value(param))) {
        (Some(n), Some(v)) => Some((n, v)),
        _ => None,
    }
}

/// The decoded parameters of a query, in order, from the pieces between its `&`s;
/// empty pieces are skipped, and the whole is `None` when one piece does not
/// decode.
pub open spec fn decoded_params(pieces: Seq<Seq<u8>>) -> Option<Seq<(Seq<char>, Seq<char>)>>
    decreases pieces.len(),
{
    if pieces.len() == 0 {
        Some(Seq::empty())
    } else {
        match decoded_params(pieces.drop_last()) {
            None => None,
            Some(ps) => if pieces.last().len() == 0 {
                Some(ps)
            } else {
                match decode_param(pieces.last()) {
                    None => None,
                    Some(p) => Some(ps.push(p)),
                }
            },
        }
    }
}

/// The values of the parameters with the given name, in order.
pub open spec fn values_named(ps: Seq<(Seq<char>, Seq<char>)>, name: Seq<char>) -> Seq<Seq<char>>
    decreases ps.len(),
{
    if ps.len() == 0 {
        Seq::empty()
    } else if ps.last().0 == name {
        values_named(ps.drop_last(), name).push(ps.last().1)
    } else {
        values_named(ps.drop_last(), name)
    }
}

/// The resource and the relation types that a raw query string asks for: the
/// value of its single `resource` parameter and the values of its `rel`
/// parameters, in order. `None` when a parameter does not decode, or when there is
/// no `resource` parameter or more than one.
pub open spec fn query_fields(query: Seq<u8>) -> Option<(Seq<char>, Seq<Seq<char>>)> {
    match decoded_params(split_seq(query, AMPERSAND)) {
        None => None,
        Some(ps) => {
            let found = values_named(ps, "resource"@);
            if found.len() == 1 {
                Some((found[0], values_named(ps, "rel"@)))
            } else {
                None
            }
        },
    }
}

/// The fields of a query read so far.
struct Fields {
    /// A parameter did not decode.
    failed: bool,
    /// The first `resource` value.
    resource: Option<String>,
    /// There was more than one `resource` parameter.
    duplicate: bool,
    /// The `rel` values.
    rels: Vec<Rel>,
}

impl Fields {
    /// The fields hold what the decoded parameters `d` give.
    spec fn holds(&self, d: Option<Seq<(Seq<char>, Seq<char>)>>) -> bool {
        match d {
            None => self.failed,
            Some(ps) => {
                let found = values_named(ps, "resource"@);
                &&& !self.failed
                &&& (self.resource is None <==> found.len() == 0)
                &&& (self.resource matches Some(r) ==> r@ == found[0])
                &&& (self.duplicate <==> found.len() > 1)
                &&& rel_texts(self.rels@) == values_named(ps, "rel"@)
            },
        }
    }
}

/// Reads one more piece of a query into the fields.
fn take_param(fields: &mut Fields, param: &[u8], pieces: Ghost<Seq<Seq<u8>>>)
    requires
        old(fields).holds(decoded_params(pieces@)),
    ensures
        final(fields).holds(decoded_params(pieces@.push(param@))),
{
    let ghost all = pieces@.push(param@);
    proof {
        assert(all.drop_last() =~= pieces@);
        assert(all.last() == param@);
    }
    if fields.failed || param.len() == 0 {
        return;
    }
    let n = param.len();
    let mut e: usize = 0;
    while e < n && param[e] != EQUALS
        invariant
            n == param@.len(),
            e <= n,
            forall|t: int| 0 <= t < e ==> param@[t] != EQUALS,
        decreases n - e,
    {
        e += 1;
    }
    proof {
        if e < n {
            assert(is_first_equals(param@, e as int));
            let c = choose|i: int| is_first_equals(param@, i);
            assert(c == e) by {
                if c < e {
                    assert(param@[c] != EQUALS);
                } else if c > e {
                    assert(param@[e as int] != EQUALS);
                }
            }
        } else {
            assert(!exists|i: int| is_first_equals(param@, i));
        }
    }
    let name = slice_subrange(param, 0, e);
    let value = if e < n {
        slice_subrange(param, e + 1, n)
    } else {
        slice_subrange(param, n, n)
    };
    assert(name@ =~= param_name(param@));
    assert(value@ =~= param_value(param@));
    let decoded_name = percent_decode_utf8(name);
    let decoded_value = percent_decode_utf8(value);
    match (decoded_name, decoded_value) {
        (Some(name), Some(value)) => {
            let ghost ps = decoded_params(pieces@)->Some_0;
            let ghost p = (name@, value@);
            assert(decoded_params(all) == Some(ps.push(p)));
            let resource_name = String::from_str("resource");
            let rel_name = String::from_str("rel");
            proof {
                reveal_strlit("resource");
                reveal_strlit("rel");
                assert(ps.push(p).drop_last() =~= ps);
            }
            if name == resource_name {
                assert(p.0 != "rel"@) by {
                    assert(p.0.len() != "rel"@.len());
                }
                assert(values_named(ps.push(p), "rel"@) == values_named(ps, "rel"@));
                if fields.resource.is_none() {
                    fields.resource = Some(value);
                } else {
                    fields.duplicate = true;
                }
            } else if name == rel_name {
                let ghost before = fields.rels@;
                fields.rels.push(Rel::new(value.as_str()));
                assert(rel_texts(fields.rels@) =~= rel_texts(before).push(value@));
            }
        },
        _ => {
            fields.failed = true;
        },
    }
}

/// Reads the resource and the relation types of a raw query string; when it is
/// not well formed (see `query_fields`), a message that says why.
pub fn parse_query(query: &str) -> (r: Result<(String, Vec<Rel>), String>)
    ensures
        query_fields(query.spec_bytes()) is None ==> r is Err,
        query_fields(query.spec_bytes()) matches Some((resource, rels)) ==> (r matches Ok((
            s,
            v,
        )) && s@ == resource && rel_texts(v@) == rels),
{
    let bytes = query.as_bytes();
    let ghost q = bytes@;
    let n = bytes.len();
    let mut fields = Fields { failed: false, resource: None, duplicate: false, rels: Vec::new() };
    let mut start: usize = 0;
    let mut i: usize = 0;
    proof {
        assert(q.take(0) =~= Seq::<u8>::empty());
        assert(split_seq(q.take(0), AMPERSAND).drop_last() =~= Seq::<Seq<u8>>::empty());
        assert(rel_texts(fields.rels@) =~= Seq::<Seq<char>>::empty());
    }
    while i < n
        invariant
            q == bytes@,
            n == q.len(),
            start <= i <= n,
            split_seq(q.take(i as int), AMPERSAND).len() >= 1,
            split_seq(q.take(i as int), AMPERSAND).last() == q.subrange(start as int, i as int),
            fields.holds(decoded_params(split_seq(q.take(i as int), AMPERSAND).drop_last())),
        decreases n - i,
    {
        let ghost segs = split_seq(q.take(i as int), AMPERSAND);
        assert(q.take(i + 1).drop_last() =~= q.take(i as int));
        assert(q.take(i + 1).last() == q[i as int]);
        if bytes[i] == AMPERSAND {
            let piece = slice_subrange(bytes, start, i);
            take_param(&mut fields, piece, Ghost(segs.drop_last()));
            assert(segs.drop_last().push(piece@) =~= segs);
            assert(split_seq(q.take(i + 1), AMPERSAND) == segs.push(Seq::empty()));
            assert(segs.push(Seq::<u8>::empty()).drop_last() =~= segs);
            start = i + 1;
            assert(q.subrange(start as int, start as int) =~= Seq::<u8>::empty());
        } else {
            let ghost next = split_seq(q.take(i + 1), AMPERSAND);
            assert(next == segs.update(segs.len() - 1, segs.last().push(q[i as int])));
            assert(next.drop_last() =~= segs.drop_last());
            assert(q.subrange(start as int, i + 1) =~= q.subrange(start as int, i as int).push(
                q[i as int],
            ));
        }
        i += 1;
    }
    let ghost segs = split_seq(q, AMPERSAND);
    assert(q.take(n as int) =~= q);
    let last = slice_subrange(bytes, start, n);
    take_param(&mut fields, last, Ghost(segs.drop_last()));
    assert(segs.drop_last().push(last@) =~= segs);
    if fields.failed {
        return Err(String::from_str("Failed to deserialize query string: a parameter is not percent-encoded UTF-8"));
    }
    match fields.resource {
        None => Err(String::from_str("Failed to deserialize query string: missing field `resource`")),
        Some(resource) => {
            if fields.duplicate {
                Err(String::from_str("Failed to deserialize query string: duplicate field `resource`"))
            } else {
                Ok((resource, fields.rels))
            }
        },
    }
}

impl Request {
    /// The WebFinger request that an inbound HTTP request makes.
    ///
    /// The host is the authority of the request's URI when it has one, and else
    /// its `Host` header (`Rejection::MissingHost` when there is neither). The
    /// resource and the relation types come from the raw query string
    /// (`Rejection::InvalidQueryString` when it is not well formed, see
    /// `query_fields`), and the resource must be a URI
    /// (`Rejection::InvalidResource`).
    pub fn extract(authority: Option<&str>, host_header: Option<&str>, query: &str) -> (r: Result<
        Request,
        Rejection,
    >)
        ensures
            authority is None && host_header is None ==> r matches Err(Rejection::MissingHost),
            authority is Some || host_header is Some ==> {
                let host = if authority is Some {
                    authority->Some_0@
                } else {
                    host_header->Some_0@
                };
                match query_fields(query.spec_bytes()) {
                    None => r matches Err(Rejection::InvalidQueryString(_)),
                    Some((resource, rels)) => match uri_text(resource) {
                        None => r matches Err(Rejection::InvalidResource(_)),
                        Some(t) => r matches Ok(req) && req.resource@ == t && req.host@ == host
                            && rel_texts(req.rels@) == rels,
                    },
                }
            },
    {
        let host = match authority {
            Some(h) => h.to_owned(),
            None => match host_header {
                Some(h) => h.to_owned(),
                None => {
                    return Err(Rejection::MissingHost);
                },
            },
        };
        match parse_query(query) {
            Err(message) => Err(Rejection::InvalidQueryString(message)),
            Ok((resource, rels)) => match parse_uri(resource.as_str()) {
                Err(e) => Err(Rejection::InvalidResource(e)),
                Ok(text) => Ok(Request { resource: text, host, rels }),
            },
        }
    }
}

} // verus!
