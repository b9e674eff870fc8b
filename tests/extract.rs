use webfinger_rs::request::resolve_host;
use webfinger_rs::extract::parse_query;
use webfinger_rs::{Rejection, Rel, Request};

const VALID_RESOURCE: &str = "acct:carol@example.com";

#[test]
fn valid_request() {
    let query = format!("resource={VALID_RESOURCE}");
    let request = Request::extract(Some("example.com"), None, &query).unwrap();
    assert_eq!(request.resource, "acct:carol@example.com");
    assert_eq!(request.host, "example.com");
    assert!(request.rels.is_empty());
}

#[test]
fn valid_request_with_host_header() {
    let query = format!("resource={VALID_RESOURCE}");
    let request = Request::extract(None, Some("example.com"), &query).unwrap();
    assert_eq!(request.resource, "acct:carol@example.com");
    assert_eq!(request.host, "example.com");
}

#[test]
fn request_with_no_host() {
    let query = format!("resource={VALID_RESOURCE}");
    let rejection = Request::extract(None, None, &query).unwrap_err();
    assert!(matches!(rejection, Rejection::MissingHost));
}

#[test]
fn request_with_missing_resource() {
    let rejection = Request::extract(None, Some("example.com"), "").unwrap_err();
    match rejection {
        Rejection::InvalidQueryString(message) => assert_eq!(
            message,
            "Failed to deserialize query string: missing field `resource`",
        ),
        other => panic!("unexpected rejection: {other:?}"),
    }
}

#[test]
fn request_with_invalid_resource() {
    let rejection = Request::extract(Some("example.com"), None, "resource=%").unwrap_err();
    match rejection {
        Rejection::InvalidResource(e) => assert_eq!(e.to_string(), "invalid authority"),
        other => panic!("unexpected rejection: {other:?}"),
    }
}

#[test]
fn uri_authority_wins_over_host_header() {
    let query = format!("resource={VALID_RESOURCE}");
    let request = Request::extract(Some("example.com"), Some("other.example.org"), &query).unwrap();
    assert_eq!(request.host, "example.com");
}

#[test]
fn rels_are_collected_in_order() {
    let query = "resource=acct:carol@example.com&rel=http://webfinger.net/rel/avatar&rel=http%3A%2F%2Fwebfinger.net%2Frel%2Fprofile-page";
    let request = Request::extract(Some("example.com"), None, query).unwrap();
    assert_eq!(
        request.rels,
        vec![
            Rel::new("http://webfinger.net/rel/avatar"),
            Rel::new("http://webfinger.net/rel/profile-page"),
        ]
    );
}

#[test]
fn empty_and_unknown_parameters_are_skipped() {
    let query = "&&x=1&rel=a&&resource=acct%3Acarol%40example.com&y&";
    let request = Request::extract(Some("example.com"), None, query).unwrap();
    assert_eq!(request.resource, "acct:carol@example.com");
    assert_eq!(request.rels, vec![Rel::new("a")]);
}

#[test]
fn value_keeps_everything_after_the_first_equals() {
    let (resource, rels) = parse_query("resource=acct:a@b&rel=x=y").unwrap();
    assert_eq!(resource, "acct:a@b");
    assert_eq!(rels, vec![Rel::new("x=y")]);
}

#[test]
fn two_resources_are_refused() {
    let rejection =
        Request::extract(Some("example.com"), None, "resource=acct:a@b&resource=acct:c@d").unwrap_err();
    assert!(matches!(rejection, Rejection::InvalidQueryString(_)));
}

#[test]
fn parameter_that_is_not_utf8_is_refused() {
    let rejection = Request::extract(Some("example.com"), None, "resource=acct:a@b&rel=%FF").unwrap_err();
    assert!(matches!(rejection, Rejection::InvalidQueryString(_)));
}

#[test]
fn missing_host_comes_before_query_errors() {
    let rejection = Request::extract(None, None, "").unwrap_err();
    assert!(matches!(rejection, Rejection::MissingHost));
}

#[test]
fn request_round_trips_through_its_query() {
    let request = Request::builder("acct:carol@example.com")
        .unwrap()
        .host("example.com")
        .rel("http://webfinger.net/rel/profile-page")
        .rel("a b&c=d é")
        .build();
    let path = request.path_and_query();
    let query = path.split_once('?').unwrap().1;
    let back = Request::extract(Some("example.com"), None, query).unwrap();
    assert_eq!(back.resource, request.resource);
    assert_eq!(back.rels, request.rels);
}

#[test]
fn host_defaults_to_what_follows_the_at() {
    assert_eq!(resolve_host("acct:carol@example.com", None).as_deref(), Some("example.com"));
    assert_eq!(resolve_host("acct:a@b@c", None).as_deref(), Some("b@c"));
    assert_eq!(
        resolve_host("acct:carol@example.com", Some("localhost:3000")).as_deref(),
        Some("localhost:3000")
    );
    assert_eq!(resolve_host("http://blog.example.com/", None), None);
}
