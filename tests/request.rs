use webfinger_rs::{check_status, Error, Rel, Request, WELL_KNOWN_PATH};

/// https://www.rfc-editor.org/rfc/rfc7033.html#section-3.1
#[test]
fn example_3_1() {
    let resource = Request::new("acct:carol@example.com").unwrap().resource;
    let rel = Rel::new("http://openid.net/specs/connect/1.0/issuer");
    let host = "example.com".to_string();
    let query = Request {
        host,
        resource,
        rels: vec![rel],
    };
    let uri = query.uri().unwrap();

    // The RFC percent-encodes more than is needed:
    // `"/.well-known/webfinger?resource=acct%3Acarol%40example.com&rel=http%3A%2F%2Fopenid.net%
    // 2Fspecs%2Fconnect%2F1.0%2Fissuer"`
    assert_eq!(
        uri,
        "https://example.com/.well-known/webfinger?resource=acct:carol@example.com&rel=http://openid.net/specs/connect/1.0/issuer",
    );
}

/// https://www.rfc-editor.org/rfc/rfc7033.html#section-3.2
#[test]
fn example_3_2() {
    let resource = Request::new("http://blog.example.com/article/id/314").unwrap().resource;
    let query = Request {
        host: "blog.example.com".to_string(),
        resource,
        rels: vec![],
    };
    let uri = query.uri().unwrap();

    // The RFC percent-encodes more than is needed:
    // /.well-known/webfinger?resource=http%3A%2F%2Fblog.example.com%2Farticle%2Fid%2F314
    assert_eq!(
        uri,
        "https://blog.example.com/.well-known/webfinger?resource=http://blog.example.com/article/id/314",
    );
}

#[test]
fn path_of_openid_issuer_query() {
    let request = Request::builder("acct:carol@example.com")
        .unwrap()
        .host("example.com")
        .rel("http://openid.net/specs/connect/1.0/issuer")
        .build();
    assert_eq!(
        request.path_and_query(),
        "/.well-known/webfinger?resource=acct:carol@example.com&rel=http://openid.net/specs/connect/1.0/issuer",
    );
}

#[test]
fn rels_appear_once_each_in_order() {
    let request = Request::builder("acct:carol@example.com")
        .unwrap()
        .host("example.com")
        .rel("http://webfinger.net/rel/profile-page")
        .rel("http://webfinger.net/rel/avatar")
        .rel("http://webfinger.net/rel/profile-page")
        .build();
    let path = request.path_and_query();
    let query = path.split_once('?').unwrap().1;
    let params: Vec<&str> = query.split('&').collect();
    assert_eq!(
        params,
        vec![
            "resource=acct:carol@example.com",
            "rel=http://webfinger.net/rel/profile-page",
            "rel=http://webfinger.net/rel/avatar",
            "rel=http://webfinger.net/rel/profile-page",
        ]
    );
    assert_eq!(path.matches("rel=").count(), 3);
}

#[test]
fn no_rels_gives_only_the_resource() {
    let request = Request::builder("acct:carol@example.com").unwrap().build();
    assert_eq!(
        request.path_and_query(),
        "/.well-known/webfinger?resource=acct:carol@example.com"
    );
    assert!(request.path_and_query().starts_with(WELL_KNOWN_PATH));
}

#[test]
fn encoding_keeps_uri_delimiters_and_escapes_separators() {
    let request = Request {
        resource: "acct:a@b".to_string(),
        host: "example.com".to_string(),
        rels: vec![Rel::new("x:/?@&=y")],
    };
    assert_eq!(
        request.path_and_query(),
        "/.well-known/webfinger?resource=acct:a@b&rel=x:/?@%26%3Dy"
    );
}

#[test]
fn encoding_escapes_reserved_and_non_ascii() {
    let request = Request {
        resource: "a b\"#<>[\\]^`{|}%é\u{7f}\t".to_string(),
        host: "example.com".to_string(),
        rels: vec![],
    };
    assert_eq!(
        request.path_and_query(),
        "/.well-known/webfinger?resource=a%20b%22%23%3C%3E%5B%5C%5D%5E%60%7B%7C%7D%%C3%A9%7F%09"
    );
}

#[test]
fn uri_needs_an_authority() {
    let request = Request::builder("acct:carol@example.com").unwrap().build();
    assert!(matches!(request.uri(), Err(Error::InvalidAuthority(_))));
    let request = Request::builder("acct:carol@example.com")
        .unwrap()
        .host("exa mple.com")
        .build();
    assert!(matches!(request.uri(), Err(Error::InvalidAuthority(_))));
}

#[test]
fn uri_keeps_the_port() {
    let request = Request::builder("acct:carol@localhost")
        .unwrap()
        .host("localhost:3000")
        .build();
    assert_eq!(
        request.uri().unwrap(),
        "https://localhost:3000/.well-known/webfinger?resource=acct:carol@localhost"
    );
}

#[test]
fn invalid_resource_is_refused() {
    assert!(matches!(Request::new("%"), Err(Error::InvalidResource(_))));
    assert!(matches!(Request::builder(""), Err(Error::InvalidResource(_))));
}

#[test]
fn resource_is_kept_as_the_parsed_uri_writes_it() {
    let request = Request::new("HTTP://example.com/a").unwrap();
    assert_eq!(request.resource, "http://example.com/a");
    assert_eq!(request.host, "");
    assert!(request.rels.is_empty());
}

#[test]
fn builder_sets_host_and_rels() {
    let request = Request::builder("acct:carol@example.com")
        .unwrap()
        .host("example.com")
        .rel("a")
        .rel("b")
        .build();
    assert_eq!(request.host, "example.com");
    assert_eq!(request.rels, vec![Rel::new("a"), Rel::new("b")]);
}

#[test]
fn status_outside_success_range_is_an_error() {
    assert!(check_status(200).is_ok());
    assert!(check_status(204).is_ok());
    assert!(check_status(299).is_ok());
    assert!(matches!(check_status(199), Err(Error::HttpStatus(199))));
    assert!(matches!(check_status(301), Err(Error::HttpStatus(301))));
    assert!(matches!(check_status(404), Err(Error::HttpStatus(404))));
    assert!(matches!(check_status(500), Err(Error::HttpStatus(500))));
}

#[test]
fn rel_keeps_its_text() {
    let rel = Rel::new("http://webfinger.net/rel/avatar");
    assert_eq!(rel.as_str(), "http://webfinger.net/rel/avatar");
    assert_eq!(rel.clone(), rel);
    assert_ne!(rel, Rel::new("http://webfinger.net/rel/Avatar"));
    assert_eq!(rel.into_inner(), "http://webfinger.net/rel/avatar".to_string());
}
