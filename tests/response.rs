use webfinger_rs::{Link, Rel, Response, Title};

#[test]
fn new_response_has_no_aliases_no_properties_and_no_links() {
    let response = Response::new("acct:carol@example.com");
    assert_eq!(response.subject, "acct:carol@example.com");
    assert!(response.aliases.is_none());
    assert!(response.properties.is_none());
    assert!(response.links.is_empty());
    let built = Response::builder("acct:carol@example.com").build();
    assert!(built.aliases.is_none());
    assert!(built.properties.is_none());
    assert!(built.links.is_empty());
}

#[test]
fn builder_collects_aliases_properties_and_links() {
    let avatar = Link::builder("http://webfinger.net/rel/avatar")
        .href("https://example.com/avatar.png")
        .build();
    let profile = Link::builder("http://webfinger.net/rel/profile-page")
        .href("https://example.com/profile/carol")
        .build();
    let response = Response::builder("acct:carol@example.com")
        .alias("https://example.com/profile/carol")
        .alias("https://example.com/~carol")
        .property("https://example.com/ns/role", "developer")
        .link(avatar)
        .link(profile)
        .build();
    assert_eq!(
        response.aliases,
        Some(vec![
            "https://example.com/profile/carol".to_string(),
            "https://example.com/~carol".to_string(),
        ])
    );
    assert_eq!(
        response.properties,
        Some(vec![("https://example.com/ns/role".to_string(), "developer".to_string())])
    );
    assert_eq!(response.links.len(), 2);
    assert_eq!(response.links[0].rel, Rel::new("http://webfinger.net/rel/avatar"));
    assert_eq!(response.links[1].href.as_deref(), Some("https://example.com/profile/carol"));
}

#[test]
fn property_set_twice_keeps_one_entry_with_the_last_value() {
    let response = Response::builder("acct:carol@example.com")
        .property("a", "1")
        .property("b", "2")
        .property("a", "3")
        .build();
    assert_eq!(
        response.properties,
        Some(vec![
            ("a".to_string(), "3".to_string()),
            ("b".to_string(), "2".to_string()),
        ])
    );
}

#[test]
fn links_replace_the_links() {
    let response = Response::builder("acct:carol@example.com")
        .link(Link::builder("a").build())
        .links(vec![Link::new(Rel::new("b")), Link::new(Rel::new("c"))])
        .build();
    let rels: Vec<&str> = response.links.iter().map(|l| l.rel.as_str()).collect();
    assert_eq!(rels, vec!["b", "c"]);
}

#[test]
fn same_rel_twice_is_kept_twice() {
    let response = Response::builder("acct:carol@example.com")
        .link(Link::from(Link::builder("a").href("x")))
        .link(Link::from(Link::builder("a").href("y")))
        .build();
    assert_eq!(response.links.len(), 2);
    assert_eq!(response.links[0].rel, response.links[1].rel);
}

#[test]
fn link_builder_sets_every_member() {
    let link = Link::builder("http://webfinger.net/rel/profile-page")
        .media_type("text/html")
        .href("https://example.com/profile/carol")
        .title("en-us", "Carol's Profile")
        .title("und", "Carol")
        .property("http://example.com/ns/verified", Some("true"))
        .property("http://example.com/ns/pending", None)
        .property("http://example.com/ns/verified", None)
        .build();
    assert_eq!(link.rel.as_str(), "http://webfinger.net/rel/profile-page");
    assert_eq!(link.media_type.as_deref(), Some("text/html"));
    assert_eq!(link.href.as_deref(), Some("https://example.com/profile/carol"));
    let titles = link.titles.unwrap();
    assert_eq!(titles.len(), 2);
    assert_eq!(titles[0].language, "en-us");
    assert_eq!(titles[0].value, "Carol's Profile");
    assert_eq!(titles[1].language, "und");
    assert_eq!(
        link.properties,
        Some(vec![
            ("http://example.com/ns/verified".to_string(), None),
            ("http://example.com/ns/pending".to_string(), None),
        ])
    );
}

#[test]
fn link_titles_and_properties_replace() {
    let link = Link::builder("a")
        .title("en", "old")
        .titles(vec![Title::new("de", "neu")])
        .properties(vec![("k".to_string(), Some("v".to_string()))])
        .build();
    let titles = link.titles.unwrap();
    assert_eq!(titles.len(), 1);
    assert_eq!(titles[0].language, "de");
    assert_eq!(link.properties, Some(vec![("k".to_string(), Some("v".to_string()))]));
}

#[test]
fn new_link_has_only_its_rel() {
    let link = Link::new(Rel::new("a"));
    assert_eq!(link.rel, Rel::new("a"));
    assert!(link.media_type.is_none());
    assert!(link.href.is_none());
    assert!(link.titles.is_none());
    assert!(link.properties.is_none());
}
