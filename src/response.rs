//! The JSON Resource Descriptor (JRD) that a WebFinger server answers with: a
//! subject, optional aliases and properties, and an ordered list of links.
//!
//! An absent `aliases` or `properties` (`None`) and an empty one (`Some` of an
//! empty list) are different states of the descriptor: the first leaves the
//! member out of the JSON, the second writes an empty array or object.
use vstd::prelude::*;

use crate::rel::Rel;

verus! {

/// The keys of a property list.
pub open spec fn keys_of<V>(ps: Seq<(String, V)>) -> Seq<Seq<char>> {
    ps.map_values(|p: (String, V)| p.0@)
}

/// No key occurs twice in a property list.
pub open spec fn unique_keys<V>(ps: Seq<(String, V)>) -> bool {
    forall|i: int, j: int|
        0 <= i < ps.len() && 0 <= j < ps.len() && i != j ==> #[trigger] ps[i].0@ != #[trigger] ps[j].0@
}

/// A property list, empty when absent.
pub open spec fn props_or_empty<V>(ps: Option<Vec<(String, V)>>) -> Seq<(String, V)> {
    match ps {
        Some(v) => v@,
        None => Seq::empty(),
    }
}

/// `after` is `before` with `entry` set for its key: in the place of the entry
/// with that key when there is one, otherwise appended at the end.
pub open spec fn sets_entry<V>(before: Seq<(String, V)>, after: Seq<(String, V)>, entry: (String, V)) -> bool {
    &&& sets_key(before, after, entry.0@)
    &&& forall|i: int| 0 <= i < after.len() && after[i].0@ == entry.0@ ==> #[trigger] after[i] == entry
}

/// `after` is `before` with the entry for `key` set anew: every other entry stays
/// in its place, and an entry for `key` is appended when there was none.
pub open spec fn sets_key<V>(before: Seq<(String, V)>, after: Seq<(String, V)>, key: Seq<char>) -> bool {
    &&& after.len() == before.len() + (if keys_of(before).contains(key) { 0int } else { 1int })
    &&& keys_of(after).contains(key)
    &&& forall|i: int|
        0 <= i < after.len() && after[i].0@ != key ==> i < before.len() && #[trigger] after[i]
            == before[i]
}

/// Sets an entry in a property list whose keys are unique, keeping them unique.
fn set_entry<V>(ps: &mut Vec<(String, V)>, entry: (String, V))
    requires
        unique_keys(old(ps)@),
    ensures
        unique_keys(final(ps)@),
        sets_entry(old(ps)@, final(ps)@, entry),
{
    let n = ps.len();
    let mut i: usize = 0;
    while i < n
        invariant
            ps@ == old(ps)@,
            unique_keys(ps@),
            n == ps@.len(),
            i <= n,
            forall|j: int| 0 <= j < i ==> ps@[j].0@ != entry.0@,
        decreases n - i,
    {
        if ps[i].0 == entry.0 {
            let ghost before = ps@;
            ps.set(i, entry);
            proof {
                assert(keys_of(before)[i as int] == entry.0@);
                assert(keys_of(before).contains(entry.0@));
                assert(keys_of(ps@)[i as int] == entry.0@);
                assert forall|j: int| 0 <= j < ps@.len() && j != i implies ps@[j].0@ != entry.0@ by {
                    assert(before[j].0@ != before[i as int].0@);
                }
                assert forall|a: int, b: int|
                    0 <= a < ps@.len() && 0 <= b < ps@.len() && a != b implies #[trigger] ps@[a].0@
                    != #[trigger] ps@[b].0@ by {
                    if a != i && b != i {
                        assert(before[a].0@ != before[b].0@);
                    }
                }
            }
            return;
        }
        i += 1;
    }
    let ghost before = ps@;
    ps.push(entry);
    proof {
        assert(!keys_of(before).contains(entry.0@)) by {
            if keys_of(before).contains(entry.0@) {
                let k = choose|k: int| 0 <= k < keys_of(before).len() && keys_of(before)[k] == entry.0@;
                assert(before[k].0@ == entry.0@);
            }
        }
        assert forall|a: int, b: int|
            0 <= a < ps@.len() && 0 <= b < ps@.len() && a != b implies #[trigger] ps@[a].0@
            != #[trigger] ps@[b].0@ by {
            if a < before.len() && b < before.len() {
                assert(before[a].0@ != before[b].0@);
            }
        }
        assert(keys_of(ps@)[n as int] == entry.0@);
        assert(sets_entry(before, ps@, entry));
    }
}

/// A WebFinger response: what the server says about the resource.
#[derive(Debug)]
pub struct Response {
    /// The URI of the resource described.
    pub subject: String,
    /// Other URIs of the same resource, in order; `None` leaves them out.
    pub aliases: Option<Vec<String>>,
    /// Properties of the resource, each key once; `None` leaves them out.
    pub properties: Option<Vec<(String, String)>>,
    /// The links, in order; there may be several with one relation type.
    pub links: Vec<Link>,
}

impl Response {
    /// The keys of the response's properties, and of each link's, are unique.
    pub open spec fn wf(&self) -> bool {
        &&& unique_keys(props_or_empty(self.properties))
        &&& forall|i: int| 0 <= i < self.links@.len() ==> #[trigger] self.links@[i].wf()
    }

    /// A response about `subject`, with no aliases, no properties and no links.
    pub fn new(subject: &str) -> (r: Response)
        ensures
            r.subject@ == subject@,
            r.aliases is None,
            r.properties is None,
            r.links@.len() == 0,
            r.wf(),
    {
        Response { subject: subject.to_owned(), aliases: None, properties: None, links: Vec::new() }
    }

    /// A builder that starts from `Response::new(subject)`.
    pub fn builder(subject: &str) -> (r: Builder)
        ensures
            r@.subject@ == subject@,
            r@.aliases is None,
            r@.properties is None,
            r@.links@.len() == 0,
            r@.wf(),
    {
        Builder::new(subject)
    }
}

/// Builds a `Response` step by step.
#[derive(Debug)]
pub struct Builder {
    response: Response,
}

impl View for Builder {
    type V = Response;

    /// The response built so far.
    closed spec fn view(&self) -> Response {
        self.response
    }
}

impl Builder {
    /// A builder for a response about `subject`, with no aliases, no properties and
    /// no links.
    pub fn new(subject: &str) -> (r: Builder)
        ensures
            r@.subject@ == subject@,
            r@.aliases is None,
            r@.properties is None,
            r@.links@.len() == 0,
            r@.wf(),
    {
        Builder { response: Response::new(subject) }
    }

    /// Adds an alias after those added before.
    pub fn alias(self, alias: &str) -> (r: Builder)
        ensures
            r@.aliases matches Some(a) && {
                let before = match self@.aliases {
                    Some(b) => b@,
                    None => Seq::empty(),
                };
                &&& a@.len() == before.len() + 1
                &&& a@.drop_last() == before
                &&& a@.last()@ == alias@
            },
            r@.subject == self@.subject,
            r@.properties == self@.properties,
            r@.links == self@.links,
            self@.wf() ==> r@.wf(),
    {
        let mut response = self.response;
        let mut aliases = match response.aliases {
            Some(a) => a,
            None => Vec::new(),
        };
        let ghost before = aliases@;
        aliases.push(alias.to_owned());
        assert(aliases@.drop_last() =~= before);
        response.aliases = Some(aliases);
        Builder { response }
    }

    /// Sets a property: in place when the key is there already, otherwise after
    /// the properties set before.
    pub fn property(self, key: &str, value: &str) -> (r: Builder)
        requires
            unique_keys(props_or_empty(self@.properties)),
        ensures
            r@.properties matches Some(p) && sets_key(props_or_empty(self@.properties), p@, key@)
                && forall|i: int| 0 <= i < p@.len() && p@[i].0@ == key@ ==> #[trigger] p@[i].1@ == value@,
            r@.subject == self@.subject,
            r@.aliases == self@.aliases,
            r@.links == self@.links,
            unique_keys(props_or_empty(r@.properties)),
            self@.wf() ==> r@.wf(),
    {
        let mut response = self.response;
        let mut properties = match response.properties {
            Some(p) => p,
            None => Vec::new(),
        };
        let entry = (key.to_owned(), value.to_owned());
        let ghost e = entry;
        let ghost before = properties@;
        set_entry(&mut properties, entry);
        assert(e.0@ == key@ && e.1@ == value@ && sets_entry(before, properties@, e));
        response.properties = Some(properties);
        Builder { response }
    }

    /// Adds a link after those added before.
    pub fn link(self, link: Link) -> (r: Builder)
        ensures
            r@.links@ == self@.links@.push(link),
            r@.subject == self@.subject,
            r@.aliases == self@.aliases,
            r@.properties == self@.properties,
            self@.wf() && link.wf() ==> r@.wf(),
    {
        let mut response = self.response;
        let ghost before = response.links@;
        response.links.push(link);
        proof {
            if self@.wf() && link.wf() {
                assert forall|i: int| 0 <= i < response.links@.len() implies #[trigger] response.links@[i].wf() by {
                    if i < before.len() {
                        assert(response.links@[i] == before[i]);
                    }
                }
            }
        }
        Builder { response }
    }

    /// Replaces the links.
    pub fn links(self, links: Vec<Link>) -> (r: Builder)
        ensures
            r@.links == links,
            r@.subject == self@.subject,
            r@.aliases == self@.aliases,
            r@.properties == self@.properties,
            self@.wf() && (forall|i: int| 0 <= i < links@.len() ==> #[trigger] links@[i].wf())
                ==> r@.wf(),
    {
        let mut response = self.response;
        response.links = links;
        Builder { response }
    }

    /// The response built.
    pub fn build(self) -> (r: Response)
        ensures
            r == self@,
    {
        self.response
    }
}

/// A link of a response: a relation type and what it points to.
#[derive(Debug)]
pub struct Link {
    /// The relation type.
    pub rel: Rel,
    /// The media type of the target (the JSON member `type`).
    pub media_type: Option<String>,
    /// The URI of the target.
    pub href: Option<String>,
    /// Titles of the link, in order, each in a language.
    pub titles: Option<Vec<Title>>,
    /// Properties of the link, each key once; a property may be present with no
    /// value (`Some(None)` in the list, `null` in JSON).
    pub properties: Option<Vec<(String, Option<String>)>>,
}

impl Link {
    /// The keys of the link's properties are unique.
    pub open spec fn wf(&self) -> bool {
        unique_keys(props_or_empty(self.properties))
    }

    /// A link with relation type `rel` and nothing else.
    pub fn new(rel: Rel) -> (r: Link)
        ensures
            r.rel == rel,
            r.media_type is None,
            r.href is None,
            r.titles is None,
            r.properties is None,
            r.wf(),
    {
        Link { rel, media_type: None, href: None, titles: None, properties: None }
    }

    /// A builder that starts from a link with relation type `rel` and nothing else.
    pub fn builder(rel: &str) -> (r: LinkBuilder)
        ensures
            r@.rel@ == rel@,
            r@.media_type is None,
            r@.href is None,
            r@.titles is None,
            r@.properties is None,
            r@.wf(),
    {
        LinkBuilder::new(rel)
    }
}

/// Builds a `Link` step by step.
#[derive(Debug)]
pub struct LinkBuilder {
    link: Link,
}

impl View for LinkBuilder {
    type V = Link;

    /// The link built so far.
    closed spec fn view(&self) -> Link {
        self.link
    }
}

impl LinkBuilder {
    /// A builder for a link with relation type `rel` and nothing else.
    pub fn new(rel: &str) -> (r: LinkBuilder)
        ensures
            r@.rel@ == rel@,
            r@.media_type is None,
            r@.href is None,
            r@.titles is None,
            r@.properties is None,
            r@.wf(),
    {
        LinkBuilder { link: Link::new(Rel::new(rel)) }
    }

    /// Sets the media type of the target.
    pub fn media_type(self, media_type: &str) -> (r: LinkBuilder)
        ensures
            r@.media_type matches Some(t) && t@ == media_type@,
            r@.rel == self@.rel,
            r@.href == self@.href,
            r@.titles == self@.titles,
            r@.properties == self@.properties,
    {
        let mut link = self.link;
        link.media_type = Some(media_type.to_owned());
        LinkBuilder { link }
    }

    /// Sets the URI of the target.
    pub fn href(self, href: &str) -> (r: LinkBuilder)
        ensures
            r@.href matches Some(h) && h@ == href@,
            r@.rel == self@.rel,
            r@.media_type == self@.media_type,
            r@.titles == self@.titles,
            r@.properties == self@.properties,
    {
        let mut link = self.link;
        link.href = Some(href.to_owned());
        LinkBuilder { link }
    }

    /// Adds a title after those added before.
    pub fn title(self, language: &str, value: &str) -> (r: LinkBuilder)
        ensures
            r@.titles matches Some(t) && {
                let before = match self@.titles {
                    Some(b) => b@,
                    None => Seq::empty(),
                };
                &&& t@.len() == before.len() + 1
                &&& t@.drop_last() == before
                &&& t@.last().language@ == language@
                &&& t@.last().value@ == value@
            },
            r@.rel == self@.rel,
            r@.media_type == self@.media_type,
            r@.href == self@.href,
            r@.properties == self@.properties,
    {
        let mut link = self.link;
        let mut titles = match link.titles {
            Some(t) => t,
            None => Vec::new(),
        };
        let ghost before = titles@;
        titles.push(Title::new(language, value));
        assert(titles@.drop_last() =~= before);
        link.titles = Some(titles);
        LinkBuilder { link }
    }

    /// Replaces the titles.
    pub fn titles(self, titles: Vec<Title>) -> (r: LinkBuilder)
        ensures
            r@.titles == Some(titles),
            r@.rel == self@.rel,
            r@.media_type == self@.media_type,
            r@.href == self@.href,
            r@.properties == self@.properties,
    {
        let mut link = self.link;
        link.titles = Some(titles);
        LinkBuilder { link }
    }

    /// Sets a property, with a value or with none: in place when the key is there
    /// already, otherwise after the properties set before.
    pub fn property(self, key: &str, value: Option<&str>) -> (r: LinkBuilder)
        requires
            self@.wf(),
        ensures
            r@.properties matches Some(p) && sets_key(props_or_empty(self@.properties), p@, key@)
                && forall|i: int|
                0 <= i < p@.len() && p@[i].0@ == key@ ==> match (#[trigger] p@[i].1, value) {
                    (Some(a), Some(b)) => a@ == b@,
                    (None, None) => true,
                    _ => false,
                },
            r@.rel == self@.rel,
            r@.media_type == self@.media_type,
            r@.href == self@.href,
            r@.titles == self@.titles,
            r@.wf(),
    {
        let mut link = self.link;
        let mut properties = match link.properties {
            Some(p) => p,
            None => Vec::new(),
        };
        let v = match value {
            Some(s) => Some(s.to_owned()),
            None => None,
        };
        let entry = (key.to_owned(), v);
        let ghost e = entry;
        let ghost before = properties@;
        set_entry(&mut properties, entry);
        assert(sets_entry(before, properties@, e));
        link.properties = Some(properties);
        LinkBuilder { link }
    }

    /// Replaces the properties.
    pub fn properties(self, properties: Vec<(String, Option<String>)>) -> (r: LinkBuilder)
        requires
            unique_keys(properties@),
        ensures
            r@.properties == Some(properties),
            r@.rel == self@.rel,
            r@.media_type == self@.media_type,
            r@.href == self@.href,
            r@.titles == self@.titles,
            r@.wf(),
    {
        let mut link = self.link;
        link.properties = Some(properties);
        LinkBuilder { link }
    }

    /// The link built.
    pub fn build(self) -> (r: Link)
        ensures
            r == self@,
    {
        self.link
    }
}

impl From<LinkBuilder> for Link {
    fn from(builder: LinkBuilder) -> (r: Link) {
        builder.build()
    }
}

impl vstd::std_specs::convert::FromSpecImpl<LinkBuilder> for Link {
    open spec fn obeys_from_spec() -> bool {
        true
    }

    open spec fn from_spec(builder: LinkBuilder) -> Link {
        builder@
    }
}

/// A title of a link, in a language.
#[derive(Debug)]
pub struct Title {
    /// A language tag (RFC 5646), or `und` when the language is not known.
    pub language: String,
    /// The title.
    pub value: String,
}

impl Title {
    /// A title in the given language.
    pub fn new(language: &str, value: &str) -> (r: Title)
        ensures
            r.language@ == language@,
            r.value@ == value@,
    {
        Title { language: language.to_owned(), value: value.to_owned() }
    }
}

} // verus!
