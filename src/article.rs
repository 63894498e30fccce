//! Display records of a feed's articles, with the defaults that stand in for
//! missing fields.
use vstd::prelude::*;
use crate::merge::Keyed;
use crate::syndication::ParsedFeed;

verus! {

broadcast use vstd::string::group_string_axioms;

/// Seconds since the Unix epoch of an RFC 2822 date, as chrono reads it.
pub uninterp spec fn rfc2822_timestamp(text: Seq<char>) -> Option<int>;

/// Relies on `chrono::DateTime::parse_from_rfc2822` and `DateTime::timestamp`:
/// the result depends on the text alone.
#[verifier::external_body]
fn parse_rfc2822(text: &str) -> (r: Option<i64>)
    ensures
        r matches Some(t) ==> rfc2822_timestamp(text@) == Some(t as int),
        r is None ==> rfc2822_timestamp(text@) is None,
{
    chrono::DateTime::parse_from_rfc2822(text).ok().map(|d| d.timestamp())
}

/// Relies on `atom_syndication::Entry::title`, the entry's title text.
#[verifier::external_body]
fn atom_title(e: &atom_syndication::Entry) -> (r: String) {
    e.title().as_str().to_string()
}

/// Relies on `atom_syndication::Entry::updated` and `DateTime::timestamp`.
#[verifier::external_body]
fn atom_updated(e: &atom_syndication::Entry) -> (r: i64) {
    e.updated().timestamp()
}

/// Relies on `atom_syndication::Entry::authors`: each author's name and email.
#[verifier::external_body]
fn atom_authors(e: &atom_syndication::Entry) -> (r: Vec<(String, Option<String>)>) {
    e.authors().iter().map(|p| (p.name().to_string(), p.email().map(|m| m.to_string()))).collect()
}

/// Relies on `atom_syndication::Entry::categories`: each category's term.
#[verifier::external_body]
fn atom_categories(e: &atom_syndication::Entry) -> (r: Vec<String>) {
    e.categories().iter().map(|c| c.term().to_string()).collect()
}

/// Relies on `atom_syndication::Entry::links`: each link's title, MIME type
/// and target.
#[verifier::external_body]
fn atom_links(e: &atom_syndication::Entry) -> (r: Vec<(Option<String>, Option<String>, String)>) {
    e.links()
        .iter()
        .map(|l| (l.title().map(|t| t.to_string()), l.mime_type().map(|m| m.to_string()), l.href().to_string()))
        .collect()
}

/// Relies on `atom_syndication::Entry::content` and `Content::value`.
#[verifier::external_body]
fn atom_content(e: &atom_syndication::Entry) -> (r: Option<String>) {
    e.content().and_then(|c| c.value()).map(|v| v.to_string())
}

/// Relies on `rss::Item::title`.
#[verifier::external_body]
fn rss_title(i: &rss::Item) -> (r: Option<String>) {
    i.title().map(|t| t.to_string())
}

/// Relies on `rss::Item::author`.
#[verifier::external_body]
fn rss_author(i: &rss::Item) -> (r: Option<String>) {
    i.author().map(|a| a.to_string())
}

/// Relies on `rss::Item::categories`: each category's name.
#[verifier::external_body]
fn rss_categories(i: &rss::Item) -> (r: Vec<String>) {
    i.categories().iter().map(|c| c.name().to_string()).collect()
}

/// Relies on `rss::Item::link`.
#[verifier::external_body]
fn rss_link(i: &rss::Item) -> (r: Option<String>) {
    i.link().map(|l| l.to_string())
}

/// Relies on `rss::Item::content`.
#[verifier::external_body]
fn rss_content(i: &rss::Item) -> (r: Option<String>) {
    i.content().map(|c| c.to_string())
}

/// Relies on `rss::Item::description`.
#[verifier::external_body]
fn rss_description(i: &rss::Item) -> (r: Option<String>) {
    i.description().map(|d| d.to_string())
}

/// Relies on `rss::Item::pub_date`.
#[verifier::external_body]
fn rss_pub_date(i: &rss::Item) -> (r: Option<String>) {
    i.pub_date().map(|d| d.to_string())
}

/// An article as the reader shows it.
pub struct CommonArticle {
    pub pub_url: String,
    pub id: String,
    pub title: String,
    pub authors: Vec<(String, Option<String>)>,
    pub categories: Vec<String>,
    /// The HTML of the body, rendered on demand.
    pub body_html: String,
    /// Each link as (label, MIME type, target).
    pub links: Vec<(String, String, String)>,
    /// Seconds since the Unix epoch.
    pub timestamp: i64,
}

/// The text of an optional value, or `default`.
pub open spec fn text_or(v: Option<String>, default: Seq<char>) -> Seq<char> {
    match v {
        Some(s) => s@,
        None => default,
    }
}

fn or_literal(v: Option<String>, default: &str) -> (r: String)
    ensures
        r@ == text_or(v, default@),
{
    match v {
        Some(s) => s,
        None => default.to_string(),
    }
}

/// The fields that describe an RSS item, as its accessors give them.
pub struct RssFields {
    pub guid: Option<String>,
    pub title: Option<String>,
    pub author: Option<String>,
    pub categories: Vec<String>,
    pub link: Option<String>,
    pub content: Option<String>,
    pub description: Option<String>,
    pub pub_date: Option<String>,
}

/// The fields that describe an Atom entry, as its accessors give them.
pub struct AtomFields {
    pub id: String,
    pub title: String,
    pub updated: i64,
    pub authors: Vec<(String, Option<String>)>,
    pub categories: Vec<String>,
    pub links: Vec<(Option<String>, Option<String>, String)>,
    pub content: Option<String>,
}

impl CommonArticle {
    /// The article for an RSS item: its GUID or else its title is the id,
    /// its content or else its description the body, and a date that does not
    /// parse counts as the epoch.
    pub fn from_rss_fields(url: &String, f: RssFields) -> (r: CommonArticle)
        ensures
            r.pub_url@ == url@,
            r.id@ == (match f.guid {
                Some(g) => g@,
                None => text_or(f.title, "?"@),
            }),
            r.title@ == text_or(f.title, "?"@),
            r.authors@.len() == (if f.author is Some { 1int } else { 0int }),
            f.author matches Some(a) ==> r.authors@[0].0@ == a@ && r.authors@[0].1 is None,
            r.categories@ == f.categories@,
            r.body_html@ == (match f.content {
                Some(c) => c@,
                None => text_or(f.description, "<i>empty content</i>"@),
            }),
            r.links@.len() == (if f.link is Some { 1int } else { 0int }),
            f.link matches Some(l) ==> r.links@[0].0@ == l@ && r.links@[0].1@ == "text/plain"@ && r.links@[0].2@ == l@,
            r.timestamp as int == (match f.pub_date {
                Some(d) => match rfc2822_timestamp(d@) {
                    Some(t) => t,
                    None => 0,
                },
                None => 0,
            }),
    {
        let title = or_literal(f.title.clone(), "?");
        let id = match f.guid {
            Some(g) => g,
            None => title.clone(),
        };
        let mut authors: Vec<(String, Option<String>)> = Vec::new();
        match f.author {
            Some(a) => authors.push((a, None)),
            None => {},
        }
        let mut links: Vec<(String, String, String)> = Vec::new();
        match f.link {
            Some(l) => links.push((l.clone(), "text/plain".to_string(), l)),
            None => {},
        }
        let body_html = match f.content {
            Some(c) => c,
            None => or_literal(f.description, "<i>empty content</i>"),
        };
        let timestamp = match &f.pub_date {
            Some(d) => match parse_rfc2822(d.as_str()) {
                Some(t) => t,
                None => 0,
            },
            None => 0,
        };
        CommonArticle {
            pub_url: url.clone(),
            id,
            title,
            authors,
            categories: f.categories,
            body_html,
            links,
            timestamp,
        }
    }

    /// The article for an Atom entry: links without a title are labelled
    /// `?`, links without a type are `text/plain`, and an entry without
    /// content gets a placeholder body.
    pub fn from_atom_fields(url: &String, f: AtomFields) -> (r: CommonArticle)
        ensures
            r.pub_url@ == url@,
            r.id == f.id,
            r.title == f.title,
            r.timestamp == f.updated,
            r.authors@ == f.authors@,
            r.categories@ == f.categories@,
            r.body_html@ == text_or(f.content, "<i>empty content</i>"@),
            r.links@.len() == f.links@.len(),
            forall|i: int| 0 <= i < r.links@.len() ==> {
                &&& r.links@[i].0@ == text_or(f.links@[i].0, "?"@)
                &&& r.links@[i].1@ == text_or(f.links@[i].1, "text/plain"@)
                &&& r.links@[i].2 == f.links@[i].2
            },
    {
        let mut links: Vec<(String, String, String)> = Vec::new();
        let mut i: usize = 0;
        while i < f.links.len()
            invariant
                i <= f.links@.len(),
                links@.len() == i,
                forall|j: int| 0 <= j < i ==> {
                    &&& links@[j].0@ == text_or(f.links@[j].0, "?"@)
                    &&& links@[j].1@ == text_or(f.links@[j].1, "text/plain"@)
                    &&& links@[j].2 == f.links@[j].2
                },
            decreases f.links.len() - i,
        {
            let label = or_literal(f.links[i].0.clone(), "?");
            let mime = or_literal(f.links[i].1.clone(), "text/plain");
            links.push((label, mime, f.links[i].2.clone()));
            i = i + 1;
        }
        CommonArticle {
            pub_url: url.clone(),
            id: f.id,
            title: f.title,
            authors: f.authors,
            categories: f.categories,
            body_html: or_literal(f.content, "<i>empty content</i>"),
            links,
            timestamp: f.updated,
        }
    }

    /// The articles of a feed, in item order.
    pub fn from_feed(feed: &ParsedFeed, url: String) -> (r: Vec<CommonArticle>)
        ensures
            feed matches ParsedFeed::RSS(c) ==> r@.len() == c.items@.len() && forall|i: int|
                #![trigger r@[i]] 0 <= i < r@.len() ==> (c.items@[i].id matches Some(g) ==> r@[i].id@ == g@),
            feed matches ParsedFeed::Atom(a) ==> r@.len() == a.items@.len() && forall|i: int|
                #![trigger r@[i]] 0 <= i < r@.len() ==> (a.items@[i].id matches Some(g) ==> r@[i].id@ == g@),
            forall|i: int| 0 <= i < r@.len() ==> r@[i].pub_url@ == url@,
    {
        let mut out: Vec<CommonArticle> = Vec::new();
        match feed {
            ParsedFeed::RSS(c) => {
                let mut i: usize = 0;
                while i < c.items.len()
                    invariant
                        i <= c.items@.len(),
                        out@.len() == i,
                        forall|j: int| #![trigger out@[j]] 0 <= j < i ==> (c.items@[j].id matches Some(g) ==> out@[j].id@ == g@),
                        forall|j: int| 0 <= j < i ==> out@[j].pub_url@ == url@,
                    decreases c.items.len() - i,
                {
                    let it: &Keyed<rss::Item> = &c.items[i];
                    let item = &it.content;
                    let fields = RssFields {
                        guid: match &it.id {
                            Some(g) => Some(g.clone()),
                            None => None,
                        },
                        title: rss_title(item),
                        author: rss_author(item),
                        categories: rss_categories(item),
                        link: rss_link(item),
                        content: rss_content(item),
                        description: rss_description(item),
                        pub_date: rss_pub_date(item),
                    };
                    out.push(CommonArticle::from_rss_fields(&url, fields));
                    i = i + 1;
                }
            },
            ParsedFeed::Atom(a) => {
                let mut i: usize = 0;
                while i < a.items.len()
                    invariant
                        i <= a.items@.len(),
                        out@.len() == i,
                        forall|j: int| #![trigger out@[j]] 0 <= j < i ==> (a.items@[j].id matches Some(g) ==> out@[j].id@ == g@),
                        forall|j: int| 0 <= j < i ==> out@[j].pub_url@ == url@,
                    decreases a.items.len() - i,
                {
                    let it: &Keyed<atom_syndication::Entry> = &a.items[i];
                    let entry = &it.content;
                    let id = match &it.id {
                        Some(g) => g.clone(),
                        None => String::new(),
                    };
                    let fields = AtomFields {
                        id,
                        title: atom_title(entry),
                        updated: atom_updated(entry),
                        authors: atom_authors(entry),
                        categories: atom_categories(entry),
                        links: atom_links(entry),
                        content: atom_content(entry),
                    };
                    out.push(CommonArticle::from_atom_fields(&url, fields));
                    i = i + 1;
                }
            },
        }
        out
    }
}

} // verus!
