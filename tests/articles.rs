use winter::article::{AtomFields, CommonArticle, RssFields};
use winter::syndication::ParsedFeed;

fn rss_fields() -> RssFields {
    RssFields {
        guid: None,
        title: None,
        author: None,
        categories: vec![],
        link: None,
        content: None,
        description: None,
        pub_date: None,
    }
}

#[test]
fn rss_defaults() {
    let a = CommonArticle::from_rss_fields(&"u".to_string(), rss_fields());
    assert_eq!(a.pub_url, "u");
    assert_eq!(a.id, "?");
    assert_eq!(a.title, "?");
    assert_eq!(a.body_html, "<i>empty content</i>");
    assert_eq!(a.timestamp, 0);
    assert!(a.authors.is_empty());
    assert!(a.links.is_empty());
}

#[test]
fn rss_fields_used() {
    let f = RssFields {
        guid: None,
        title: Some("T".to_string()),
        author: Some("me".to_string()),
        link: Some("http://x".to_string()),
        description: Some("desc".to_string()),
        pub_date: Some("Thu, 01 Jan 1970 00:01:40 +0000".to_string()),
        ..rss_fields()
    };
    let a = CommonArticle::from_rss_fields(&"u".to_string(), f);
    assert_eq!(a.id, "T");
    assert_eq!(a.authors, vec![("me".to_string(), None)]);
    assert_eq!(a.links, vec![("http://x".to_string(), "text/plain".to_string(), "http://x".to_string())]);
    assert_eq!(a.body_html, "desc");
    assert_eq!(a.timestamp, 100);
    let bad_date = RssFields { guid: Some("g".to_string()), pub_date: Some("yesterday".to_string()), ..rss_fields() };
    let b = CommonArticle::from_rss_fields(&"u".to_string(), bad_date);
    assert_eq!(b.id, "g");
    assert_eq!(b.timestamp, 0);
}

#[test]
fn atom_link_defaults() {
    let f = AtomFields {
        id: "e".to_string(),
        title: "E".to_string(),
        updated: 5,
        authors: vec![("a".to_string(), Some("a@x".to_string()))],
        categories: vec!["c".to_string()],
        links: vec![(None, None, "h".to_string()), (Some("t".to_string()), Some("text/html".to_string()), "k".to_string())],
        content: None,
    };
    let a = CommonArticle::from_atom_fields(&"u".to_string(), f);
    assert_eq!(a.id, "e");
    assert_eq!(a.timestamp, 5);
    assert_eq!(a.body_html, "<i>empty content</i>");
    assert_eq!(
        a.links,
        vec![
            ("?".to_string(), "text/plain".to_string(), "h".to_string()),
            ("t".to_string(), "text/html".to_string(), "k".to_string()),
        ]
    );
}

#[test]
fn articles_of_a_feed() {
    let xml = "<rss version=\"2.0\"><channel><title>A</title><link>l</link><description>d</description>\
        <item><guid>1</guid><title>one</title><pubDate>Thu, 01 Jan 1970 00:00:10 +0000</pubDate>\
        <description>body</description></item><item><title>two</title></item></channel></rss>";
    let feed = ParsedFeed::from_str(xml).ok().unwrap();
    let articles = CommonArticle::from_feed(&feed, "http://feed.test/a".to_string());
    assert_eq!(articles.len(), 2);
    assert_eq!(articles[0].id, "1");
    assert_eq!(articles[0].timestamp, 10);
    assert_eq!(articles[0].body_html, "body");
    assert_eq!(articles[1].id, "two");
    assert_eq!(articles[1].pub_url, "http://feed.test/a");
}
