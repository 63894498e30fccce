use winter::codec::{decode, encode, DecodeError};
use winter::merge::Merge;
use winter::state::{read_key, ReadSet, RefreshSchedule, Subscriptions, WFeed, ChannelFromBytesError};
use winter::syndication::ParsedFeed;

fn rss_doc(items: &[(&str, &str)]) -> String {
    let mut body = String::new();
    for (guid, title) in items {
        body.push_str(&format!("<item><guid>{guid}</guid><title>{title}</title></item>"));
    }
    format!(
        "<?xml version=\"1.0\"?><rss version=\"2.0\"><channel><title>A</title>\
         <link>http://feed.test/a</link><description>d</description>{body}</channel></rss>"
    )
}

fn parse(items: &[(&str, &str)]) -> ParsedFeed {
    ParsedFeed::from_str(&rss_doc(items)).ok().expect("sample feed parses")
}

fn ids_and_titles(f: &ParsedFeed) -> Vec<(Option<String>, Option<String>)> {
    match f {
        ParsedFeed::RSS(c) => c
            .items
            .iter()
            .map(|i| (i.id.clone(), i.content.title().map(|t| t.to_string())))
            .collect(),
        ParsedFeed::Atom(a) => a.items.iter().map(|i| (i.id.clone(), None)).collect(),
    }
}

#[test]
fn local_usage() {
    let mut read = ReadSet::new();
    let mut subs = Subscriptions::new();
    let _ = read.mark_read("TestUrl", "TestArticle");
    let _ = subs.subscribe("TestUrl", &ParsedFeed::empty_rss());
    assert!(read.has_read("TestUrl", "TestArticle"));
    assert!(subs.get_subscription("TestUrl").is_some());
}

#[test]
fn foreign_usage() {
    let mut read_a = ReadSet::new();
    let mut subs_a = Subscriptions::new();
    let marker = read_a.mark_read("TestURL", "TestArticle");
    let (name, contents) = subs_a.subscribe("TestUrl", &ParsedFeed::empty_rss());
    let read_b = ReadSet::from_names(&vec![marker]);
    let mut subs_b = Subscriptions::new();
    subs_b.refresh(&vec![(name, contents)]);
    assert!(read_b.has_read("TestURL", "TestArticle"));
    assert!(subs_b.get_subscription("TestUrl").is_some());
}

#[test]
fn codec_round_trip() {
    for s in ["http://feed.test/a", "", "a%b/c?d=e", "héllo wörld ✓"] {
        assert_eq!(decode(&encode(s)), Ok(s.to_string()));
    }
}

#[test]
fn codec_exact_value() {
    assert_eq!(encode("hi"), "aGk=");
    assert_eq!(encode("http://feed.test/a"), "aHR0cDovL2ZlZWQudGVzdC9h");
    assert!(!encode("\u{3f}\u{3f}\u{3f}>").contains('/'));
}

#[test]
fn codec_errors() {
    assert_eq!(decode("!!!"), Err(DecodeError::NotBase64));
    assert_eq!(decode("aGk"), Err(DecodeError::NotBase64));
    assert_eq!(decode("_w=="), Err(DecodeError::NotUtf8));
}

#[test]
fn read_key_joins_with_percent() {
    assert_eq!(read_key("http://feed.test/a", "1"), "http://feed.test/a%1");
}

#[test]
fn read_mark_round_trip() {
    let mut read = ReadSet::new();
    let name = read.mark_read("u", "a");
    assert_eq!(name, encode("u%a"));
    assert!(read.has_read("u", "a"));
    assert!(!read.has_read("u", "b"));
    assert_eq!(read.mark_unread("u", "a"), Some(encode("u%a")));
    assert!(!read.has_read("u", "a"));
    assert_eq!(read.mark_unread("u", "a"), None);
}

#[test]
fn read_mark_survives_restart() {
    let mut read = ReadSet::new();
    let name = read.mark_read("http://feed.test/a", "1");
    let restarted = ReadSet::from_names(&vec![name, "not base64!".to_string(), "_w==".to_string()]);
    assert!(restarted.has_read("http://feed.test/a", "1"));
    assert!(!restarted.has_read("http://feed.test/a", "2"));
}

#[test]
fn subscribe_then_update_keeps_two_items() {
    let mut subs = Subscriptions::new();
    let (name, _) = subs.subscribe("http://feed.test/a", &parse(&[("1", "old")]));
    assert_eq!(name, encode("http://feed.test/a"));
    let _ = subs.subscribe("http://feed.test/a", &parse(&[("1", "modified"), ("2", "new")]));
    let f = subs.get_subscription("http://feed.test/a").unwrap();
    assert_eq!(
        ids_and_titles(&f),
        vec![
            (Some("1".to_string()), Some("modified".to_string())),
            (Some("2".to_string()), Some("new".to_string())),
        ]
    );
}

#[test]
fn merge_idempotent() {
    let mut f = parse(&[("1", "a"), ("3", "c")]);
    let update = parse(&[("1", "b"), ("2", "x")]);
    f.merge(&update);
    let once = ids_and_titles(&f);
    f.merge(&update);
    assert_eq!(ids_and_titles(&f), once);
    let mut g = parse(&[("1", "a"), ("2", "b")]);
    let same = parse(&[("1", "a"), ("2", "b")]);
    g.merge(&same);
    assert_eq!(ids_and_titles(&g), ids_and_titles(&same));
}

#[test]
fn merge_confluent_on_disjoint_updates() {
    let a = parse(&[("a1", "x"), ("a2", "y")]);
    let b = parse(&[("b1", "z")]);
    let mut ab = parse(&[("0", "base"), ("a1", "old")]);
    let mut ba = parse(&[("0", "base"), ("a1", "old")]);
    ab.merge(&a);
    ab.merge(&b);
    ba.merge(&b);
    ba.merge(&a);
    let mut left = ids_and_titles(&ab);
    let mut right = ids_and_titles(&ba);
    left.sort();
    right.sort();
    assert_eq!(left, right);
    assert_eq!(left.len(), 4);
}

#[test]
fn merge_dedups_colliding_identity() {
    let mut base = parse(&[("1", "old"), ("2", "keep")]);
    base.merge(&parse(&[("1", "new")]));
    assert_eq!(
        ids_and_titles(&base),
        vec![
            (Some("2".to_string()), Some("keep".to_string())),
            (Some("1".to_string()), Some("new".to_string())),
        ]
    );
}

#[test]
fn merge_keeps_old_items_without_guid() {
    let mut base = ParsedFeed::from_str(
        "<rss version=\"2.0\"><channel><title>A</title><link>l</link><description>d</description>\
         <item><title>no guid</title></item></channel></rss>",
    )
    .ok()
    .unwrap();
    base.merge(&parse(&[("1", "one")]));
    assert_eq!(
        ids_and_titles(&base),
        vec![(None, Some("no guid".to_string())), (Some("1".to_string()), Some("one".to_string()))]
    );
    let before = ids_and_titles(&base);
    base.merge(&parse(&[]));
    assert_eq!(ids_and_titles(&base), before);
}

#[test]
fn merge_of_other_format_is_skipped() {
    let atom = ParsedFeed::from_str(
        "<?xml version=\"1.0\"?><feed xmlns=\"http://www.w3.org/2005/Atom\"><title>T</title>\
         <id>urn:t</id><updated>2024-01-01T00:00:00Z</updated><entry><id>e1</id><title>E</title>\
         <updated>2024-01-01T00:00:00Z</updated></entry></feed>",
    )
    .ok()
    .unwrap();
    let mut rss_feed = parse(&[("1", "one")]);
    assert!(!rss_feed.same_kind(&atom));
    let before = ids_and_titles(&rss_feed);
    rss_feed.merge(&atom);
    assert_eq!(ids_and_titles(&rss_feed), before);
    assert_eq!(ids_and_titles(&atom), vec![(Some("e1".to_string()), None)]);
}

#[test]
fn parse_failure_is_reported() {
    assert!(ParsedFeed::from_str("not xml at all").is_err());
}

#[test]
fn feed_round_trips_through_xml() {
    let f = parse(&[("1", "one"), ("2", "two")]);
    let back = ParsedFeed::from_str(&f.to_xml()).ok().unwrap();
    assert_eq!(ids_and_titles(&back), ids_and_titles(&f));
}

#[test]
fn unsubscribe_reports_file() {
    let mut subs = Subscriptions::new();
    let _ = subs.subscribe("u", &ParsedFeed::empty_rss());
    assert_eq!(subs.unsubscribe("u"), Some(encode("u")));
    assert!(subs.get_subscription("u").is_none());
    assert_eq!(subs.unsubscribe("u"), None);
}

#[test]
fn refresh_drops_missing_and_skips_bad_files() {
    let mut subs = Subscriptions::new();
    let _ = subs.subscribe("gone", &ParsedFeed::empty_rss());
    let _ = subs.subscribe("stays", &parse(&[("1", "one")]));
    subs.refresh(&vec![
        (encode("stays"), rss_doc(&[("2", "two")])),
        (encode("broken"), "garbage".to_string()),
        ("!!".to_string(), rss_doc(&[])),
    ]);
    assert!(subs.get_subscription("gone").is_none());
    assert!(subs.get_subscription("broken").is_none());
    let stays = subs.get_subscription("stays").unwrap();
    assert_eq!(
        ids_and_titles(&stays),
        vec![
            (Some("1".to_string()), Some("one".to_string())),
            (Some("2".to_string()), Some("two".to_string())),
        ]
    );
    let all = subs.get_subscriptions();
    assert_eq!(all.len(), 1);
    assert_eq!(all[0].0, "stays");
}

#[test]
fn schedule_forces_refresh_after_quiet_polls() {
    let mut s = RefreshSchedule::new(5);
    for _ in 0..4 {
        assert!(!s.on_poll(false));
    }
    assert!(s.on_poll(false));
    assert_eq!(s.idle_polls, 0);
    assert!(!s.on_poll(false));
    assert!(s.on_poll(true));
    assert_eq!(s.idle_polls, 0);
}

#[test]
fn bytes_to_feed() {
    let atom = "<?xml version=\"1.0\"?><feed xmlns=\"http://www.w3.org/2005/Atom\"><title>T</title>\
        <id>urn:t</id><updated>2024-01-01T00:00:00Z</updated></feed>";
    assert!(matches!(WFeed::try_from(atom.as_bytes().to_vec()), Ok(WFeed(ParsedFeed::Atom(_)))));
    assert!(matches!(WFeed::try_from(vec![0xff, 0xfe]), Err(ChannelFromBytesError::BadUTF8(_))));
    assert!(WFeed::try_from(rss_doc(&[("1", "one")]).into_bytes()).is_ok());
    let html = "<html><head><link rel=\"alternate\" type=\"application/rss+xml\" href=\"http://feed.test/rss\"></head></html>";
    match WFeed::try_from(html.as_bytes().to_vec()) {
        Err(ChannelFromBytesError::HTMLWithLink(l)) => assert_eq!(l, "http://feed.test/rss"),
        _ => panic!("expected the advertised link"),
    }
    assert!(matches!(WFeed::try_from(b"plain text".to_vec()), Err(ChannelFromBytesError::BadFeed(_))));
}

#[test]
fn feed_from_bytes() {
    assert!(ParsedFeed::try_from(vec![0xff]).is_err());
    assert_eq!(
        ParsedFeed::try_from(b"nope".to_vec()).err(),
        Some("Could not parse XML as Atom or RSS from input".to_string())
    );
    let f = ParsedFeed::try_from(rss_doc(&[("1", "one")]).into_bytes()).ok().unwrap();
    assert_eq!(ids_and_titles(&f), vec![(Some("1".to_string()), Some("one".to_string()))]);
}
