use std::cell::Cell;
use winter::feed::{find_feed, parse_link};
use winter::fetch::Fetcher;
use winter::gui_config::{Flavor, ThemeTemplate};
use winter::media::{is_success, MaybeLoaded, TickEvent, TickRequest};

#[test]
fn finds_link_in_html() {
    let yt_html = "<html><head><link rel=\"alternate\" type=\"application/rss+xml\" title=\"RSS\" \
        href=\"https://www.youtube.com/feeds/videos.xml?channel_id=UCBR8-60-B28hp2BmDPdntcQ\">\
        <link rel=\"stylesheet\" type=\"text/css\" href=\"/s.css\"></head><body></body></html>";
    let found = find_feed(yt_html);
    assert_eq!(
        found,
        ["https://www.youtube.com/feeds/videos.xml?channel_id=UCBR8-60-B28hp2BmDPdntcQ"]
    );
}

#[test]
fn link_attributes() {
    let l = parse_link("<link type=\"application/rss+xml\" href=\"x\">").unwrap();
    assert_eq!(l.mime, "application/rss+xml");
    assert_eq!(l.href, "x");
    assert!(parse_link("<link href=\"x\">").is_none());
    assert!(parse_link("<link data-type=\"a\" href=\"x\">").is_none());
    assert!(find_feed("<p>no links</p>").is_empty());
}

#[test]
fn fetcher_dedups_and_claims_once() {
    let spawned = Cell::new(0u32);
    let mut f: Fetcher<u32> = Fetcher::new();
    assert!(f
        .start_download("https://example.test/a", || {
            spawned.set(spawned.get() + 1);
            7
        })
        .is_none());
    assert!(f
        .start_download("https://example.test/a", || {
            spawned.set(spawned.get() + 1);
            8
        })
        .is_some());
    assert_eq!(spawned.get(), 1);
    assert!(f.is_registered("https://example.test/a"));
    assert_eq!(f.try_finish("https://example.test/a", |_| false), None);
    assert!(f.is_registered("https://example.test/a"));
    assert_eq!(f.try_finish("https://example.test/a", |_| true), Some(7));
    assert_eq!(f.try_finish("https://example.test/a", |_| true), None);
    assert_eq!(f.try_finish("https://example.test/other", |_| true), None);
}

#[test]
fn maybe_loaded_progression() {
    let mut m: MaybeLoaded<u8, String, String> = MaybeLoaded::NotStarted("https://example.test/a".to_string());
    assert!(matches!(m.request(), TickRequest::Start(u) if u == "https://example.test/a"));
    m.tick(TickEvent::Started);
    assert!(matches!(&m, MaybeLoaded::Working(u) if u == "https://example.test/a"));
    assert!(matches!(m.request(), TickRequest::Poll(_)));
    m.tick(TickEvent::Pending);
    assert!(matches!(&m, MaybeLoaded::Working(_)));
    m.tick(TickEvent::Status(200));
    assert!(matches!(&m, MaybeLoaded::Working(_)));
    m.tick(TickEvent::Body(Ok(3)));
    assert!(matches!(&m, MaybeLoaded::Done(u, Ok(3)) if u == "https://example.test/a"));
    assert!(matches!(m.request(), TickRequest::Idle));
    m.tick(TickEvent::Started);
    assert!(matches!(&m, MaybeLoaded::Done(_, Ok(3))));
}

#[test]
fn maybe_loaded_failures() {
    let mut m: MaybeLoaded<u8, String, String> = MaybeLoaded::Working("u".to_string());
    m.tick(TickEvent::Status(404));
    assert!(matches!(m, MaybeLoaded::BadStatus(404)));
    let mut m: MaybeLoaded<u8, String, String> = MaybeLoaded::Working("u".to_string());
    m.tick(TickEvent::FetchFailed("timeout".to_string()));
    assert!(matches!(&m, MaybeLoaded::Failed(u, e) if u == "u" && e == "timeout"));
    let mut m: MaybeLoaded<u8, String, String> = MaybeLoaded::Working("u".to_string());
    m.tick(TickEvent::Body(Err("bad".to_string())));
    assert!(matches!(&m, MaybeLoaded::Done(_, Err(e)) if e == "bad"));
}

#[test]
fn status_classes() {
    assert!(is_success(200));
    assert!(is_success(299));
    assert!(!is_success(199));
    assert!(!is_success(300));
    assert!(!is_success(404));
}

#[test]
fn theme_flavors() {
    assert_eq!(ThemeTemplate::default(), ThemeTemplate::Frappe);
    assert_eq!(ThemeTemplate::Egui.flavor(), None);
    assert_eq!(ThemeTemplate::Mocha.flavor(), Some(Flavor::Mocha));
    assert_eq!(ThemeTemplate::Latte.flavor(), Some(Flavor::Latte));
}
