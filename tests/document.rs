use winter::document::DocumentNode;
use winter::media::MaybeLoaded;

fn attrs(pairs: &[(&str, Option<&str>)]) -> Vec<(String, Option<String>)> {
    pairs.iter().map(|(k, v)| (k.to_string(), v.map(|s| s.to_string()))).collect()
}

fn text(s: &str) -> DocumentNode {
    DocumentNode::TextLeaf(s.to_string())
}

#[test]
fn containers_by_name() {
    assert!(matches!(DocumentNode::from_element("div", &vec![], vec![text("a")]), DocumentNode::Div(c) if c.len() == 1));
    assert!(matches!(DocumentNode::from_element("em", &vec![], vec![]), DocumentNode::Emph(_)));
    assert!(matches!(DocumentNode::from_element("strong", &vec![], vec![]), DocumentNode::Strong(_)));
    assert!(matches!(DocumentNode::from_element("hr", &vec![], vec![]), DocumentNode::Sep));
    assert!(matches!(DocumentNode::from_element("table", &vec![], vec![]), DocumentNode::Unk(_)));
}

#[test]
fn anchors_by_mime() {
    let img = DocumentNode::from_element("a", &attrs(&[("type", Some("image/png")), ("href", Some("i.png"))]), vec![]);
    assert!(matches!(img, DocumentNode::Image { label, url } if label == "Linked image" && url == "i.png"));
    let audio = DocumentNode::from_element("a", &attrs(&[("type", Some("audio/mpeg"))]), vec![]);
    assert!(matches!(audio, DocumentNode::Audio { label, fetched: MaybeLoaded::NotStarted(u) }
        if label == "Linked audio file" && u == "about:blank"));
    let video = DocumentNode::from_element("a", &attrs(&[("href", Some("v.mp4")), ("type", Some("video/mp4"))]), vec![]);
    assert!(matches!(video, DocumentNode::Video { fetched: MaybeLoaded::NotStarted(u), .. } if u == "v.mp4"));
    let link = DocumentNode::from_element("a", &attrs(&[("href", Some("x")), ("type", None)]), vec![text("go")]);
    assert!(matches!(link, DocumentNode::Link { url, mime, label } if url == "x" && mime == "text/plain" && label.len() == 1));
}

#[test]
fn images_use_alt_and_src() {
    let img = DocumentNode::from_element("img", &attrs(&[("src", Some("p.jpg"))]), vec![]);
    assert!(matches!(img, DocumentNode::Image { label, url } if label == "No alt text" && url == "p.jpg"));
}

#[test]
fn dom_root() {
    assert!(matches!(DocumentNode::from_dom(false, vec![]), DocumentNode::Empty));
    assert!(matches!(DocumentNode::from_dom(true, vec![text("a")]), DocumentNode::Empty));
    assert!(matches!(DocumentNode::from_dom(false, vec![text("a")]), DocumentNode::Root(_)));
}

#[test]
fn node_text_joins_children() {
    let tree = DocumentNode::Root(vec![
        DocumentNode::Div(vec![text("hello"), DocumentNode::Strong(vec![text("world")])]),
        DocumentNode::Image { label: "pic".to_string(), url: "u".to_string() },
        DocumentNode::Sep,
    ]);
    assert_eq!(tree.to_text(), "hello world\npic\n???");
    assert_eq!(DocumentNode::many_to_string(&vec![text("a"), text("b")], ", "), "a, b");
    assert_eq!(DocumentNode::many_to_string(&vec![], ", "), "");
}

#[test]
fn article_links() {
    let yt = DocumentNode::article_link("watch", "text/plain", "https://youtu.be/abc");
    assert!(matches!(yt, DocumentNode::Link { url, mime, label } if url == "https://youtu.be/abc" && mime == "text/html"
        && matches!(&label[0], DocumentNode::TextLeaf(t) if t == "YouTube Video")));
    let other = DocumentNode::article_link("site", "text/plain", "https://example.test/");
    assert!(matches!(other, DocumentNode::Link { mime, label, .. } if mime == "text/plain"
        && matches!(&label[0], DocumentNode::TextLeaf(t) if t == "site")));
}
