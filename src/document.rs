//! The document tree that an article's HTML body is rendered from, and the
//! rules that turn an HTML element into a node of it.
use vstd::prelude::*;
use vstd::string::StringExecFns;
use crate::feed::chars_of;
use crate::media::{Audio, AudioError, MaybeLoaded, Video, VideoError};

verus! {

broadcast use vstd::string::group_string_axioms;

/// A node of a rendered document. Media downloads report failures as text.
pub enum DocumentNode {
    Root(Vec<DocumentNode>),
    Div(Vec<DocumentNode>),
    Span(Vec<DocumentNode>),
    Unk(Vec<DocumentNode>),
    UList(Vec<DocumentNode>),
    OList(Vec<DocumentNode>),
    Emph(Vec<DocumentNode>),
    Strong(Vec<DocumentNode>),
    Sep,
    TextLeaf(String),
    Link { url: String, mime: String, label: Vec<DocumentNode> },
    Image { label: String, url: String },
    Video { label: String, fetched: MaybeLoaded<Video, VideoError, String> },
    Audio { label: String, fetched: MaybeLoaded<Audio, AudioError, String> },
    Empty,
}

/// The value of the first attribute named `key`, flattened: an attribute
/// without a value counts as absent.
pub open spec fn lookup(attrs: Seq<(String, Option<String>)>, key: Seq<char>) -> Option<Seq<char>>
    decreases attrs.len(),
{
    if attrs.len() == 0 {
        None
    } else if attrs[0].0@ == key {
        match attrs[0].1 {
            Some(v) => Some(v@),
            None => None,
        }
    } else {
        lookup(attrs.drop_first(), key)
    }
}

/// `s` begins with `p`.
pub open spec fn has_prefix(s: Seq<char>, p: Seq<char>) -> bool {
    p.len() <= s.len() && s.subrange(0, p.len() as int) == p
}

/// `v`, or `default` when absent.
pub open spec fn or_default(v: Option<Seq<char>>, default: Seq<char>) -> Seq<char> {
    match v {
        Some(x) => x,
        None => default,
    }
}

fn find_attr(attrs: &Vec<(String, Option<String>)>, key: &str) -> (r: Option<String>)
    ensures
        r matches Some(v) ==> lookup(attrs@, key@) == Some(v@),
        r is None ==> lookup(attrs@, key@) is None,
{
    let k = key.to_string();
    let mut i: usize = 0;
    assert(attrs@.subrange(0, attrs@.len() as int) =~= attrs@);
    while i < attrs.len()
        invariant
            i <= attrs.len(),
            k@ == key@,
            lookup(attrs@, key@) == lookup(attrs@.subrange(i as int, attrs@.len() as int), key@),
        decreases attrs.len() - i,
    {
        let ghost rest = attrs@.subrange(i as int, attrs@.len() as int);
        assert(rest.drop_first() =~= attrs@.subrange(i + 1, attrs@.len() as int));
        if attrs[i].0.eq(&k) {
            return match &attrs[i].1 {
                Some(v) => Some(v.clone()),
                None => None,
            };
        }
        i = i + 1;
    }
    None
}

fn starts_with(s: &String, p: &str) -> (r: bool)
    ensures
        r == has_prefix(s@, p@),
{
    let sv = chars_of(s.as_str());
    let pv = chars_of(p);
    if pv.len() > sv.len() {
        return false;
    }
    let mut k: usize = 0;
    while k < pv.len()
        invariant
            sv@ == s@,
            pv@ == p@,
            pv@.len() <= sv@.len(),
            k <= pv@.len(),
            forall|m: int| 0 <= m < k ==> sv@[m] == pv@[m],
        decreases pv.len() - k,
    {
        if sv[k] != pv[k] {
            assert(sv@.subrange(0, pv@.len() as int)[k as int] != pv@[k as int]);
            return false;
        }
        k = k + 1;
    }
    assert(sv@.subrange(0, pv@.len() as int) =~= pv@);
    true
}

fn text_is(s: &str, lit: &str) -> (r: bool)
    ensures
        r == (s@ == lit@),
{
    let a = s.to_string();
    let b = lit.to_string();
    a.eq(&b)
}

fn or_text(v: Option<String>, default: &str) -> (r: String)
    ensures
        r@ == or_default(match v { Some(x) => Some(x@), None => None }, default@),
{
    match v {
        Some(x) => x,
        None => default.to_string(),
    }
}

/// Which node an HTML element becomes.
#[derive(PartialEq, Eq, Structural)]
pub enum ElementRule {
    Div,
    Span,
    UList,
    OList,
    Sep,
    LinkedImage,
    LinkedAudio,
    LinkedVideo,
    Link,
    Image,
    Emph,
    Strong,
    Unk,
}

/// The rule for an element named `name` whose `type` attribute is `mime`.
pub open spec fn element_rule(name: Seq<char>, mime: Option<Seq<char>>) -> ElementRule {
    if name == "div"@ {
        ElementRule::Div
    } else if name == "span"@ {
        ElementRule::Span
    } else if name == "ul"@ {
        ElementRule::UList
    } else if name == "ol"@ {
        ElementRule::OList
    } else if name == "hr"@ {
        ElementRule::Sep
    } else if name == "a"@ {
        match mime {
            Some(m) => if has_prefix(m, "image/"@) {
                ElementRule::LinkedImage
            } else if has_prefix(m, "audio/"@) {
                ElementRule::LinkedAudio
            } else if has_prefix(m, "video/"@) {
                ElementRule::LinkedVideo
            } else {
                ElementRule::Link
            },
            None => ElementRule::Link,
        }
    } else if name == "img"@ {
        ElementRule::Image
    } else if name == "i"@ || name == "em"@ {
        ElementRule::Emph
    } else if name == "b"@ || name == "strong"@ {
        ElementRule::Strong
    } else {
        ElementRule::Unk
    }
}

impl DocumentNode {
    /// The node for a parsed HTML tree: empty when the tree is empty or has
    /// no children, else a root over the children.
    pub fn from_dom(tree_is_empty: bool, children: Vec<DocumentNode>) -> (r: DocumentNode)
        ensures
            tree_is_empty || children@.len() == 0 ==> r == DocumentNode::Empty,
            !(tree_is_empty || children@.len() == 0) ==> r == DocumentNode::Root(children),
    {
        if tree_is_empty || children.len() == 0 {
            DocumentNode::Empty
        } else {
            DocumentNode::Root(children)
        }
    }

    /// The node for an HTML element named `name` with these attributes,
    /// whose children are already converted.
    pub fn from_element(name: &str, attrs: &Vec<(String, Option<String>)>, children: Vec<DocumentNode>) -> (r: DocumentNode)
        ensures
            ({
                let rule = element_rule(name@, lookup(attrs@, "type"@));
                let href = or_default(lookup(attrs@, "href"@), "about:blank"@);
                &&& rule == ElementRule::Div ==> r == DocumentNode::Div(children)
                &&& rule == ElementRule::Span ==> r == DocumentNode::Span(children)
                &&& rule == ElementRule::UList ==> r == DocumentNode::UList(children)
                &&& rule == ElementRule::OList ==> r == DocumentNode::OList(children)
                &&& rule == ElementRule::Sep ==> r == DocumentNode::Sep
                &&& rule == ElementRule::Emph ==> r == DocumentNode::Emph(children)
                &&& rule == ElementRule::Strong ==> r == DocumentNode::Strong(children)
                &&& rule == ElementRule::Unk ==> r == DocumentNode::Unk(children)
                &&& rule == ElementRule::Image ==> (r matches DocumentNode::Image { label, url }
                    && label@ == or_default(lookup(attrs@, "alt"@), "No alt text"@)
                    && url@ == or_default(lookup(attrs@, "src"@), "No alt text"@))
                &&& rule == ElementRule::LinkedImage ==> (r matches DocumentNode::Image { label, url }
                    && label@ == "Linked image"@ && url@ == href)
                &&& rule == ElementRule::LinkedAudio ==> (r matches DocumentNode::Audio { label, fetched }
                    && label@ == "Linked audio file"@ && (fetched matches MaybeLoaded::NotStarted(u) && u@ == href))
                &&& rule == ElementRule::LinkedVideo ==> (r matches DocumentNode::Video { label, fetched }
                    && label@ == "Linked video file"@ && (fetched matches MaybeLoaded::NotStarted(u) && u@ == href))
                &&& rule == ElementRule::Link ==> (r matches DocumentNode::Link { url, mime, label }
                    && url@ == href && mime@ == or_default(lookup(attrs@, "type"@), "text/plain"@)
                    && label == children)
            }),
    {
        if text_is(name, "div") {
            DocumentNode::Div(children)
        } else if text_is(name, "span") {
            DocumentNode::Span(children)
        } else if text_is(name, "ul") {
            DocumentNode::UList(children)
        } else if text_is(name, "ol") {
            DocumentNode::OList(children)
        } else if text_is(name, "hr") {
            DocumentNode::Sep
        } else if text_is(name, "a") {
            let href = or_text(find_attr(attrs, "href"), "about:blank");
            match find_attr(attrs, "type") {
                Some(m) => {
                    if starts_with(&m, "image/") {
                        DocumentNode::Image { label: "Linked image".to_string(), url: href }
                    } else if starts_with(&m, "audio/") {
                        DocumentNode::Audio {
                            label: "Linked audio file".to_string(),
                            fetched: MaybeLoaded::NotStarted(href),
                        }
                    } else if starts_with(&m, "video/") {
                        DocumentNode::Video {
                            label: "Linked video file".to_string(),
                            fetched: MaybeLoaded::NotStarted(href),
                        }
                    } else {
                        DocumentNode::Link { url: href, mime: m, label: children }
                    }
                },
                None => DocumentNode::Link { url: href, mime: "text/plain".to_string(), label: children },
            }
        } else if text_is(name, "img") {
            DocumentNode::Image {
                label: or_text(find_attr(attrs, "alt"), "No alt text"),
                url: or_text(find_attr(attrs, "src"), "No alt text"),
            }
        } else if text_is(name, "i") || text_is(name, "em") {
            DocumentNode::Emph(children)
        } else if text_is(name, "b") || text_is(name, "strong") {
            DocumentNode::Strong(children)
        } else {
            DocumentNode::Unk(children)
        }
    }
}

/// The plain text of a node: leaves give their text, containers join their
/// children's text, media give their label.
pub open spec fn node_text(n: DocumentNode) -> Seq<char>
    decreases n,
{
    match n {
        DocumentNode::TextLeaf(t) => t@,
        DocumentNode::Root(inner) => joined_text(inner@, "\n"@),
        DocumentNode::Div(inner) => joined_text(inner@, " "@),
        DocumentNode::Span(inner) => joined_text(inner@, " "@),
        DocumentNode::Emph(inner) => joined_text(inner@, " "@),
        DocumentNode::Strong(inner) => joined_text(inner@, " "@),
        DocumentNode::Link { label, .. } => joined_text(label@, " "@),
        DocumentNode::Image { label, .. } => label@,
        DocumentNode::Video { label, .. } => label@,
        DocumentNode::Audio { label, .. } => label@,
        _ => "???"@,
    }
}

/// The texts of `nodes` joined by `sep`.
pub open spec fn joined_text(nodes: Seq<DocumentNode>, sep: Seq<char>) -> Seq<char>
    decreases nodes,
{
    if nodes.len() == 0 {
        Seq::empty()
    } else if nodes.len() == 1 {
        node_text(nodes[0])
    } else {
        joined_text(nodes.drop_last(), sep) + sep + node_text(nodes.last())
    }
}

impl DocumentNode {
    /// The texts of `nodes` joined by `join`.
    pub fn many_to_string(nodes: &Vec<DocumentNode>, join: &str) -> (r: String)
        ensures
            r@ == joined_text(nodes@, join@),
        decreases nodes@,
    {
        let mut out = String::new();
        let mut i: usize = 0;
        while i < nodes.len()
            invariant
                i <= nodes@.len(),
                out@ == joined_text(nodes@.subrange(0, i as int), join@),
            decreases nodes.len() - i,
        {
            let ghost pre = nodes@.subrange(0, i as int);
            let ghost post = nodes@.subrange(0, i + 1);
            assert(post.drop_last() =~= pre);
            assert(decreases_to!(nodes@ => nodes@[i as int]));
            let piece = nodes[i].to_text();
            if i > 0 {
                out.append(join);
            } else {
                assert(out@ =~= Seq::<char>::empty());
            }
            out.append(piece.as_str());
            if i == 0 {
                assert(out@ =~= piece@);
            }
            i = i + 1;
        }
        assert(nodes@.subrange(0, i as int) =~= nodes@);
        out
    }

    /// The plain text of the node.
    pub fn to_text(&self) -> (r: String)
        ensures
            r@ == node_text(*self),
        decreases *self,
    {
        proof {
            reveal_strlit("???");
        }
        match self {
            DocumentNode::TextLeaf(text) => text.clone(),
            DocumentNode::Root(inner) => {
                assert(decreases_to!(*self => inner@));
                Self::many_to_string(inner, "\n")
            },
            DocumentNode::Div(inner) | DocumentNode::Span(inner) | DocumentNode::Emph(inner) | DocumentNode::Strong(inner) => {
                assert(decreases_to!(*self => inner@));
                Self::many_to_string(inner, " ")
            },
            DocumentNode::Link { label, .. } => {
                assert(decreases_to!(*self => label@));
                Self::many_to_string(label, " ")
            },
            DocumentNode::Image { label, .. } => label.clone(),
            DocumentNode::Video { label, .. } => label.clone(),
            DocumentNode::Audio { label, .. } => label.clone(),
            _ => "???".to_string(),
        }
    }
}

/// Whether `href` points at a YouTube video page.
pub open spec fn is_youtube(href: Seq<char>) -> bool {
    has_prefix(href, "https://www.youtube.com/watch"@) || has_prefix(href, "https://youtu.be"@)
}

impl DocumentNode {
    /// The node for one of an article's links: YouTube videos get a fixed
    /// label and an HTML type, other links keep theirs.
    pub fn article_link(label: &str, mime: &str, href: &str) -> (r: DocumentNode)
        ensures
            r matches DocumentNode::Link { url, mime: m, label: l } && url@ == href@ && l@.len() == 1
                && (l@[0] matches DocumentNode::TextLeaf(t) && t@ == (if is_youtube(href@) {
                    "YouTube Video"@
                } else {
                    label@
                }))
                && m@ == (if is_youtube(href@) { "text/html"@ } else { mime@ }),
    {
        let h = href.to_string();
        if starts_with(&h, "https://www.youtube.com/watch") || starts_with(&h, "https://youtu.be") {
            DocumentNode::Link {
                label: vec![DocumentNode::TextLeaf("YouTube Video".to_string())],
                mime: "text/html".to_string(),
                url: h,
            }
        } else {
            DocumentNode::Link {
                url: h,
                mime: mime.to_string(),
                label: vec![DocumentNode::TextLeaf(label.to_string())],
            }
        }
    }
}

} // verus!
