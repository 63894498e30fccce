//! Discovery of RSS feeds advertised by an HTML page through
//! `<link type="application/rss+xml" href="...">` tags.
use vstd::prelude::*;
use vstd::string::StrSliceExecFns;

verus! {

broadcast use vstd::string::group_string_axioms;

/// The texts that a regular expression matches in `text`, in order, as the
/// regex crate finds them (leftmost-first, non-overlapping).
pub uninterp spec fn regex_match_texts(pattern: Seq<char>, text: Seq<char>) -> Seq<Seq<char>>;

/// Relies on `regex::Regex::new` and `Regex::find_iter`: the matched texts in
/// order. Only the link-tag pattern, which compiles, is admitted, so the
/// `expect` never fires.
#[verifier::external_body]
fn regex_find_all(pattern: &str, text: &str) -> (r: Vec<String>)
    requires
        pattern@ == LINK_TAG_PATTERN@,
    ensures
        r@.map_values(|s: String| s@) == regex_match_texts(pattern@, text@),
{
    let re = regex::Regex::new(pattern).expect("the link-tag pattern compiles");
    re.find_iter(text).map(|m| m.as_str().to_string()).collect()
}

/// The pattern of a `<link ...>` tag.
pub const LINK_TAG_PATTERN: &'static str = "<link[^>]*>";

/// A link advertised by a page: its MIME type and its target.
pub struct Link {
    pub mime: String,
    pub href: String,
}

/// The MIME type of an RSS feed.
pub open spec fn rss_mime() -> Seq<char> {
    "application/rss+xml"@
}

pub open spec fn is_space(c: char) -> bool {
    c == ' ' || c == '\t' || c == '\n' || c == '\r'
}

/// At position `i` of `tag`, after white space, stands `name="`.
pub open spec fn attr_opens(tag: Seq<char>, name: Seq<char>, i: int) -> bool {
    &&& 1 <= i
    &&& i + name.len() + 2 <= tag.len()
    &&& is_space(tag[i - 1])
    &&& tag.subrange(i, i + name.len()) == name
    &&& tag[i + name.len()] == '='
    &&& tag[i + name.len() + 1] == '"'
}

/// The position of the first `"` at or after `j`.
pub open spec fn next_quote(tag: Seq<char>, j: int) -> Option<int>
    decreases tag.len() - j,
{
    if j < 0 || j >= tag.len() {
        None
    } else if tag[j] == '"' {
        Some(j)
    } else {
        next_quote(tag, j + 1)
    }
}

/// The value of the first attribute `name="value"` at or after position `i`;
/// `None` when there is none or its quote is not closed.
pub open spec fn attr_from(tag: Seq<char>, name: Seq<char>, i: int) -> Option<Seq<char>>
    decreases tag.len() - i,
{
    if i < 0 || i >= tag.len() {
        None
    } else if attr_opens(tag, name, i) {
        match next_quote(tag, i + name.len() + 2) {
            Some(e) => Some(tag.subrange(i + name.len() + 2, e)),
            None => None,
        }
    } else {
        attr_from(tag, name, i + 1)
    }
}

/// The value of attribute `name` in a tag.
pub open spec fn attr_value(tag: Seq<char>, name: Seq<char>) -> Option<Seq<char>> {
    attr_from(tag, name, 0)
}

/// The `(type, href)` of a link tag that has both.
pub open spec fn link_of(tag: Seq<char>) -> Option<(Seq<char>, Seq<char>)> {
    match (attr_value(tag, "type"@), attr_value(tag, "href"@)) {
        (Some(t), Some(h)) => Some((t, h)),
        _ => None,
    }
}

/// The targets of the RSS links among `tags`, in order.
pub open spec fn feed_links(tags: Seq<Seq<char>>) -> Seq<Seq<char>>
    decreases tags.len(),
{
    if tags.len() == 0 {
        Seq::empty()
    } else {
        let prev = feed_links(tags.drop_last());
        match link_of(tags.last()) {
            Some((t, h)) => if t == rss_mime() {
                prev.push(h)
            } else {
                prev
            },
            None => prev,
        }
    }
}

pub(crate) fn chars_of(s: &str) -> (r: Vec<char>)
    ensures
        r@ == s@,
{
    let n = s.unicode_len();
    let mut v: Vec<char> = Vec::new();
    let mut i: usize = 0;
    while i < n
        invariant
            n == s@.len(),
            i <= n,
            v@ == s@.subrange(0, i as int),
        decreases n - i,
    {
        v.push(s.get_char(i));
        assert(s@.subrange(0, i + 1) =~= s@.subrange(0, i as int).push(s@[i as int]));
        i = i + 1;
    }
    assert(s@.subrange(0, i as int) =~= s@);
    v
}

fn opens_at(t: &Vec<char>, name: &Vec<char>, i: usize) -> (r: bool)
    ensures
        r == attr_opens(t@, name@, i as int),
{
    if i < 1 || i > t.len() || name.len() > t.len() - i || t.len() - i - name.len() < 2 {
        return false;
    }
    let c = t[i - 1];
    if !(c == ' ' || c == '\t' || c == '\n' || c == '\r') {
        return false;
    }
    let mut k: usize = 0;
    while k < name.len()
        invariant
            i + name@.len() + 2 <= t@.len(),
            k <= name@.len(),
            forall|m: int| 0 <= m < k ==> t@[i + m] == name@[m],
        decreases name.len() - k,
    {
        assert(i + k < t.len());
        if t[i + k] != name[k] {
            assert(t@.subrange(i as int, i + name@.len())[k as int] != name@[k as int]);
            return false;
        }
        k = k + 1;
    }
    assert(t@.subrange(i as int, i + name@.len()) =~= name@);
    t[i + name.len()] == '=' && t[i + name.len() + 1] == '"'
}

fn quote_from(t: &Vec<char>, j: usize) -> (r: Option<usize>)
    ensures
        r matches Some(e) ==> next_quote(t@, j as int) == Some(e as int) && j <= e < t@.len(),
        r is None ==> next_quote(t@, j as int) is None,
{
    let mut k: usize = j;
    while k < t.len()
        invariant
            j <= k,
            next_quote(t@, j as int) == next_quote(t@, k as int),
        decreases t.len() - k,
    {
        if t[k] == '"' {
            return Some(k);
        }
        k = k + 1;
    }
    None
}

fn attribute(tag: &str, t: &Vec<char>, name: &Vec<char>) -> (r: Option<String>)
    requires
        t@ == tag@,
    ensures
        r matches Some(v) ==> attr_value(t@, name@) == Some(v@),
        r is None ==> attr_value(t@, name@) is None,
{
    let mut i: usize = 0;
    while i < t.len()
        invariant
            t@ == tag@,
            attr_value(t@, name@) == attr_from(t@, name@, i as int),
        decreases t.len() - i,
    {
        if opens_at(t, name, i) {
            let start = i + name.len() + 2;
            return match quote_from(t, start) {
                Some(e) => Some(tag.substring_char(start, e).to_string()),
                None => None,
            };
        }
        i = i + 1;
    }
    None
}

/// Reads the `type` and `href` attributes of a link tag.
pub fn parse_link(tag: &str) -> (r: Option<Link>)
    ensures
        r is Some <==> link_of(tag@) is Some,
        r matches Some(l) ==> link_of(tag@) == Some((l.mime@, l.href@)),
{
    let t = chars_of(tag);
    let mime_attr = chars_of("type");
    let href_name = chars_of("href");
    match (attribute(tag, &t, &mime_attr), attribute(tag, &t, &href_name)) {
        (Some(mime), Some(href)) => Some(Link { mime, href }),
        _ => None,
    }
}

/// The targets of the RSS links among the given link tags, in order.
pub fn feed_links_in(tags: &Vec<String>) -> (r: Vec<String>)
    ensures
        r@.map_values(|s: String| s@) == feed_links(tags@.map_values(|s: String| s@)),
{
    let ghost views = tags@.map_values(|s: String| s@);
    let target = "application/rss+xml".to_string();
    let mut out: Vec<String> = Vec::new();
    let mut i: usize = 0;
    while i < tags.len()
        invariant
            i <= tags.len(),
            views == tags@.map_values(|s: String| s@),
            target@ == rss_mime(),
            out@.map_values(|s: String| s@) == feed_links(views.subrange(0, i as int)),
        decreases tags.len() - i,
    {
        assert(views.subrange(0, i + 1).drop_last() =~= views.subrange(0, i as int));
        assert(views.subrange(0, i + 1).last() == tags@[i as int]@);
        let ghost before = out@;
        match parse_link(tags[i].as_str()) {
            Some(link) => {
                if link.mime.eq(&target) {
                    out.push(link.href);
                    assert(out@.map_values(|s: String| s@) =~= before.map_values(|s: String| s@).push(out@.last()@));
                }
            },
            None => {},
        }
        i = i + 1;
    }
    assert(views.subrange(0, i as int) =~= views);
    out
}

/// Takes an HTML page and returns the targets of all the RSS feeds it links.
pub fn find_feed(from: &str) -> (r: Vec<String>)
    ensures
        r@.map_values(|s: String| s@) == feed_links(regex_match_texts(LINK_TAG_PATTERN@, from@)),
{
    let tags = regex_find_all(LINK_TAG_PATTERN, from);
    feed_links_in(&tags)
}

} // verus!
