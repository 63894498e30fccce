//! Feeds of the two supported formats, Atom and RSS, held as the merge
//! engine's channels over the format crates' own values.
use vstd::prelude::*;
use vstd::utf8::{decode_utf8, valid_utf8};
use crate::codec::string_from_utf8;
use crate::merge::{all_identified, Listing, ListingView, Duplicate, Keyed, Merge, merged_listing};

verus! {

#[verifier::external_type_specification]
#[verifier::external_body]
pub struct ExRssChannel(rss::Channel);

#[verifier::external_type_specification]
#[verifier::external_body]
pub struct ExRssItem(rss::Item);

#[verifier::external_type_specification]
#[verifier::external_body]
pub struct ExAtomFeed(atom_syndication::Feed);

#[verifier::external_type_specification]
#[verifier::external_body]
pub struct ExAtomEntry(atom_syndication::Entry);

pub assume_specification[ <rss::Channel as Clone>::clone ](c: &rss::Channel) -> (r: rss::Channel)
    ensures
        r == *c,
;

pub assume_specification[ <rss::Item as Clone>::clone ](i: &rss::Item) -> (r: rss::Item)
    ensures
        r == *i,
;

pub assume_specification[ <atom_syndication::Feed as Clone>::clone ](f: &atom_syndication::Feed) -> (r: atom_syndication::Feed)
    ensures
        r == *f,
;

pub assume_specification[ <atom_syndication::Entry as Clone>::clone ](e: &atom_syndication::Entry) -> (r: atom_syndication::Entry)
    ensures
        r == *e,
;

impl Duplicate for rss::Channel {
    fn duplicate(&self) -> (r: Self) {
        self.clone()
    }
}

impl Duplicate for rss::Item {
    fn duplicate(&self) -> (r: Self) {
        self.clone()
    }
}

impl Duplicate for atom_syndication::Feed {
    fn duplicate(&self) -> (r: Self) {
        self.clone()
    }
}

impl Duplicate for atom_syndication::Entry {
    fn duplicate(&self) -> (r: Self) {
        self.clone()
    }
}

/// Relies on `Display` of `FromUtf8Error`, the error's message.
#[verifier::external_body]
fn utf8_error_text(e: &std::string::FromUtf8Error) -> (r: String) {
    e.to_string()
}

/// Whether atom_syndication accepts the text as an Atom document.
pub uninterp spec fn atom_parses(text: Seq<char>) -> bool;

/// Whether rss accepts the text as an RSS document.
pub uninterp spec fn rss_parses(text: Seq<char>) -> bool;

/// Whether the text parses in one of the two formats.
pub open spec fn feed_parses(text: Seq<char>) -> bool {
    atom_parses(text) || rss_parses(text)
}

/// Relies on `atom_syndication::Feed::from_str`, which parses an Atom
/// document; whether it succeeds depends on the text alone.
#[verifier::external_body]
fn parse_atom(text: &str) -> (r: Option<atom_syndication::Feed>)
    ensures
        r is Some <==> atom_parses(text@),
{
    <atom_syndication::Feed as std::str::FromStr>::from_str(text).ok()
}

/// Relies on `rss::Channel::from_str`, which parses an RSS document; whether
/// it succeeds depends on the text alone.
#[verifier::external_body]
fn parse_rss(text: &str) -> (r: Option<rss::Channel>)
    ensures
        r is Some <==> rss_parses(text@),
{
    <rss::Channel as std::str::FromStr>::from_str(text).ok()
}

/// Relies on `std::mem::take` on the public `entries` field of an Atom feed.
#[verifier::external_body]
fn take_atom_entries(f: &mut atom_syndication::Feed) -> (r: Vec<atom_syndication::Entry>) {
    std::mem::take(&mut f.entries)
}

/// Relies on `std::mem::take` on the public `items` field of an RSS channel.
#[verifier::external_body]
fn take_rss_items(c: &mut rss::Channel) -> (r: Vec<rss::Item>) {
    std::mem::take(&mut c.items)
}

/// Relies on `atom_syndication::Entry::id`, the entry's identifier.
#[verifier::external_body]
fn atom_entry_id(e: &atom_syndication::Entry) -> (r: String) {
    e.id().to_string()
}

/// Relies on `rss::Item::guid`, the item's GUID if it has one.
#[verifier::external_body]
fn rss_item_guid(i: &rss::Item) -> (r: Option<String>) {
    i.guid().map(|g| g.value().to_string())
}

/// Relies on `atom_syndication::Feed::set_entries`.
#[verifier::external_body]
fn set_atom_entries(f: &mut atom_syndication::Feed, entries: Vec<atom_syndication::Entry>) {
    f.set_entries(entries)
}

/// Relies on `rss::Channel::set_items`.
#[verifier::external_body]
fn set_rss_items(c: &mut rss::Channel, items: Vec<rss::Item>) {
    c.set_items(items)
}

/// Relies on `ToString` of an Atom feed, which writes it as XML.
#[verifier::external_body]
fn atom_to_xml(f: &atom_syndication::Feed) -> (r: String) {
    f.to_string()
}

/// Relies on `Display` of an RSS channel, which writes it as XML.
#[verifier::external_body]
fn rss_to_xml(c: &rss::Channel) -> (r: String) {
    c.to_string()
}

/// Relies on `Default` of an Atom feed.
#[verifier::external_body]
fn default_atom() -> (r: atom_syndication::Feed) {
    atom_syndication::Feed::default()
}

/// Relies on `Default` of an RSS channel.
#[verifier::external_body]
fn default_rss() -> (r: rss::Channel) {
    rss::Channel::default()
}

/// An Atom feed: its metadata and its entries keyed by entry id.
pub type AtomFeed = Listing<atom_syndication::Feed, atom_syndication::Entry>;

/// An RSS channel: its metadata and its items keyed by GUID.
pub type RssChannel = Listing<rss::Channel, rss::Item>;

/// A parsed subscription in one of the two formats.
pub enum ParsedFeed {
    Atom(AtomFeed),
    RSS(RssChannel),
}

/// What a feed holds, as mathematics.
pub enum ParsedFeedView {
    Atom(ListingView<atom_syndication::Feed, atom_syndication::Entry>),
    RSS(ListingView<rss::Channel, rss::Item>),
}

impl View for ParsedFeed {
    type V = ParsedFeedView;

    open spec fn view(&self) -> ParsedFeedView {
        match self {
            ParsedFeed::Atom(a) => ParsedFeedView::Atom(a@),
            ParsedFeed::RSS(r) => ParsedFeedView::RSS(r@),
        }
    }
}

/// Whether two feeds are of the same format.
pub open spec fn same_kind(a: ParsedFeedView, b: ParsedFeedView) -> bool {
    match (a, b) {
        (ParsedFeedView::Atom(_), ParsedFeedView::Atom(_)) => true,
        (ParsedFeedView::RSS(_), ParsedFeedView::RSS(_)) => true,
        _ => false,
    }
}

/// The feed after merging `from` into `base`; a feed of the other format
/// leaves `base` as it was.
pub open spec fn merged_feed(base: ParsedFeedView, from: ParsedFeedView) -> ParsedFeedView {
    match (base, from) {
        (ParsedFeedView::Atom(l), ParsedFeedView::Atom(r)) => ParsedFeedView::Atom(merged_listing(l, r)),
        (ParsedFeedView::RSS(l), ParsedFeedView::RSS(r)) => ParsedFeedView::RSS(merged_listing(l, r)),
        _ => base,
    }
}

/// The items of a feed, forgetting their format-specific content.
pub open spec fn item_count(f: ParsedFeedView) -> nat {
    match f {
        ParsedFeedView::Atom(a) => a.items.len(),
        ParsedFeedView::RSS(r) => r.items.len(),
    }
}

impl Merge for ParsedFeed {
    open spec fn merge_spec(base: ParsedFeedView, from: ParsedFeedView) -> ParsedFeedView {
        merged_feed(base, from)
    }

    fn merge(&mut self, from: &Self) {
        match (self, from) {
            (ParsedFeed::Atom(l), ParsedFeed::Atom(r)) => l.merge(r),
            (ParsedFeed::RSS(l), ParsedFeed::RSS(r)) => l.merge(r),
            _ => {},
        }
    }
}

fn atom_from_outside(mut f: atom_syndication::Feed) -> (r: AtomFeed)
    ensures
        forall|i: int| 0 <= i < r.items@.len() ==> r.items@[i].id.is_some(),
{
    let entries = take_atom_entries(&mut f);
    let mut items: Vec<Keyed<atom_syndication::Entry>> = Vec::new();
    let mut i: usize = 0;
    while i < entries.len()
        invariant
            i <= entries.len(),
            items@.len() == i,
            forall|j: int| 0 <= j < i ==> items@[j].id.is_some(),
        decreases entries.len() - i,
    {
        let id = atom_entry_id(&entries[i]);
        items.push(Keyed { id: Some(id), content: entries[i].duplicate() });
        i = i + 1;
    }
    Listing { meta: f, items }
}

fn rss_from_outside(mut c: rss::Channel) -> (r: RssChannel) {
    let outside = take_rss_items(&mut c);
    let mut items: Vec<Keyed<rss::Item>> = Vec::new();
    let mut i: usize = 0;
    while i < outside.len()
        invariant
            i <= outside.len(),
            items@.len() == i,
            forall|j: int| 0 <= j < i ==> items@[j].content == outside@[j],
        decreases outside.len() - i,
    {
        let id = rss_item_guid(&outside[i]);
        items.push(Keyed { id, content: outside[i].duplicate() });
        i = i + 1;
    }
    Listing { meta: c, items }
}

/// The contents of a channel's items, in order.
fn contents<M, T: Duplicate>(c: &Listing<M, T>) -> (r: Vec<T>)
    ensures
        r@.len() == c.items@.len(),
        forall|i: int| 0 <= i < r@.len() ==> r@[i] == c.items@[i].content,
{
    let mut out: Vec<T> = Vec::new();
    let mut i: usize = 0;
    while i < c.items.len()
        invariant
            i <= c.items.len(),
            out@.len() == i,
            forall|j: int| 0 <= j < i ==> out@[j] == c.items@[j].content,
        decreases c.items.len() - i,
    {
        out.push(c.items[i].content.duplicate());
        i = i + 1;
    }
    out
}

impl ParsedFeed {
    /// Parses a document as Atom, or failing that as RSS.
    pub fn from_str(text: &str) -> (r: Result<ParsedFeed, &'static str>)
        ensures
            r is Ok <==> feed_parses(text@),
            atom_parses(text@) ==> r matches Ok(ParsedFeed::Atom(_)),
            !atom_parses(text@) && rss_parses(text@) ==> r matches Ok(ParsedFeed::RSS(_)),
            r matches Err(e) ==> e@ == "Could not parse XML as Atom or RSS from input"@,
            r matches Ok(ParsedFeed::Atom(a)) ==> forall|i: int| 0 <= i < a.items@.len() ==> a.items@[i].id.is_some(),
    {
        let atom = parse_atom(text);
        match atom {
            Some(f) => Ok(ParsedFeed::Atom(atom_from_outside(f))),
            None => match parse_rss(text) {
                Some(c) => Ok(ParsedFeed::RSS(rss_from_outside(c))),
                None => Err("Could not parse XML as Atom or RSS from input"),
            },
        }
    }

    /// Decodes bytes as UTF-8 text and parses it; the error is a message.
    pub fn try_from(value: Vec<u8>) -> (r: Result<ParsedFeed, String>)
        ensures
            r is Ok <==> valid_utf8(value@) && feed_parses(decode_utf8(value@)),
            r matches Ok(f) ==> (atom_parses(decode_utf8(value@)) <==> f is Atom),
    {
        match string_from_utf8(value) {
            Ok(text) => match ParsedFeed::from_str(text.as_str()) {
                Ok(f) => Ok(f),
                Err(e) => Err(e.to_string()),
            },
            Err(e) => Err(utf8_error_text(&e)),
        }
    }

    /// Writes the feed, metadata and items, as an XML document.
    pub fn to_xml(&self) -> (r: String) {
        match self {
            ParsedFeed::Atom(a) => {
                let mut f = a.meta.duplicate();
                set_atom_entries(&mut f, contents(a));
                atom_to_xml(&f)
            },
            ParsedFeed::RSS(c) => {
                let mut ch = c.meta.duplicate();
                set_rss_items(&mut ch, contents(c));
                rss_to_xml(&ch)
            },
        }
    }

    /// Whether `self` and `other` are of the same format, so that one can be
    /// merged into the other.
    pub fn same_kind(&self, other: &ParsedFeed) -> (r: bool)
        ensures
            r == same_kind(self@, other@),
    {
        match (self, other) {
            (ParsedFeed::Atom(_), ParsedFeed::Atom(_)) => true,
            (ParsedFeed::RSS(_), ParsedFeed::RSS(_)) => true,
            _ => false,
        }
    }

    /// An empty feed of the same format as `self`, with default metadata.
    pub fn empty_like(&self) -> (r: ParsedFeed)
        ensures
            same_kind(r@, self@),
            item_count(r@) == 0,
    {
        match self {
            ParsedFeed::Atom(_) => ParsedFeed::Atom(Listing { meta: default_atom(), items: Vec::new() }),
            ParsedFeed::RSS(_) => ParsedFeed::RSS(Listing { meta: default_rss(), items: Vec::new() }),
        }
    }

    /// An empty RSS channel with default metadata.
    pub fn empty_rss() -> (r: ParsedFeed)
        ensures
            r@ is RSS,
            item_count(r@) == 0,
    {
        ParsedFeed::RSS(Listing { meta: default_rss(), items: Vec::new() })
    }

    /// An exact copy of the feed.
    pub fn duplicate(&self) -> (r: ParsedFeed)
        ensures
            r@ == self@,
    {
        match self {
            ParsedFeed::Atom(a) => ParsedFeed::Atom(Listing { meta: a.meta.duplicate(), items: dup_items(&a.items) }),
            ParsedFeed::RSS(c) => ParsedFeed::RSS(Listing { meta: c.meta.duplicate(), items: dup_items(&c.items) }),
        }
    }
}

fn dup_items<T: Duplicate>(v: &Vec<Keyed<T>>) -> (r: Vec<Keyed<T>>)
    ensures
        r@ == v@,
{
    let mut out: Vec<Keyed<T>> = Vec::new();
    let mut i: usize = 0;
    while i < v.len()
        invariant
            i <= v.len(),
            out@ == v@.subrange(0, i as int),
        decreases v.len() - i,
    {
        out.push(v[i].duplicate());
        assert(v@.subrange(0, i + 1) =~= v@.subrange(0, i as int).push(v@[i as int]));
        i = i + 1;
    }
    assert(v@.subrange(0, i as int) =~= v@);
    out
}

/// Every item of the feed has an identity.
pub open spec fn feed_identified(f: ParsedFeedView) -> bool {
    match f {
        ParsedFeedView::Atom(a) => all_identified(a.items),
        ParsedFeedView::RSS(c) => all_identified(c.items),
    }
}

/// Merging the same incoming feed a second time changes nothing, when all its
/// items have an identity.
pub proof fn lemma_feed_merge_idempotent(base: ParsedFeedView, from: ParsedFeedView)
    requires
        feed_identified(from),
    ensures
        merged_feed(merged_feed(base, from), from) == merged_feed(base, from),
{
    match (base, from) {
        (ParsedFeedView::Atom(l), ParsedFeedView::Atom(r)) => crate::merge::lemma_merge_idempotent(l, r),
        (ParsedFeedView::RSS(l), ParsedFeedView::RSS(r)) => crate::merge::lemma_merge_idempotent(l, r),
        _ => {},
    }
}

/// Merging a feed into itself gives it back unchanged, when all its items
/// have an identity.
pub proof fn lemma_feed_merge_self(f: ParsedFeedView)
    requires
        feed_identified(f),
    ensures
        merged_feed(f, f) == f,
{
    match f {
        ParsedFeedView::Atom(a) => crate::merge::lemma_merge_self(a),
        ParsedFeedView::RSS(c) => crate::merge::lemma_merge_self(c),
    }
}

} // verus!
