//! The subscription store's in-memory state: the set of read articles and the
//! map of subscriptions, both mirrored by files whose names are
//! [`codec`](crate::codec) encodings.
use vstd::prelude::*;
use vstd::string::StringExecFns;
use vstd::utf8::{decode_utf8, valid_utf8};
use crate::codec::{decode, encode, name_of, string_from_utf8};
use crate::feed::{LINK_TAG_PATTERN, feed_links, find_feed, regex_match_texts};
use crate::merge::Merge;
use crate::syndication::{ParsedFeed, ParsedFeedView, atom_parses, feed_parses, merged_feed};

verus! {

/// The key of a read marker: the feed's URL, `%`, and the article id.
pub open spec fn composite_key(pub_url: Seq<char>, article_id: Seq<char>) -> Seq<char> {
    pub_url + seq!['%'] + article_id
}

/// Builds the read-marker key of an article.
pub fn read_key(pub_url: &str, article_id: &str) -> (r: String)
    ensures
        r@ == composite_key(pub_url@, article_id@),
{
    let mut k = pub_url.to_string();
    proof {
        reveal_strlit("%");
    }
    k.append("%");
    k.append(article_id);
    k
}

/// The texts whose encodings are among `names`.
pub open spec fn decoded_names(names: Seq<Seq<char>>) -> Set<Seq<char>> {
    Set::new(|t: Seq<char>| exists|i: int| 0 <= i < names.len() && name_of(t) == names[i])
}

/// Whether one of the first `n` strings of `keys` has the text `t`.
pub open spec fn in_prefix(keys: Seq<String>, n: int, t: Seq<char>) -> bool {
    exists|j: int| 0 <= j < n && keys[j]@ == t
}

fn contains_text(keys: &Vec<String>, s: &String) -> (r: bool)
    ensures
        r == in_prefix(keys@, keys@.len() as int, s@),
{
    let mut k: usize = 0;
    while k < keys.len()
        invariant
            k <= keys.len(),
            !in_prefix(keys@, k as int, s@),
        decreases keys.len() - k,
    {
        if keys[k].eq(s) {
            return true;
        }
        k = k + 1;
    }
    false
}

/// The set of read articles, by composite key.
pub struct ReadSet {
    keys: Vec<String>,
}

impl View for ReadSet {
    type V = Set<Seq<char>>;

    closed spec fn view(&self) -> Set<Seq<char>> {
        Set::new(|k: Seq<char>| exists|i: int| 0 <= i < self.keys@.len() && self.keys@[i]@ == k)
    }
}

impl ReadSet {
    /// No article read.
    pub fn new() -> (r: ReadSet)
        ensures
            r@ == Set::<Seq<char>>::empty(),
    {
        let r = ReadSet { keys: Vec::new() };
        assert(r@ =~= Set::<Seq<char>>::empty());
        r
    }

    fn contains_key(&self, key: &String) -> (r: bool)
        ensures
            r == self@.contains(key@),
    {
        let mut i: usize = 0;
        while i < self.keys.len()
            invariant
                i <= self.keys.len(),
                forall|j: int| 0 <= j < i ==> self.keys@[j]@ != key@,
            decreases self.keys.len() - i,
        {
            if self.keys[i].eq(key) {
                return true;
            }
            i = i + 1;
        }
        false
    }

    fn insert_key(&mut self, key: String)
        ensures
            final(self)@ == old(self)@.insert(key@),
    {
        if !self.contains_key(&key) {
            let ghost k = key@;
            self.keys.push(key);
            assert forall|t: Seq<char>| self@.contains(t) == old(self)@.insert(k).contains(t) by {
                assert(self.keys@[self.keys@.len() - 1]@ == k);
                if old(self)@.contains(t) {
                    let j = choose|j: int| 0 <= j < old(self).keys@.len() && old(self).keys@[j]@ == t;
                    assert(self.keys@[j] == old(self).keys@[j]);
                }
            }
            assert(self@ =~= old(self)@.insert(k));
        } else {
            assert(self@ =~= old(self)@.insert(key@));
        }
    }

    fn remove_key(&mut self, key: &String) -> (r: bool)
        ensures
            r == old(self)@.contains(key@),
            final(self)@ == old(self)@.remove(key@),
    {
        let found = self.contains_key(key);
        let mut kept: Vec<String> = Vec::new();
        let mut i: usize = 0;
        while i < self.keys.len()
            invariant
                i <= self.keys.len(),
                forall|j: int| 0 <= j < kept@.len() ==> kept@[j]@ != key@,
                forall|t: Seq<char>|
                    #![trigger in_prefix(kept@, kept@.len() as int, t)]
                    #![trigger in_prefix(self.keys@, i as int, t)]
                    t != key@ ==> (in_prefix(kept@, kept@.len() as int, t) <==> in_prefix(self.keys@, i as int, t)),
            decreases self.keys.len() - i,
        {
            let ghost before = kept@;
            if !self.keys[i].eq(key) {
                kept.push(self.keys[i].clone());
            }
            assert forall|t: Seq<char>| t != key@ implies (in_prefix(kept@, kept@.len() as int, t)
                <==> in_prefix(self.keys@, i + 1, t)) by {
                if in_prefix(self.keys@, i + 1, t) && !in_prefix(self.keys@, i as int, t) {
                    assert(kept@[kept@.len() - 1]@ == t);
                }
                if in_prefix(kept@, kept@.len() as int, t) && !in_prefix(before, before.len() as int, t) {
                    assert(self.keys@[i as int]@ == t);
                }
                if in_prefix(before, before.len() as int, t) {
                    let j = choose|j: int| 0 <= j < before.len() && before[j]@ == t;
                    assert(kept@[j] == before[j]);
                }
                if in_prefix(self.keys@, i as int, t) {
                    let j = choose|j: int| 0 <= j < i && self.keys@[j]@ == t;
                    assert(0 <= j < i + 1);
                }
            }
            i = i + 1;
        }
        assert(forall|t: Seq<char>| in_prefix(self.keys@, self.keys@.len() as int, t) == self@.contains(t));
        self.keys = kept;
        assert forall|t: Seq<char>| final(self)@.contains(t) == old(self)@.remove(key@).contains(t) by {
            assert(in_prefix(kept@, kept@.len() as int, t) == final(self)@.contains(t));
        }
        assert(final(self)@ =~= old(self)@.remove(key@));
        found
    }

    /// Marks an article read; returns the name of the marker file to write.
    pub fn mark_read(&mut self, pub_url: &str, article_id: &str) -> (name: String)
        ensures
            final(self)@ == old(self)@.insert(composite_key(pub_url@, article_id@)),
            name@ == name_of(composite_key(pub_url@, article_id@)),
    {
        let key = read_key(pub_url, article_id);
        let name = encode(key.as_str());
        self.insert_key(key);
        name
    }

    /// Marks an article unread; returns the name of the marker file to delete
    /// if it was read.
    pub fn mark_unread(&mut self, pub_url: &str, article_id: &str) -> (name: Option<String>)
        ensures
            final(self)@ == old(self)@.remove(composite_key(pub_url@, article_id@)),
            name is Some <==> old(self)@.contains(composite_key(pub_url@, article_id@)),
            name matches Some(n) ==> n@ == name_of(composite_key(pub_url@, article_id@)),
    {
        let key = read_key(pub_url, article_id);
        if self.remove_key(&key) {
            Some(encode(key.as_str()))
        } else {
            None
        }
    }

    /// Whether an article is marked read.
    pub fn has_read(&self, pub_url: &str, article_id: &str) -> (r: bool)
        ensures
            r == self@.contains(composite_key(pub_url@, article_id@)),
    {
        let key = read_key(pub_url, article_id);
        self.contains_key(&key)
    }

    /// The read set that a directory of marker files with these names
    /// stands for; names that do not decode are skipped.
    pub fn from_names(names: &Vec<String>) -> (r: ReadSet)
        ensures
            r@ == decoded_names(names@.map_values(|n: String| n@)),
    {
        let ghost views = names@.map_values(|n: String| n@);
        let mut set = ReadSet::new();
        let mut i: usize = 0;
        while i < names.len()
            invariant
                i <= names.len(),
                views == names@.map_values(|n: String| n@),
                set@ == decoded_names(views.subrange(0, i as int)),
            decreases names.len() - i,
        {
            let ghost before = set@;
            match decode(names[i].as_str()) {
                Ok(key) => {
                    set.insert_key(key);
                },
                Err(_) => {},
            }
            let ghost pre = views.subrange(0, i as int);
            let ghost post = views.subrange(0, i + 1);
            assert(set@ =~= decoded_names(post)) by {
                assert forall|t: Seq<char>| decoded_names(post).contains(t) implies set@.contains(t) by {
                    let j = choose|j: int| 0 <= j < post.len() && name_of(t) == #[trigger] post[j];
                    if j < i {
                        assert(pre[j] == post[j]);
                    }
                }
                assert forall|t: Seq<char>| set@.contains(t) implies decoded_names(post).contains(t) by {
                    if before.contains(t) {
                        let j = choose|j: int| 0 <= j < pre.len() && name_of(t) == #[trigger] pre[j];
                        assert(post[j] == pre[j]);
                    } else {
                        assert(post[i as int] == names@[i as int]@);
                    }
                }
            }
            i = i + 1;
        }
        assert(views.subrange(0, i as int) =~= views);
        set
    }
}

/// Marking an article read makes it read; marking it unread again makes it
/// unread.
pub proof fn lemma_read_mark_round_trip(read: Set<Seq<char>>, pub_url: Seq<char>, article_id: Seq<char>)
    ensures
        read.insert(composite_key(pub_url, article_id)).contains(composite_key(pub_url, article_id)),
        !read.insert(composite_key(pub_url, article_id)).remove(composite_key(pub_url, article_id)).contains(
            composite_key(pub_url, article_id),
        ),
{
}

/// A marker file written for an article, when the directory is read back,
/// marks that article read again.
pub proof fn lemma_marker_read_back(names: Seq<Seq<char>>, pub_url: Seq<char>, article_id: Seq<char>, i: int)
    requires
        0 <= i < names.len(),
        names[i] == name_of(composite_key(pub_url, article_id)),
    ensures
        decoded_names(names).contains(composite_key(pub_url, article_id)),
{
}

/// The value a subscription holds after `feed` is submitted for `pub_url`:
/// merged into the current value, or the feed itself when there is none.
pub open spec fn upserted(
    subs: Map<Seq<char>, ParsedFeedView>,
    pub_url: Seq<char>,
    feed: ParsedFeedView,
) -> ParsedFeedView {
    if subs.contains_key(pub_url) {
        merged_feed(subs[pub_url], feed)
    } else {
        feed
    }
}

/// The subscriptions after each `(pub_url, feed)` of `files` is submitted
/// in turn.
pub open spec fn absorbed(
    subs: Map<Seq<char>, ParsedFeedView>,
    files: Seq<(Seq<char>, ParsedFeedView)>,
) -> Map<Seq<char>, ParsedFeedView>
    decreases files.len(),
{
    if files.len() == 0 {
        subs
    } else {
        let prev = absorbed(subs, files.drop_last());
        let (u, f) = files.last();
        prev.insert(u, upserted(prev, u, f))
    }
}

/// The URLs that `files` holds.
pub open spec fn file_urls(files: Seq<(Seq<char>, ParsedFeedView)>) -> Set<Seq<char>> {
    Set::new(|u: Seq<char>| exists|i: int| 0 <= i < files.len() && files[i].0 == u)
}

/// The subscriptions after a refresh from the parsed files of the
/// subscription directory: every file is merged in, and a subscription
/// without a file is dropped.
pub open spec fn refreshed(
    subs: Map<Seq<char>, ParsedFeedView>,
    files: Seq<(Seq<char>, ParsedFeedView)>,
) -> Map<Seq<char>, ParsedFeedView> {
    absorbed(subs, files).restrict(file_urls(files))
}

/// The text that a file name decodes to, if any.
pub open spec fn decodes_to(name: Seq<char>) -> Option<Seq<char>> {
    if exists|t: Seq<char>| name_of(t) == name {
        Some(choose|t: Seq<char>| name_of(t) == name)
    } else {
        None
    }
}

/// File names and contents as text.
pub open spec fn text_views(files: Seq<(String, String)>) -> Seq<(Seq<char>, Seq<char>)> {
    files.map_values(|p: (String, String)| (p.0@, p.1@))
}

/// The URLs of the subscription files, given as name and contents, whose
/// name decodes and whose text parses as a feed, in order; the others are
/// skipped.
pub open spec fn parsed_urls(files: Seq<(Seq<char>, Seq<char>)>) -> Seq<Seq<char>>
    decreases files.len(),
{
    if files.len() == 0 {
        Seq::empty()
    } else {
        let prev = parsed_urls(files.drop_last());
        let (name, text) = files.last();
        match decodes_to(name) {
            Some(u) => if feed_parses(text) {
                prev.push(u)
            } else {
                prev
            },
            None => prev,
        }
    }
}

/// The views of parsed subscription files.
pub open spec fn file_views(files: Seq<(String, ParsedFeed)>) -> Seq<(Seq<char>, ParsedFeedView)> {
    files.map_values(|p: (String, ParsedFeed)| (p.0@, p.1@))
}

/// The subscriptions: one feed per publication URL.
pub struct Subscriptions {
    entries: Vec<(String, ParsedFeed)>,
    map: Ghost<Map<Seq<char>, ParsedFeedView>>,
}

impl View for Subscriptions {
    type V = Map<Seq<char>, ParsedFeedView>;

    closed spec fn view(&self) -> Map<Seq<char>, ParsedFeedView> {
        self.map@
    }
}

impl Subscriptions {
    spec fn key_at(&self, i: int) -> Seq<char> {
        self.entries@[i].0@
    }

    /// The entries have distinct URLs and hold exactly the map.
    pub closed spec fn wf(&self) -> bool {
        &&& forall|i: int, j: int|
            0 <= i < j < self.entries@.len() ==> #[trigger] self.key_at(i) != #[trigger] self.key_at(j)
        &&& forall|k: Seq<char>| #[trigger]
            self.map@.contains_key(k) <==> exists|i: int| 0 <= i < self.entries@.len() && self.key_at(i) == k
        &&& forall|i: int| 0 <= i < self.entries@.len() ==> self.map@[#[trigger] self.key_at(i)] == self.entries@[i].1@
    }

    /// No subscriptions.
    pub fn new() -> (r: Subscriptions)
        ensures
            r.wf(),
            r@ == Map::<Seq<char>, ParsedFeedView>::empty(),
    {
        Subscriptions { entries: Vec::new(), map: Ghost(Map::empty()) }
    }

    fn find(&self, pub_url: &String) -> (r: Option<usize>)
        requires
            self.wf(),
        ensures
            r matches Some(i) ==> i < self.entries@.len() && self.key_at(i as int) == pub_url@,
            r is None ==> !self@.contains_key(pub_url@),
    {
        let mut i: usize = 0;
        while i < self.entries.len()
            invariant
                i <= self.entries.len(),
                forall|j: int| 0 <= j < i ==> self.key_at(j) != pub_url@,
            decreases self.entries.len() - i,
        {
            if self.entries[i].0.eq(pub_url) {
                return Some(i);
            }
            i = i + 1;
        }
        None
    }

    /// The feed stored for `pub_url`, if any.
    pub fn get_subscription(&self, pub_url: &str) -> (r: Option<ParsedFeed>)
        requires
            self.wf(),
        ensures
            r is Some <==> self@.contains_key(pub_url@),
            r matches Some(f) ==> f@ == self@[pub_url@],
    {
        let u = pub_url.to_string();
        match self.find(&u) {
            Some(i) => Some(self.entries[i].1.duplicate()),
            None => None,
        }
    }

    /// A snapshot of every subscription.
    pub fn get_subscriptions(&self) -> (r: Vec<(String, ParsedFeed)>)
        requires
            self.wf(),
        ensures
            forall|i: int, j: int| 0 <= i < j < r@.len() ==> r@[i].0@ != r@[j].0@,
            forall|i: int| 0 <= i < r@.len() ==> self@.contains_key(#[trigger] r@[i].0@) && self@[r@[i].0@] == r@[i].1@,
            forall|k: Seq<char>| self@.contains_key(k) ==> exists|i: int| 0 <= i < r@.len() && r@[i].0@ == k,
    {
        let mut out: Vec<(String, ParsedFeed)> = Vec::new();
        let mut i: usize = 0;
        while i < self.entries.len()
            invariant
                self.wf(),
                i <= self.entries.len(),
                out@.len() == i,
                forall|j: int| 0 <= j < i ==> out@[j].0@ == self.key_at(j) && out@[j].1@ == self.entries@[j].1@,
            decreases self.entries.len() - i,
        {
            out.push((self.entries[i].0.clone(), self.entries[i].1.duplicate()));
            i = i + 1;
        }
        assert forall|k: Seq<char>| self@.contains_key(k) implies exists|i: int| 0 <= i < out@.len() && out@[i].0@ == k by {
            let i = choose|i: int| 0 <= i < self.entries@.len() && self.key_at(i) == k;
            assert(out@[i].0@ == k);
        }
        assert forall|i: int, j: int| 0 <= i < j < out@.len() implies out@[i].0@ != out@[j].0@ by {
            assert(self.key_at(i) != self.key_at(j));
        }
        assert forall|i: int| 0 <= i < out@.len() implies self@.contains_key(#[trigger] out@[i].0@) && self@[out@[i].0@] == out@[i].1@ by {
            assert(self.key_at(i) == out@[i].0@);
        }
        out
    }

    /// Submits `feed` for `pub_url`; returns the stored value.
    fn upsert(&mut self, pub_url: &str, feed: &ParsedFeed) -> (stored: ParsedFeed)
        requires
            old(self).wf(),
        ensures
            final(self).wf(),
            final(self)@ == old(self)@.insert(pub_url@, upserted(old(self)@, pub_url@, feed@)),
            stored@ == upserted(old(self)@, pub_url@, feed@),
    {
        let u = pub_url.to_string();
        let ghost value = upserted(self@, pub_url@, feed@);
        match self.find(&u) {
            Some(i) => {
                let mut cur = self.entries[i].1.duplicate();
                cur.merge(feed);
                let stored = cur.duplicate();
                self.entries[i] = (u, cur);
                self.map = Ghost(self.map@.insert(pub_url@, value));
                assert forall|k: Seq<char>| #[trigger] self.map@.contains_key(k) <==> exists|j: int|
                    0 <= j < self.entries@.len() && self.key_at(j) == k by {
                    if old(self).map@.contains_key(k) {
                        let j = choose|j: int| 0 <= j < old(self).entries@.len() && old(self).key_at(j) == k;
                        assert(self.key_at(j) == k);
                    }
                    if exists|j: int| 0 <= j < self.entries@.len() && self.key_at(j) == k {
                        let j = choose|j: int| 0 <= j < self.entries@.len() && self.key_at(j) == k;
                        if j != i {
                            assert(old(self).key_at(j) == k);
                        }
                    }
                }
                assert forall|j: int| 0 <= j < self.entries@.len() implies self.map@[#[trigger] self.key_at(j)] == self.entries@[j].1@ by {
                    if j != i {
                        assert(old(self).key_at(j) != old(self).key_at(i as int));
                    }
                }
                assert forall|a: int, b: int| 0 <= a < b < self.entries@.len() implies #[trigger] self.key_at(a) != #[trigger] self.key_at(b) by {
                    assert(old(self).key_at(a) != old(self).key_at(b));
                }
                stored
            },
            None => {
                let stored = feed.duplicate();
                self.entries.push((u, feed.duplicate()));
                self.map = Ghost(self.map@.insert(pub_url@, value));
                let ghost n: int = self.entries@.len() - 1;
                assert forall|k: Seq<char>| #[trigger] self.map@.contains_key(k) <==> exists|j: int|
                    0 <= j < self.entries@.len() && self.key_at(j) == k by {
                    if old(self).map@.contains_key(k) {
                        let j = choose|j: int| 0 <= j < old(self).entries@.len() && old(self).key_at(j) == k;
                        assert(self.key_at(j) == k);
                    }
                    if k == pub_url@ {
                        assert(self.key_at(n) == k);
                    }
                    if exists|j: int| 0 <= j < self.entries@.len() && self.key_at(j) == k {
                        let j = choose|j: int| 0 <= j < self.entries@.len() && self.key_at(j) == k;
                        if j != n {
                            assert(old(self).key_at(j) == k);
                        }
                    }
                }
                assert forall|j: int| 0 <= j < self.entries@.len() implies self.map@[#[trigger] self.key_at(j)] == self.entries@[j].1@ by {
                    if j != n {
                        assert(old(self).key_at(j) == self.key_at(j));
                        assert(old(self).map@.contains_key(old(self).key_at(j)));
                    }
                }
                assert forall|a: int, b: int| 0 <= a < b < self.entries@.len() implies #[trigger] self.key_at(a) != #[trigger] self.key_at(b) by {
                    if b == n {
                        assert(old(self).key_at(a) == self.key_at(a));
                        assert(old(self).map@.contains_key(old(self).key_at(a)));
                    } else {
                        assert(old(self).key_at(a) != old(self).key_at(b));
                    }
                }
                stored
            },
        }
    }

    /// Subscribes to `pub_url` with `feed`, merged into what is stored;
    /// returns the name of the subscription file and the text to write there.
    pub fn subscribe(&mut self, pub_url: &str, feed: &ParsedFeed) -> (file: (String, String))
        requires
            old(self).wf(),
        ensures
            final(self).wf(),
            final(self)@ == old(self)@.insert(pub_url@, upserted(old(self)@, pub_url@, feed@)),
            file.0@ == name_of(pub_url@),
    {
        let stored = self.upsert(pub_url, feed);
        (encode(pub_url), stored.to_xml())
    }

    /// Drops the subscription to `pub_url`; returns the name of its file if
    /// there was one.
    pub fn unsubscribe(&mut self, pub_url: &str) -> (name: Option<String>)
        requires
            old(self).wf(),
        ensures
            final(self).wf(),
            final(self)@ == old(self)@.remove(pub_url@),
            name is Some <==> old(self)@.contains_key(pub_url@),
            name matches Some(n) ==> n@ == name_of(pub_url@),
    {
        let u = pub_url.to_string();
        match self.find(&u) {
            None => {
                assert(self@ =~= old(self)@.remove(pub_url@));
                None
            },
            Some(i) => {
                self.entries.remove(i);
                self.map = Ghost(self.map@.remove(pub_url@));
                assert forall|j: int| 0 <= j < self.entries@.len() implies #[trigger] self.key_at(j) == old(self).key_at(
                    if j < i { j } else { j + 1 },
                ) by {}
                assert forall|k: Seq<char>| #[trigger] self.map@.contains_key(k) <==> exists|j: int|
                    0 <= j < self.entries@.len() && self.key_at(j) == k by {
                    if self.map@.contains_key(k) {
                        let j = choose|j: int| 0 <= j < old(self).entries@.len() && old(self).key_at(j) == k;
                        assert(j != i);
                        if j < i {
                            assert(self.key_at(j) == k);
                        } else {
                            assert(self.key_at(j - 1) == k);
                        }
                    }
                    if exists|j: int| 0 <= j < self.entries@.len() && self.key_at(j) == k {
                        let j = choose|j: int| 0 <= j < self.entries@.len() && self.key_at(j) == k;
                        let oj = if j < i { j } else { j + 1 };
                        assert(old(self).key_at(oj) == k);
                        assert(old(self).key_at(oj) != old(self).key_at(i as int));
                    }
                }
                assert forall|j: int| 0 <= j < self.entries@.len() implies self.map@[#[trigger] self.key_at(j)] == self.entries@[j].1@ by {
                    let oj = if j < i { j } else { j + 1 };
                    assert(old(self).key_at(oj) != old(self).key_at(i as int));
                }
                assert forall|a: int, b: int| 0 <= a < b < self.entries@.len() implies #[trigger] self.key_at(a) != #[trigger] self.key_at(b) by {
                    let oa = if a < i { a } else { a + 1 };
                    let ob = if b < i { b } else { b + 1 };
                    assert(old(self).key_at(oa) != old(self).key_at(ob));
                }
                Some(encode(pub_url))
            },
        }
    }

    /// Keeps only the subscriptions whose URL is in `keep`.
    #[verifier::rlimit(40)]
    fn retain_only(&mut self, keep: &Vec<String>)
        requires
            old(self).wf(),
        ensures
            final(self).wf(),
            final(self)@ == old(self)@.restrict(Set::new(|u: Seq<char>| in_prefix(keep@, keep@.len() as int, u))),
    {
        let ghost keep_set = Set::new(|u: Seq<char>| in_prefix(keep@, keep@.len() as int, u));
        let mut out: Vec<(String, ParsedFeed)> = Vec::new();
        let ghost mut src: Seq<int> = Seq::empty();
        let mut i: usize = 0;
        while i < self.entries.len()
            invariant
                self.wf(),
                i <= self.entries.len(),
                keep_set == Set::new(|u: Seq<char>| in_prefix(keep@, keep@.len() as int, u)),
                src.len() == out@.len(),
                forall|a: int, b: int| 0 <= a < b < src.len() ==> src[a] < src[b],
                forall|m: int| 0 <= m < src.len() ==> 0 <= #[trigger] src[m] < i,
                forall|m: int| 0 <= m < out@.len() ==> self.key_at(src[m]) == #[trigger] out@[m].0@
                    && out@[m].1@ == self.entries@[src[m]].1@,
                forall|m: int| 0 <= m < out@.len() ==> keep_set.contains(#[trigger] out@[m].0@),
                forall|j: int| 0 <= j < i && keep_set.contains(#[trigger] self.key_at(j)) ==> exists|m: int|
                    0 <= m < out@.len() && out@[m].0@ == self.key_at(j),
            decreases self.entries.len() - i,
        {
            let ghost before = out@;
            if contains_text(keep, &self.entries[i].0) {
                out.push((self.entries[i].0.clone(), self.entries[i].1.duplicate()));
                proof {
                    src = src.push(i as int);
                }
            }
            assert forall|j: int| 0 <= j < i + 1 && keep_set.contains(#[trigger] self.key_at(j)) implies exists|m: int|
                0 <= m < out@.len() && out@[m].0@ == self.key_at(j) by {
                if j < i {
                    let m = choose|m: int| 0 <= m < before.len() && before[m].0@ == self.key_at(j);
                    assert(out@[m] == before[m]);
                } else {
                    assert(out@[out@.len() - 1].0@ == self.key_at(j));
                }
            }
            i = i + 1;
        }
        assert forall|a: int, b: int| 0 <= a < b < out@.len() implies out@[a].0@ != out@[b].0@ by {
            assert(self.key_at(src[a]) != self.key_at(src[b]));
        }
        assert forall|m: int| 0 <= m < out@.len() implies self@.contains_key(#[trigger] out@[m].0@)
            && self@[out@[m].0@] == out@[m].1@ by {
            assert(self.key_at(src[m]) == out@[m].0@);
        }
        let ghost old_map = self.map@;
        let ghost new_map = old_map.restrict(keep_set);
        assert forall|k: Seq<char>| #[trigger] new_map.contains_key(k) <==> exists|m: int|
            0 <= m < out@.len() && out@[m].0@ == k by {
            if new_map.contains_key(k) {
                let j = choose|j: int| 0 <= j < self.entries@.len() && self.key_at(j) == k;
                assert(keep_set.contains(self.key_at(j)));
            }
        }
        self.entries = out;
        self.map = Ghost(new_map);
        assert forall|a: int, b: int| 0 <= a < b < self.entries@.len() implies #[trigger] self.key_at(a) != #[trigger] self.key_at(b) by {
            assert(out@[a].0@ != out@[b].0@);
        }
        assert forall|m: int| 0 <= m < self.entries@.len() implies self.map@[#[trigger] self.key_at(m)] == self.entries@[m].1@ by {
            assert(keep_set.contains(out@[m].0@));
        }
        assert forall|k: Seq<char>| #[trigger] self.map@.contains_key(k) <==> exists|m: int|
            0 <= m < self.entries@.len() && self.key_at(m) == k by {
            if exists|m: int| 0 <= m < out@.len() && out@[m].0@ == k {
                let m = choose|m: int| 0 <= m < out@.len() && out@[m].0@ == k;
                assert(self.key_at(m) == k);
            }
        }
        assert(self@ =~= old(self)@.restrict(keep_set));
    }

    /// Refreshes from the parsed files of the subscription directory, each
    /// given as its URL and feed: every file is merged into the stored value,
    /// and subscriptions without a file are dropped.
    pub fn refresh_parsed(&mut self, files: &Vec<(String, ParsedFeed)>)
        requires
            old(self).wf(),
        ensures
            final(self).wf(),
            final(self)@ == refreshed(old(self)@, file_views(files@)),
    {
        let ghost fv = file_views(files@);
        let ghost m0 = self@;
        let mut urls: Vec<String> = Vec::new();
        let mut i: usize = 0;
        while i < files.len()
            invariant
                self.wf(),
                i <= files.len(),
                fv == file_views(files@),
                self@ == absorbed(m0, fv.subrange(0, i as int)),
                urls@.len() == i,
                forall|j: int| 0 <= j < i ==> #[trigger] urls@[j]@ == fv[j].0,
            decreases files.len() - i,
        {
            assert(fv.subrange(0, i + 1).drop_last() =~= fv.subrange(0, i as int));
            let _ = self.upsert(files[i].0.as_str(), &files[i].1);
            urls.push(files[i].0.clone());
            i = i + 1;
        }
        assert(fv.subrange(0, i as int) =~= fv);
        let ghost keep_set = Set::new(|u: Seq<char>| in_prefix(urls@, urls@.len() as int, u));
        assert forall|u: Seq<char>| keep_set.contains(u) == file_urls(fv).contains(u) by {
            if keep_set.contains(u) {
                let j = choose|j: int| 0 <= j < urls@.len() && urls@[j]@ == u;
                assert(fv[j].0 == u);
            }
            if file_urls(fv).contains(u) {
                let j = choose|j: int| 0 <= j < fv.len() && fv[j].0 == u;
                assert(urls@[j]@ == u);
            }
        }
        assert(keep_set =~= file_urls(fv));
        self.retain_only(&urls);
    }

    /// Refreshes from the subscription directory, given as file names and
    /// contents. Files whose name does not decode or whose text does not
    /// parse are skipped.
    pub fn refresh(&mut self, files: &Vec<(String, String)>)
        requires
            old(self).wf(),
        ensures
            final(self).wf(),
            exists|ps: Seq<(Seq<char>, ParsedFeedView)>|
                final(self)@ == refreshed(old(self)@, ps) && ps.map_values(|p: (Seq<char>, ParsedFeedView)| p.0)
                    == parsed_urls(text_views(files@)),
    {
        let ghost tv = text_views(files@);
        let mut parsed: Vec<(String, ParsedFeed)> = Vec::new();
        let mut i: usize = 0;
        while i < files.len()
            invariant
                i <= files.len(),
                tv == text_views(files@),
                parsed@.len() == parsed_urls(tv.subrange(0, i as int)).len(),
                forall|m: int| 0 <= m < parsed@.len() ==> #[trigger] parsed@[m].0@ == parsed_urls(tv.subrange(0, i as int))[m],
            decreases files.len() - i,
        {
            let ghost before = parsed@;
            let ghost pre = tv.subrange(0, i as int);
            let ghost post = tv.subrange(0, i + 1);
            assert(post.drop_last() =~= pre);
            assert(post.last() == (files@[i as int].0@, files@[i as int].1@));
            let name = files[i].0.as_str();
            match decode(name) {
                Ok(url) => {
                    assert(name_of(url@) == name@);
                    assert(decodes_to(name@) == Some(url@));
                    match ParsedFeed::from_str(files[i].1.as_str()) {
                        Ok(feed) => {
                            parsed.push((url, feed));
                        },
                        Err(_) => {},
                    }
                },
                Err(_) => {
                    assert(!exists|t: Seq<char>| name_of(t) == name@);
                },
            }
            assert forall|m: int| 0 <= m < parsed@.len() implies #[trigger] parsed@[m].0@ == parsed_urls(post)[m] by {
                if m < before.len() {
                    assert(parsed@[m] == before[m]);
                }
            }
            i = i + 1;
        }
        assert(tv.subrange(0, i as int) =~= tv);
        let ghost ps = file_views(parsed@);
        self.refresh_parsed(&parsed);
        assert(ps.map_values(|p: (Seq<char>, ParsedFeedView)| p.0) =~= parsed_urls(tv));
    }
}

proof fn lemma_absorbed_has(
    subs: Map<Seq<char>, ParsedFeedView>,
    files: Seq<(Seq<char>, ParsedFeedView)>,
    i: int,
)
    requires
        0 <= i < files.len(),
    ensures
        absorbed(subs, files).contains_key(files[i].0),
    decreases files.len(),
{
    if i < files.len() - 1 {
        lemma_absorbed_has(subs, files.drop_last(), i);
    }
}

/// A subscription file that another store wrote, once its name is decoded
/// and its text parsed, is present after a refresh.
pub proof fn lemma_refresh_sees_file(
    subs: Map<Seq<char>, ParsedFeedView>,
    files: Seq<(Seq<char>, ParsedFeedView)>,
    i: int,
)
    requires
        0 <= i < files.len(),
    ensures
        refreshed(subs, files).contains_key(files[i].0),
{
    lemma_absorbed_has(subs, files, i);
    assert(file_urls(files).contains(files[i].0));
}

/// Polls between forced refreshes of the reconciler when nothing changes.
pub const FORCED_REFRESH_POLLS: u32 = 5;

/// When the reconciler refreshes: on every change notification, and after
/// `force_after` polls in a row without one.
pub struct RefreshSchedule {
    pub idle_polls: u32,
    pub force_after: u32,
}

impl RefreshSchedule {
    pub open spec fn wf(&self) -> bool {
        0 < self.force_after && self.idle_polls < self.force_after
    }

    /// A schedule that forces a refresh after `force_after` quiet polls.
    pub fn new(force_after: u32) -> (r: RefreshSchedule)
        requires
            force_after > 0,
        ensures
            r.wf(),
            r.idle_polls == 0,
            r.force_after == force_after,
    {
        RefreshSchedule { idle_polls: 0, force_after }
    }

    /// Records one poll, `changed` telling whether a change was notified;
    /// returns whether to refresh now.
    pub fn on_poll(&mut self, changed: bool) -> (refresh: bool)
        requires
            old(self).wf(),
        ensures
            final(self).wf(),
            final(self).force_after == old(self).force_after,
            refresh == (changed || old(self).idle_polls + 1 == old(self).force_after),
            refresh ==> final(self).idle_polls == 0,
            !refresh ==> final(self).idle_polls == old(self).idle_polls + 1,
    {
        let due = self.idle_polls + 1 == self.force_after;
        if changed || due {
            self.idle_polls = 0;
            true
        } else {
            self.idle_polls = self.idle_polls + 1;
            false
        }
    }
}

/// How many polls without notification it takes, from `idle_polls`, until
/// [`RefreshSchedule::on_poll`] asks for a refresh.
pub open spec fn quiet_polls_until_refresh(idle_polls: u32, force_after: u32) -> nat
    decreases force_after - idle_polls,
{
    if idle_polls + 1 >= force_after {
        1
    } else {
        1 + quiet_polls_until_refresh((idle_polls + 1) as u32, force_after)
    }
}

/// Without notifications, a refresh comes within `force_after` polls of any
/// well-formed schedule.
pub proof fn lemma_refresh_within_interval(s: RefreshSchedule)
    requires
        s.wf(),
    ensures
        quiet_polls_until_refresh(s.idle_polls, s.force_after) == s.force_after - s.idle_polls,
        quiet_polls_until_refresh(s.idle_polls, s.force_after) <= s.force_after,
    decreases s.force_after - s.idle_polls,
{
    if s.idle_polls + 1 < s.force_after {
        lemma_refresh_within_interval(RefreshSchedule { idle_polls: (s.idle_polls + 1) as u32, force_after: s.force_after });
    }
}

/// Why downloaded bytes are not a feed.
pub enum ChannelFromBytesError {
    /// The text is neither Atom nor RSS.
    BadFeed(&'static str),
    /// The bytes are not UTF-8.
    BadUTF8(std::string::FromUtf8Error),
    /// The text is an HTML page that links this feed.
    HTMLWithLink(String),
}

/// A feed decoded from downloaded bytes.
pub struct WFeed(pub ParsedFeed);

impl WFeed {
    /// Decodes downloaded bytes as a feed. An HTML page that advertises a
    /// feed gives the first advertised link as the error.
    pub fn try_from(value: Vec<u8>) -> (r: Result<WFeed, ChannelFromBytesError>)
        ensures
            r matches Err(ChannelFromBytesError::BadUTF8(_)) <==> !valid_utf8(value@),
            r is Ok <==> valid_utf8(value@) && feed_parses(decode_utf8(value@)),
            r matches Ok(w) ==> (atom_parses(decode_utf8(value@)) <==> w.0 is Atom),
            r matches Err(ChannelFromBytesError::HTMLWithLink(_)) <==> valid_utf8(value@)
                && !feed_parses(decode_utf8(value@))
                && feed_links(regex_match_texts(LINK_TAG_PATTERN@, decode_utf8(value@))).len() > 0,
            r matches Err(ChannelFromBytesError::HTMLWithLink(l)) ==> l@ == feed_links(
                regex_match_texts(LINK_TAG_PATTERN@, decode_utf8(value@)),
            )[0],
            r matches Err(ChannelFromBytesError::BadFeed(_)) <==> valid_utf8(value@)
                && !feed_parses(decode_utf8(value@))
                && feed_links(regex_match_texts(LINK_TAG_PATTERN@, decode_utf8(value@))).len() == 0,
    {
        let text = match string_from_utf8(value) {
            Ok(t) => t,
            Err(e) => return Err(ChannelFromBytesError::BadUTF8(e)),
        };
        match ParsedFeed::from_str(text.as_str()) {
            Ok(f) => Ok(WFeed(f)),
            Err(e) => {
                let links = find_feed(text.as_str());
                if links.len() > 0 {
                    Err(ChannelFromBytesError::HTMLWithLink(links[0].clone()))
                } else {
                    Err(ChannelFromBytesError::BadFeed(e))
                }
            },
        }
    }
}

} // verus!
