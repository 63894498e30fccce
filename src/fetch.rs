//! The deduplicating download registry: at most one download per URL is in
//! flight, and a finished download is handed out once.
use vstd::prelude::*;

verus! {

/// The downloads in flight, keyed by URL, each held by its handle `H`.
pub struct Fetcher<H> {
    in_progress: Vec<(String, H)>,
    handles: Ghost<Map<Seq<char>, H>>,
}

impl<H> View for Fetcher<H> {
    type V = Map<Seq<char>, H>;

    closed spec fn view(&self) -> Map<Seq<char>, H> {
        self.handles@
    }
}

/// The registry after a request to download `url`: unchanged when a download
/// of `url` is already registered, else holding the new handle `h`.
pub open spec fn after_start<H>(m: Map<Seq<char>, H>, url: Seq<char>, h: H) -> Map<Seq<char>, H> {
    if m.contains_key(url) {
        m
    } else {
        m.insert(url, h)
    }
}

impl<H> Fetcher<H> {
    spec fn url_at(&self, i: int) -> Seq<char> {
        self.in_progress@[i].0@
    }

    /// The entries have distinct URLs and hold exactly the map.
    pub closed spec fn wf(&self) -> bool {
        &&& forall|i: int, j: int|
            0 <= i < j < self.in_progress@.len() ==> #[trigger] self.url_at(i) != #[trigger] self.url_at(j)
        &&& forall|k: Seq<char>| #[trigger]
            self.handles@.contains_key(k) <==> exists|i: int| 0 <= i < self.in_progress@.len() && self.url_at(i) == k
        &&& forall|i: int| 0 <= i < self.in_progress@.len() ==> self.handles@[#[trigger] self.url_at(i)] == self.in_progress@[i].1
    }

    /// No download in flight.
    pub fn new() -> (r: Fetcher<H>)
        ensures
            r.wf(),
            r@ == Map::<Seq<char>, H>::empty(),
    {
        Fetcher { in_progress: Vec::new(), handles: Ghost(Map::empty()) }
    }

    fn find(&self, url: &String) -> (r: Option<usize>)
        requires
            self.wf(),
        ensures
            r matches Some(i) ==> i < self.in_progress@.len() && self.url_at(i as int) == url@,
            r is None ==> !self@.contains_key(url@),
    {
        let mut i: usize = 0;
        while i < self.in_progress.len()
            invariant
                i <= self.in_progress.len(),
                forall|j: int| 0 <= j < i ==> self.url_at(j) != url@,
            decreases self.in_progress.len() - i,
        {
            if self.in_progress[i].0.eq(url) {
                return Some(i);
            }
            i = i + 1;
        }
        None
    }

    /// Whether a download of `url` is registered, running or finished but
    /// not yet claimed.
    pub fn is_registered(&self, url: &str) -> (r: bool)
        requires
            self.wf(),
        ensures
            r == self@.contains_key(url@),
    {
        let u = url.to_string();
        self.find(&u).is_some()
    }

    /// Starts a download of `url` unless one is registered. `spawn` begins
    /// the download; when a download is registered it is handed back
    /// uncalled, so no second request is made.
    pub fn start_download<F: FnOnce() -> H>(&mut self, url: &str, spawn: F) -> (unused: Option<F>)
        requires
            old(self).wf(),
            spawn.requires(()),
        ensures
            final(self).wf(),
            unused is Some <==> old(self)@.contains_key(url@),
            unused matches Some(f) ==> f == spawn && final(self)@ == old(self)@,
            unused is None ==> exists|h: H| spawn.ensures((), h) && final(self)@ == old(self)@.insert(url@, h),
    {
        let u = url.to_string();
        if self.find(&u).is_some() {
            return Some(spawn);
        }
        let h = spawn();
        let ghost gh = h;
        self.in_progress.push((u, h));
        self.handles = Ghost(self.handles@.insert(url@, gh));
        let ghost n: int = self.in_progress@.len() - 1;
        assert forall|k: Seq<char>| #[trigger] self.handles@.contains_key(k) <==> exists|j: int|
            0 <= j < self.in_progress@.len() && self.url_at(j) == k by {
            if old(self).handles@.contains_key(k) {
                let j = choose|j: int| 0 <= j < old(self).in_progress@.len() && old(self).url_at(j) == k;
                assert(self.url_at(j) == k);
            }
            if k == url@ {
                assert(self.url_at(n) == k);
            }
            if exists|j: int| 0 <= j < self.in_progress@.len() && self.url_at(j) == k {
                let j = choose|j: int| 0 <= j < self.in_progress@.len() && self.url_at(j) == k;
                if j != n {
                    assert(old(self).url_at(j) == k);
                }
            }
        }
        assert forall|j: int| 0 <= j < self.in_progress@.len() implies self.handles@[#[trigger] self.url_at(j)] == self.in_progress@[j].1 by {
            if j != n {
                assert(old(self).url_at(j) == self.url_at(j));
                assert(old(self).handles@.contains_key(old(self).url_at(j)));
            }
        }
        assert forall|a: int, b: int| 0 <= a < b < self.in_progress@.len() implies #[trigger] self.url_at(a) != #[trigger] self.url_at(b) by {
            if b == n {
                assert(old(self).url_at(a) == self.url_at(a));
                assert(old(self).handles@.contains_key(old(self).url_at(a)));
            } else {
                assert(old(self).url_at(a) != old(self).url_at(b));
            }
        }
        None
    }

    /// Claims the download of `url` if `is_finished` says it has completed:
    /// the entry is removed and its handle returned. An unfinished download
    /// stays registered.
    pub fn try_finish<P: Fn(&H) -> bool>(&mut self, url: &str, is_finished: P) -> (r: Option<H>)
        requires
            old(self).wf(),
            forall|h: &H| is_finished.requires((h,)),
        ensures
            final(self).wf(),
            !old(self)@.contains_key(url@) ==> r is None && final(self)@ == old(self)@,
            r matches Some(h) ==> old(self)@.contains_key(url@) && h == old(self)@[url@]
                && is_finished.ensures((&h,), true) && final(self)@ == old(self)@.remove(url@),
            r is None ==> final(self)@ == old(self)@,
            old(self)@.contains_key(url@) && r is None ==> is_finished.ensures((&old(self)@[url@],), false),
    {
        let u = url.to_string();
        let i = match self.find(&u) {
            None => return None,
            Some(i) => i,
        };
        let done = is_finished(&self.in_progress[i].1);
        if !done {
            return None;
        }
        let (_, h) = self.in_progress.remove(i);
        self.handles = Ghost(self.handles@.remove(url@));
        assert forall|k: Seq<char>| #[trigger] self.handles@.contains_key(k) <==> exists|j: int|
            0 <= j < self.in_progress@.len() && self.url_at(j) == k by {
            if self.handles@.contains_key(k) {
                let j = choose|j: int| 0 <= j < old(self).in_progress@.len() && old(self).url_at(j) == k;
                assert(j != i);
                if j < i {
                    assert(self.url_at(j) == k);
                } else {
                    assert(self.url_at(j - 1) == k);
                }
            }
            if exists|j: int| 0 <= j < self.in_progress@.len() && self.url_at(j) == k {
                let j = choose|j: int| 0 <= j < self.in_progress@.len() && self.url_at(j) == k;
                let oj = if j < i { j } else { j + 1 };
                assert(old(self).url_at(oj) == k);
                assert(old(self).url_at(oj) != old(self).url_at(i as int));
            }
        }
        assert forall|j: int| 0 <= j < self.in_progress@.len() implies self.handles@[#[trigger] self.url_at(j)] == self.in_progress@[j].1 by {
            let oj = if j < i { j } else { j + 1 };
            assert(old(self).url_at(oj) == self.url_at(j));
            assert(old(self).url_at(oj) != old(self).url_at(i as int));
        }
        assert forall|a: int, b: int| 0 <= a < b < self.in_progress@.len() implies #[trigger] self.url_at(a) != #[trigger] self.url_at(b) by {
            let oa = if a < i { a } else { a + 1 };
            let ob = if b < i { b } else { b + 1 };
            assert(old(self).url_at(oa) == self.url_at(a));
            assert(old(self).url_at(ob) == self.url_at(b));
            assert(old(self).url_at(oa) != old(self).url_at(ob));
        }
        Some(h)
    }
}

/// A second request for a URL before its download is claimed starts nothing:
/// the registry keeps the first handle.
pub proof fn lemma_start_twice<H>(m: Map<Seq<char>, H>, url: Seq<char>, h1: H, h2: H)
    ensures
        after_start(m, url, h1).contains_key(url),
        after_start(after_start(m, url, h1), url, h2) == after_start(m, url, h1),
{
}

/// Once a finished download is claimed, its URL is no longer registered, so
/// a later claim finds nothing.
pub proof fn lemma_claim_once<H>(m: Map<Seq<char>, H>, url: Seq<char>)
    ensures
        !m.remove(url).contains_key(url),
{
}

} // verus!
