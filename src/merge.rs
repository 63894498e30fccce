//! The merge engine: reconciles two versions of a feed by stable item identity.
use vstd::prelude::*;

verus! {

broadcast use vstd::seq_lib::group_seq_properties;

/// A value that can be copied exactly.
pub trait Duplicate: Sized {
    fn duplicate(&self) -> (r: Self)
        ensures
            r == *self,
    ;
}

/// An item of a feed together with its stable identity, if it has one.
pub struct Keyed<T> {
    pub id: Option<String>,
    pub content: T,
}

/// A feed: metadata plus its items in order.
pub struct Listing<M, T> {
    pub meta: M,
    pub items: Vec<Keyed<T>>,
}

impl<T> Keyed<T> {
    /// The identity as text.
    pub open spec fn key(self) -> Option<Seq<char>> {
        match self.id {
            Some(g) => Some(g@),
            None => None,
        }
    }
}

impl<T: Duplicate> Duplicate for Keyed<T> {
    fn duplicate(&self) -> (r: Self) {
        let id = match &self.id {
            Some(g) => Some(g.clone()),
            None => None,
        };
        Keyed { id, content: self.content.duplicate() }
    }
}

/// Whether some item of `items` has identity `g`.
pub open spec fn has_id<T>(items: Seq<Keyed<T>>, g: Seq<char>) -> bool {
    exists|j: int| 0 <= j < items.len() && items[j].key() == Some(g)
}

/// An old item stays unless an incoming item carries its identity; an item
/// without identity always stays.
pub open spec fn survives<T>(it: Keyed<T>, incoming: Seq<Keyed<T>>) -> bool {
    match it.key() {
        Some(g) => !has_id(incoming, g),
        None => true,
    }
}

/// The predicate [`survives`] against a fixed incoming sequence.
pub open spec fn survivor<T>(incoming: Seq<Keyed<T>>) -> spec_fn(Keyed<T>) -> bool {
    |it: Keyed<T>| survives(it, incoming)
}

/// The items of `base` that survive a merge with `incoming`.
pub open spec fn kept<T>(base: Seq<Keyed<T>>, incoming: Seq<Keyed<T>>) -> Seq<Keyed<T>> {
    base.filter(survivor(incoming))
}

/// Items after merging `incoming` into `base`: survivors of `base`, then all
/// of `incoming`.
pub open spec fn merged_items<T>(base: Seq<Keyed<T>>, incoming: Seq<Keyed<T>>) -> Seq<Keyed<T>> {
    kept(base, incoming) + incoming
}

/// What a channel holds, as mathematics.
pub struct ListingView<M, T> {
    pub meta: M,
    pub items: Seq<Keyed<T>>,
}

impl<M, T> View for Listing<M, T> {
    type V = ListingView<M, T>;

    open spec fn view(&self) -> ListingView<M, T> {
        ListingView { meta: self.meta, items: self.items@ }
    }
}

/// The channel after merging `from` into `base`: metadata from `from`, items
/// by [`merged_items`].
pub open spec fn merged_listing<M, T>(base: ListingView<M, T>, from: ListingView<M, T>) -> ListingView<M, T> {
    ListingView { meta: from.meta, items: merged_items(base.items, from.items) }
}

/// Reconciling a value with a newer version of itself.
pub trait Merge: View + Sized {
    /// The value after merging `from` into `base`.
    spec fn merge_spec(base: Self::V, from: Self::V) -> Self::V;

    fn merge(&mut self, from: &Self)
        ensures
            final(self)@ == Self::merge_spec(old(self)@, from@),
    ;
}

/// Whether `items` holds an item whose identity is `g`.
fn contains_id<T>(items: &Vec<Keyed<T>>, g: &String) -> (r: bool)
    ensures
        r == has_id(items@, g@),
{
    let mut i: usize = 0;
    while i < items.len()
        invariant
            i <= items.len(),
            forall|j: int| 0 <= j < i ==> items@[j].key() != Some(g@),
        decreases items.len() - i,
    {
        match &items[i].id {
            Some(h) => {
                if h.eq(g) {
                    assert(items@[i as int].key() == Some(g@));
                    return true;
                }
            },
            None => {},
        }
        i = i + 1;
    }
    false
}

impl<M: Duplicate, T: Duplicate> Merge for Listing<M, T> {
    open spec fn merge_spec(base: ListingView<M, T>, from: ListingView<M, T>) -> ListingView<M, T> {
        merged_listing(base, from)
    }

    fn merge(&mut self, from: &Self) {
        let ghost pred = survivor(from.items@);
        let mut items: Vec<Keyed<T>> = Vec::new();
        let mut i: usize = 0;
        while i < self.items.len()
            invariant
                i <= self.items.len(),
                pred == survivor(from.items@),
                items@ == self.items@.subrange(0, i as int).filter(pred),
            decreases self.items.len() - i,
        {
            proof {
                reveal(Seq::filter);
                assert(self.items@.subrange(0, i + 1).drop_last() =~= self.items@.subrange(0, i as int));
            }
            let keep = match &self.items[i].id {
                Some(g) => !contains_id(&from.items, g),
                None => true,
            };
            if keep {
                items.push(self.items[i].duplicate());
            }
            i = i + 1;
        }
        assert(self.items@.subrange(0, i as int) =~= self.items@);
        let mut j: usize = 0;
        let ghost survivors = items@;
        while j < from.items.len()
            invariant
                j <= from.items.len(),
                items@ == survivors + from.items@.subrange(0, j as int),
            decreases from.items.len() - j,
        {
            items.push(from.items[j].duplicate());
            assert(survivors + from.items@.subrange(0, j + 1) =~= (survivors + from.items@.subrange(0, j as int)).push(from.items@[j as int]));
            j = j + 1;
        }
        assert(from.items@.subrange(0, j as int) =~= from.items@);
        self.meta = from.meta.duplicate();
        self.items = items;
    }
}

proof fn lemma_filter_none<A>(s: Seq<A>, p: spec_fn(A) -> bool)
    requires
        forall|i: int| 0 <= i < s.len() ==> !p(s[i]),
    ensures
        s.filter(p) == Seq::<A>::empty(),
    decreases s.len(),
{
    reveal(Seq::filter);
    if s.len() > 0 {
        lemma_filter_none(s.drop_last(), p);
    }
}

proof fn lemma_filter_all<A>(s: Seq<A>, p: spec_fn(A) -> bool)
    requires
        forall|i: int| 0 <= i < s.len() ==> p(s[i]),
    ensures
        s.filter(p) == s,
    decreases s.len(),
{
    reveal(Seq::filter);
    if s.len() > 0 {
        lemma_filter_all(s.drop_last(), p);
        assert(s.drop_last().push(s.last()) =~= s);
    }
}

proof fn lemma_filter_twice<A>(s: Seq<A>, p: spec_fn(A) -> bool, q: spec_fn(A) -> bool)
    ensures
        s.filter(p).filter(q) == s.filter(q).filter(p),
    decreases s.len(),
{
    reveal(Seq::filter);
    if s.len() > 0 {
        let x = s.last();
        let d = s.drop_last();
        lemma_filter_twice(d, p, q);
        assert(d.filter(p).push(x).drop_last() =~= d.filter(p));
        assert(d.filter(q).push(x).drop_last() =~= d.filter(q));
    }
}

proof fn lemma_filter_same<A>(s: Seq<A>, p: spec_fn(A) -> bool)
    ensures
        s.filter(p).filter(p) == s.filter(p),
    decreases s.len(),
{
    reveal(Seq::filter);
    if s.len() > 0 {
        let d = s.drop_last();
        lemma_filter_same(d, p);
        assert(d.filter(p).push(s.last()).drop_last() =~= d.filter(p));
    }
}

proof fn lemma_filter_single<A>(s: Seq<A>, p: spec_fn(A) -> bool, k: int)
    requires
        0 <= k < s.len(),
        p(s[k]),
        forall|i: int| 0 <= i < s.len() && i != k ==> !p(s[i]),
    ensures
        s.filter(p) == seq![s[k]],
    decreases s.len(),
{
    reveal(Seq::filter);
    if k == s.len() - 1 {
        lemma_filter_none(s.drop_last(), p);
        assert(Seq::<A>::empty().push(s.last()) =~= seq![s[k]]);
    } else {
        lemma_filter_single(s.drop_last(), p, k);
    }
}

/// Every item has an identity.
pub open spec fn all_identified<T>(items: Seq<Keyed<T>>) -> bool {
    forall|i: int| 0 <= i < items.len() ==> (#[trigger] items[i].key()) is Some
}

/// No identified incoming item survives a merge with the incoming sequence
/// itself.
proof fn lemma_kept_self<T>(incoming: Seq<Keyed<T>>)
    requires
        all_identified(incoming),
    ensures
        kept(incoming, incoming) == Seq::<Keyed<T>>::empty(),
{
    assert forall|i: int| 0 <= i < incoming.len() implies !survivor(incoming)(incoming[i]) by {
        let g = incoming[i].key()->Some_0;
        assert(has_id(incoming, g));
    }
    lemma_filter_none(incoming, survivor(incoming));
}

/// Merging the same incoming value a second time changes nothing, when all
/// its items have an identity.
pub proof fn lemma_merge_idempotent<M, T>(base: ListingView<M, T>, from: ListingView<M, T>)
    requires
        all_identified(from.items),
    ensures
        merged_listing(merged_listing(base, from), from) == merged_listing(base, from),
{
    let p = survivor(from.items);
    let k = kept(base.items, from.items);
    Seq::filter_distributes_over_add(k, from.items, p);
    lemma_filter_same(base.items, p);
    lemma_kept_self(from.items);
    assert(k + Seq::<Keyed<T>>::empty() =~= k);
}

/// Merging a value into itself gives it back unchanged, when all its items
/// have an identity.
pub proof fn lemma_merge_self<M, T>(f: ListingView<M, T>)
    requires
        all_identified(f.items),
    ensures
        merged_listing(f, f) == f,
{
    lemma_kept_self(f.items);
    assert(Seq::<Keyed<T>>::empty() + f.items =~= f.items);
}

/// No item of `a` has an identity that an item of `b` carries.
pub open spec fn ids_disjoint<T>(a: Seq<Keyed<T>>, b: Seq<Keyed<T>>) -> bool {
    forall|i: int| 0 <= i < a.len() ==> #[trigger] survives(a[i], b)
}

/// Merging two updates with disjoint identities gives the same items in
/// either order, up to their order.
pub proof fn lemma_merge_confluent<M, T>(
    base: ListingView<M, T>,
    a: ListingView<M, T>,
    b: ListingView<M, T>,
)
    requires
        ids_disjoint(a.items, b.items),
        ids_disjoint(b.items, a.items),
    ensures
        merged_listing(merged_listing(base, a), b).items.to_set() == merged_listing(
            merged_listing(base, b),
            a,
        ).items.to_set(),
{
    let pa = survivor(a.items);
    let pb = survivor(b.items);
    let kab = base.items.filter(pa).filter(pb);
    let kba = base.items.filter(pb).filter(pa);
    Seq::filter_distributes_over_add(base.items.filter(pa), a.items, pb);
    Seq::filter_distributes_over_add(base.items.filter(pb), b.items, pa);
    lemma_filter_all(a.items, pb);
    lemma_filter_all(b.items, pa);
    lemma_filter_twice(base.items, pa, pb);
    let left = kab + a.items + b.items;
    let right = kba + b.items + a.items;
    vstd::seq_lib::seq_to_set_distributes_over_add(kab + a.items, b.items);
    vstd::seq_lib::seq_to_set_distributes_over_add(kab, a.items);
    vstd::seq_lib::seq_to_set_distributes_over_add(kba + b.items, a.items);
    vstd::seq_lib::seq_to_set_distributes_over_add(kba, b.items);
    assert(left.to_set() =~= right.to_set());
}

/// When exactly one incoming item carries identity `g`, the merged items
/// carrying `g` are exactly that incoming item.
pub proof fn lemma_merge_dedup<M, T>(base: ListingView<M, T>, from: ListingView<M, T>, g: Seq<char>, k: int)
    requires
        0 <= k < from.items.len(),
        from.items[k].key() == Some(g),
        forall|i: int| 0 <= i < from.items.len() && i != k ==> from.items[i].key() != Some(g),
    ensures
        merged_listing(base, from).items.filter(|it: Keyed<T>| it.key() == Some(g)) == seq![from.items[k]],
{
    let q = |it: Keyed<T>| it.key() == Some(g);
    let k0 = kept(base.items, from.items);
    Seq::filter_distributes_over_add(k0, from.items, q);
    assert forall|i: int| 0 <= i < k0.len() implies !q(k0[i]) by {
        assert(has_id(from.items, g));
        broadcast use vstd::seq_lib::group_filter_ensures;

    }
    lemma_filter_none(k0, q);
    lemma_filter_single(from.items, q, k);
    assert(Seq::<Keyed<T>>::empty() + seq![from.items[k]] =~= seq![from.items[k]]);
}

} // verus!
