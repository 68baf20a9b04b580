//! Pool generations: duplicate-free lists of endpoints, and the merge that
//! produces the next generation.

use vstd::hash_set::StringHashSet;
use vstd::prelude::*;

verus! {

/// The endpoints of `items` in order of first appearance, each kept once.
pub open spec fn distinct(items: Seq<Seq<char>>) -> Seq<Seq<char>> {
    items.remove_duplicates(Seq::empty())
}

/// What merging yields: an empty previous pool gives way to the fresh
/// endpoints, a previous pool that has reached `cap` is kept as it is, and
/// otherwise the fresh endpoints are added behind the previous ones.
pub open spec fn merged(previous: Seq<Seq<char>>, fresh: Seq<Seq<char>>, cap: nat) -> Seq<
    Seq<char>,
> {
    let kept = distinct(previous);
    if kept.len() == 0 {
        distinct(fresh)
    } else if kept.len() >= cap {
        kept
    } else {
        fresh.remove_duplicates(kept)
    }
}

/// Removing duplicates behind a duplicate-free `seen` leaves no duplicates.
pub proof fn lemma_remove_duplicates_unique(items: Seq<Seq<char>>, seen: Seq<Seq<char>>)
    requires
        seen.no_duplicates(),
    ensures
        items.remove_duplicates(seen).no_duplicates(),
    decreases items.len(),
{
    if items.len() > 0 {
        if seen.contains(items[0]) {
            lemma_remove_duplicates_unique(items.skip(1), seen);
        } else {
            let grown = seen + seq![items[0]];
            assert(grown.no_duplicates()) by {
                assert forall|i: int, j: int| 0 <= i < grown.len() && 0 <= j < grown.len() && i != j
                    implies grown[i] != grown[j] by {
                    if i < seen.len() && j < seen.len() {
                    } else if i < seen.len() {
                        assert(seen.contains(grown[i]));
                    } else {
                        assert(seen.contains(grown[j]));
                    }
                }
            }
            lemma_remove_duplicates_unique(items.skip(1), grown);
        }
    }
}

/// Removing duplicates behind `seen` keeps `seen` in front.
pub proof fn lemma_remove_duplicates_prefix(items: Seq<Seq<char>>, seen: Seq<Seq<char>>)
    ensures
        seen.is_prefix_of(items.remove_duplicates(seen)),
    decreases items.len(),
{
    if items.len() > 0 {
        if seen.contains(items[0]) {
            lemma_remove_duplicates_prefix(items.skip(1), seen);
        } else {
            let grown = seen + seq![items[0]];
            lemma_remove_duplicates_prefix(items.skip(1), grown);
            assert(seen =~= grown.subrange(0, seen.len() as int));
        }
    }
}

/// A duplicate-free list is left as it is.
pub proof fn lemma_distinct_of_unique(items: Seq<Seq<char>>)
    requires
        items.no_duplicates(),
    ensures
        distinct(items) == items,
    decreases items.len(),
{
    if items.len() == 0 {
    } else {
        let front = items.drop_last();
        lemma_distinct_of_unique(front);
        front.lemma_remove_duplicates_append(items.last(), Seq::empty());
        assert(front + seq![items.last()] =~= items);
        assert(front + Seq::<Seq<char>>::empty() =~= front);
        assert(!front.contains(items.last()));
    }
}

/// An endpoint is in one list put behind another exactly if it is in one
/// of the two.
pub proof fn lemma_concat_members(front: Seq<Seq<char>>, back: Seq<Seq<char>>)
    ensures
        forall|e: Seq<char>| #[trigger]
            (front + back).contains(e) <==> front.contains(e) || back.contains(e),
{
    let all = front + back;
    assert forall|e: Seq<char>| #[trigger] all.contains(e) <==> front.contains(e) || back.contains(
        e,
    ) by {
        if all.contains(e) {
            let k = choose|k: int| 0 <= k < all.len() && all[k] == e;
            if k < front.len() {
                assert(front[k] == e);
            } else {
                assert(back[k - front.len()] == e);
            }
        }
        if front.contains(e) {
            let k = choose|k: int| 0 <= k < front.len() && front[k] == e;
            assert(all[k] == e);
        }
        if back.contains(e) {
            let k = choose|k: int| 0 <= k < back.len() && back[k] == e;
            assert(all[front.len() + k] == e);
        }
    }
}

/// The distinct endpoints of a list are the endpoints of the list: none is
/// lost, none is added, and only an empty list has none.
pub proof fn lemma_distinct_members(items: Seq<Seq<char>>)
    ensures
        forall|e: Seq<char>| #[trigger] distinct(items).contains(e) <==> items.contains(e),
        distinct(items).no_duplicates(),
        distinct(items).len() <= items.len(),
        distinct(items).len() == 0 <==> items.len() == 0,
{
    items.lemma_remove_duplicates_properties(Seq::empty());
    lemma_remove_duplicates_unique(items, Seq::empty());
    lemma_concat_members(items, Seq::empty());
    if items.len() > 0 {
        assert(items.contains(items[0]));
        assert(distinct(items).contains(items[0]));
    }
}

/// Whether merging takes the fresh endpoints in: it does unless the previous
/// pool is not empty and has reached the cap.
pub open spec fn takes_fresh(previous: Seq<Seq<char>>, cap: nat) -> bool {
    distinct(previous).len() == 0 || distinct(previous).len() < cap
}

/// The merged pool holds no endpoint twice, whatever the inputs hold.
pub proof fn lemma_merged_unique(previous: Seq<Seq<char>>, fresh: Seq<Seq<char>>, cap: nat)
    ensures
        merged(previous, fresh, cap).no_duplicates(),
{
    lemma_remove_duplicates_unique(previous, Seq::empty());
    lemma_remove_duplicates_unique(fresh, Seq::empty());
    lemma_remove_duplicates_unique(fresh, distinct(previous));
}

/// The merged pool holds every previous endpoint, and the fresh ones where
/// they are taken in; it holds nothing else.
pub proof fn lemma_merged_members(previous: Seq<Seq<char>>, fresh: Seq<Seq<char>>, cap: nat)
    ensures
        forall|e: Seq<char>| #[trigger]
            merged(previous, fresh, cap).contains(e) <==> previous.contains(e) || (takes_fresh(
                previous,
                cap,
            ) && fresh.contains(e)),
{
    let kept = distinct(previous);
    lemma_distinct_members(previous);
    lemma_distinct_members(fresh);
    fresh.lemma_remove_duplicates_properties(kept);
    lemma_concat_members(fresh, kept);
    if kept.len() == 0 {
        assert forall|e: Seq<char>| !previous.contains(e) by {
            if previous.contains(e) {
                assert(kept.contains(e));
            }
        }
    }
}

/// As sets: the merged pool is the union of the previous and the fresh
/// endpoints where the fresh ones are taken in, and the previous endpoints
/// alone where they are not.
pub proof fn lemma_merged_is_union(previous: Seq<Seq<char>>, fresh: Seq<Seq<char>>, cap: nat)
    ensures
        merged(previous, fresh, cap).to_set() == (if takes_fresh(previous, cap) {
            previous.to_set().union(fresh.to_set())
        } else {
            previous.to_set()
        }),
{
    lemma_merged_members(previous, fresh, cap);
    let next = merged(previous, fresh, cap).to_set();
    if takes_fresh(previous, cap) {
        assert forall|e: Seq<char>|
            next.contains(e) <==> previous.to_set().union(fresh.to_set()).contains(e) by {
            assert(next.contains(e) <==> merged(previous, fresh, cap).contains(e));
        }
        assert(next =~= previous.to_set().union(fresh.to_set()));
    } else {
        assert forall|e: Seq<char>| next.contains(e) <==> previous.to_set().contains(e) by {
            assert(next.contains(e) <==> merged(previous, fresh, cap).contains(e));
        }
        assert(next =~= previous.to_set());
    }
}

/// On an empty previous pool the merge gives the fresh endpoints, each
/// once, whatever the cap.
pub proof fn lemma_merged_from_empty(fresh: Seq<Seq<char>>, cap: nat)
    ensures
        merged(Seq::empty(), fresh, cap) == distinct(fresh),
        fresh.no_duplicates() ==> merged(Seq::empty(), fresh, cap) == fresh,
{
    if fresh.no_duplicates() {
        lemma_distinct_of_unique(fresh);
    }
}

/// A previous pool that has reached the cap is kept as it is and the fresh
/// endpoints are dropped. The one exception is an empty previous pool under
/// a cap of zero, which gives way to the fresh endpoints.
pub proof fn lemma_merged_at_cap(previous: Seq<Seq<char>>, fresh: Seq<Seq<char>>, cap: nat)
    requires
        distinct(previous).len() >= cap,
        previous.len() > 0 || fresh.len() == 0,
    ensures
        merged(previous, fresh, cap) == distinct(previous),
        previous.no_duplicates() ==> merged(previous, fresh, cap) == previous,
{
    lemma_distinct_members(previous);
    lemma_distinct_members(fresh);
    if previous.no_duplicates() {
        lemma_distinct_of_unique(previous);
    }
    if previous.len() == 0 {
        assert(distinct(fresh) =~= distinct(previous));
    }
}

/// The previous endpoints are never cut: they stand at the front of the
/// merged pool in their order, however many they are.
pub proof fn lemma_merged_keeps_previous(
    previous: Seq<Seq<char>>,
    fresh: Seq<Seq<char>>,
    cap: nat,
)
    ensures
        distinct(previous).is_prefix_of(merged(previous, fresh, cap)),
        merged(previous, fresh, cap).len() >= distinct(previous).len(),
{
    let kept = distinct(previous);
    lemma_remove_duplicates_prefix(fresh, kept);
    lemma_distinct_members(previous);
    if kept.len() == 0 {
        assert(kept =~= Seq::<Seq<char>>::empty());
    }
}

/// Without fresh endpoints the merge gives the previous endpoints, each
/// once.
pub proof fn lemma_merged_without_fresh(previous: Seq<Seq<char>>, cap: nat)
    ensures
        merged(previous, Seq::empty(), cap) == distinct(previous),
        previous.no_duplicates() ==> merged(previous, Seq::empty(), cap) == previous,
{
    lemma_distinct_members(previous);
    if previous.no_duplicates() {
        lemma_distinct_of_unique(previous);
    }
    if distinct(previous).len() == 0 {
        assert(distinct(previous) =~= Seq::<Seq<char>>::empty());
    }
}

/// Appends to `kept` the endpoints of `items` that it does not hold yet.
fn absorb(kept: &mut Vec<String>, seen: &mut StringHashSet, items: &Vec<String>)
    requires
        old(seen)@ == old(kept).deep_view().to_set(),
    ensures
        final(kept).deep_view() == items.deep_view().remove_duplicates(old(kept).deep_view()),
        final(seen)@ == final(kept).deep_view().to_set(),
{
    let ghost base = kept.deep_view();
    let ghost all = items.deep_view();
    let mut i: usize = 0;
    assert(all.take(0) =~= Seq::<Seq<char>>::empty());
    while i < items.len()
        invariant
            0 <= i <= items.len(),
            all == items.deep_view(),
            kept.deep_view() == all.take(i as int).remove_duplicates(base),
            seen@ == kept.deep_view().to_set(),
        decreases items.len() - i,
    {
        let item = &items[i];
        let ghost before = kept.deep_view();
        proof {
            let done = all.take(i as int);
            done.lemma_remove_duplicates_append(item@, base);
            done.lemma_remove_duplicates_properties(base);
            assert(done + seq![item@] =~= all.take(i + 1));
            assert(before.contains(item@) <==> seen@.contains(item@));
        }
        if !seen.contains(item.as_str()) {
            seen.insert(item.clone());
            kept.push(item.clone());
            assert(kept.deep_view() =~= before + seq![item@]);
            proof {
                Seq::lemma_to_set_insert_commutes(before, item@);
            }
        }
        i += 1;
    }
    assert(all.take(items.len() as int) =~= all);
}

/// One pool generation: endpoints in a fixed order, none of them twice.
#[derive(Debug)]
pub struct Pool {
    entries: Vec<String>,
}

impl View for Pool {
    type V = Seq<Seq<char>>;

    closed spec fn view(&self) -> Seq<Seq<char>> {
        self.entries.deep_view()
    }
}

impl Pool {
    /// No endpoint occurs twice in a pool.
    #[verifier::type_invariant]
    pub open spec fn unique(&self) -> bool {
        self@.no_duplicates()
    }

    /// The pool without endpoints.
    pub fn new() -> (pool: Pool)
        ensures
            pool@ == Seq::<Seq<char>>::empty(),
    {
        let entries: Vec<String> = Vec::new();
        assert(entries.deep_view() =~= Seq::<Seq<char>>::empty());
        Pool { entries }
    }

    /// The pool of the endpoints of `batch`, in order of first appearance.
    pub fn from_batch(batch: &Vec<String>) -> (pool: Pool)
        ensures
            pool@ == distinct(batch.deep_view()),
            pool@.no_duplicates(),
    {
        let mut entries: Vec<String> = Vec::new();
        let mut seen = StringHashSet::new();
        assert(entries.deep_view() =~= Seq::<Seq<char>>::empty());
        assert(entries.deep_view().to_set() =~= Set::<Seq<char>>::empty());
        absorb(&mut entries, &mut seen, batch);
        proof {
            lemma_remove_duplicates_unique(batch.deep_view(), Seq::empty());
        }
        Pool { entries }
    }

    /// Number of endpoints in the pool.
    pub fn len(&self) -> (n: usize)
        ensures
            n == self@.len(),
    {
        self.entries.len()
    }

    /// The endpoints of the pool, in its order.
    pub fn endpoints(&self) -> (list: &Vec<String>)
        ensures
            list.deep_view() == self@,
            self@.no_duplicates(),
    {
        proof {
            use_type_invariant(self);
        }
        &self.entries
    }
}

/// Merges what is left of the previous pool with the freshly validated
/// endpoints into the next pool.
pub fn merge(previous_validated: &Vec<String>, freshly_validated: &Vec<String>, max_pool_size: usize) -> (next: Pool)
    ensures
        next@ == merged(
            previous_validated.deep_view(),
            freshly_validated.deep_view(),
            max_pool_size as nat,
        ),
        next@.no_duplicates(),
{
    let mut entries: Vec<String> = Vec::new();
    let mut seen = StringHashSet::new();
    assert(entries.deep_view() =~= Seq::<Seq<char>>::empty());
    assert(entries.deep_view().to_set() =~= Set::<Seq<char>>::empty());
    absorb(&mut entries, &mut seen, previous_validated);
    proof {
        lemma_remove_duplicates_unique(previous_validated.deep_view(), Seq::empty());
    }
    if entries.len() > 0 && entries.len() >= max_pool_size {
        return Pool { entries };
    }
    proof {
        lemma_remove_duplicates_unique(freshly_validated.deep_view(), entries.deep_view());
    }
    absorb(&mut entries, &mut seen, freshly_validated);
    Pool { entries }
}

} // verus!
