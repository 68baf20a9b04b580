//! Cutting a batch into groups of bounded size.

use vstd::prelude::*;

verus! {

/// `items` cut into consecutive groups of `size` elements; the last group
/// holds what is left and is never empty.
pub open spec fn grouped<A>(items: Seq<A>, size: nat) -> Seq<Seq<A>>
    recommends
        size > 0,
    decreases items.len(),
{
    if size == 0 || items.len() == 0 {
        Seq::empty()
    } else if items.len() <= size {
        seq![items]
    } else {
        seq![items.take(size as int)] + grouped(items.skip(size as int), size)
    }
}

/// Number of groups that `len` elements fill at `size` elements a group.
pub open spec fn group_count(len: nat, size: nat) -> nat
    recommends
        size > 0,
{
    ((len + size - 1) / size as int) as nat
}

/// Grouping loses nothing and reorders nothing: the groups, put end to end,
/// are the items again.
pub proof fn lemma_grouped_flatten<A>(items: Seq<A>, size: nat)
    requires
        size > 0,
    ensures
        grouped(items, size).flatten() == items,
    decreases items.len(),
{
    let groups = grouped(items, size);
    if items.len() == 0 {
        assert(groups.flatten() =~= items);
    } else if items.len() <= size {
        assert(groups.drop_first() =~= Seq::<Seq<A>>::empty());
        assert(groups.drop_first().flatten() =~= Seq::<A>::empty());
        assert(groups.flatten() =~= items);
    } else {
        let rest = items.skip(size as int);
        lemma_grouped_flatten(rest, size);
        assert(groups.drop_first() =~= grouped(rest, size));
        assert(groups.first() == items.take(size as int));
        assert(groups.flatten() =~= items.take(size as int) + rest);
        assert(items.take(size as int) + rest =~= items);
    }
}

/// No group exceeds the bound, none is empty, and every group but the last
/// is full.
pub proof fn lemma_grouped_bounds<A>(items: Seq<A>, size: nat)
    requires
        size > 0,
    ensures
        forall|g: int|
            0 <= g < grouped(items, size).len() ==> 0 < #[trigger] grouped(items, size)[g].len()
                <= size,
        forall|g: int|
            0 <= g < grouped(items, size).len() - 1 ==> #[trigger] grouped(items, size)[g].len()
                == size,
    decreases items.len(),
{
    if items.len() > size {
        let rest = items.skip(size as int);
        lemma_grouped_bounds(rest, size);
        let groups = grouped(items, size);
        assert forall|g: int| 0 <= g < groups.len() implies 0 < #[trigger] groups[g].len()
            <= size by {
            if g > 0 {
                assert(groups[g] == grouped(rest, size)[g - 1]);
            }
        }
        assert forall|g: int| 0 <= g < groups.len() - 1 implies #[trigger] groups[g].len()
            == size by {
            if g > 0 {
                assert(groups[g] == grouped(rest, size)[g - 1]);
            }
        }
    }
}

/// Every element of every group is an element of the items.
pub proof fn lemma_grouped_members<A>(items: Seq<A>, size: nat)
    requires
        size > 0,
    ensures
        forall|g: int, e: A|
            0 <= g < grouped(items, size).len() && #[trigger] grouped(items, size)[g].contains(e)
                ==> items.contains(e),
    decreases items.len(),
{
    let groups = grouped(items, size);
    if items.len() > size {
        let rest = items.skip(size as int);
        lemma_grouped_members(rest, size);
        assert forall|g: int, e: A| 0 <= g < groups.len() && #[trigger] groups[g].contains(
            e,
        ) implies items.contains(e) by {
            if g == 0 {
                let k = choose|k: int| 0 <= k < groups[0].len() && groups[0][k] == e;
                assert(items[k] == e);
            } else {
                assert(groups[g] == grouped(rest, size)[g - 1]);
                assert(rest.contains(e));
                let k = choose|k: int| 0 <= k < rest.len() && rest[k] == e;
                assert(items[k + size] == e);
            }
        }
    }
}

/// The item at `index` stands in group `index / size`, at place
/// `index % size` of that group.
pub proof fn lemma_grouped_index<A>(items: Seq<A>, size: nat, index: int)
    requires
        size > 0,
        0 <= index < items.len(),
    ensures
        0 <= index / (size as int) < grouped(items, size).len(),
        0 <= index % (size as int) < grouped(items, size)[index / (size as int)].len(),
        grouped(items, size)[index / (size as int)][index % (size as int)] == items[index],
    decreases items.len(),
{
    let k = size as int;
    let groups = grouped(items, size);
    if index < k {
        assert(index / k == 0 && index % k == index) by (nonlinear_arith)
            requires
                0 <= index < k,
        ;
    } else {
        let rest = items.skip(k);
        lemma_grouped_index(rest, size, index - k);
        assert((index - k) / k == index / k - 1 && (index - k) % k == index % k)
            by (nonlinear_arith)
            requires
                k > 0,
                index >= k,
        ;
        assert(groups[index / k] == grouped(rest, size)[index / k - 1]);
    }
}

/// The number of groups is the number of items divided by the bound,
/// rounded up.
pub proof fn lemma_grouped_len<A>(items: Seq<A>, size: nat)
    requires
        size > 0,
    ensures
        grouped(items, size).len() == group_count(items.len(), size),
    decreases items.len(),
{
    let n = items.len() as int;
    let k = size as int;
    if n == 0 {
        assert((n + k - 1) / k == 0) by (nonlinear_arith)
            requires
                n == 0,
                k > 0,
        ;
    } else if n <= k {
        assert((n + k - 1) / k == 1) by (nonlinear_arith)
            requires
                0 < n <= k,
        ;
    } else {
        lemma_grouped_len(items.skip(k), size);
        assert((n + k - 1) / k == (n - k + k - 1) / k + 1) by (nonlinear_arith)
            requires
                n > k,
                k > 0,
        ;
    }
}

/// Cuts `items` into consecutive groups of `group_size` endpoints.
pub fn partition(items: &Vec<String>, group_size: usize) -> (groups: Vec<Vec<String>>)
    requires
        group_size > 0,
    ensures
        groups.deep_view() == grouped(items.deep_view(), group_size as nat),
{
    let ghost all = items.deep_view();
    let ghost size = group_size as nat;
    let mut groups: Vec<Vec<String>> = Vec::new();
    let mut start: usize = 0;
    assert(all.skip(0) =~= all);
    assert(groups.deep_view() + grouped(all, size) =~= grouped(all, size));
    while start < items.len()
        invariant
            0 <= start <= items.len(),
            group_size > 0,
            size == group_size,
            all == items.deep_view(),
            groups.deep_view() + grouped(all.skip(start as int), size) == grouped(all, size),
        decreases items.len() - start,
    {
        let end = if items.len() - start <= group_size {
            items.len()
        } else {
            start + group_size
        };
        let ghost rest = all.skip(start as int);
        let mut group: Vec<String> = Vec::new();
        let mut i: usize = start;
        assert(group.deep_view() =~= rest.take(0));
        while i < end
            invariant
                start <= i <= end <= items.len(),
                all == items.deep_view(),
                rest == all.skip(start as int),
                group.deep_view() == rest.take(i - start),
            decreases end - i,
        {
            let ghost before = group.deep_view();
            group.push(items[i].clone());
            assert(group.deep_view() =~= before.push(items[i as int]@));
            assert(rest.take(i + 1 - start) =~= rest.take(i - start).push(rest[i - start]));
            i += 1;
        }
        let ghost before = groups.deep_view();
        let ghost piece = group.deep_view();
        groups.push(group);
        proof {
            assert(groups.deep_view() =~= before.push(piece));
            if end == items.len() {
                assert(rest.take(end - start) =~= rest);
                assert(all.skip(end as int) =~= Seq::<Seq<char>>::empty());
                assert(grouped(rest, size) =~= seq![rest]);
                assert(grouped(all.skip(end as int), size) =~= Seq::<Seq<Seq<char>>>::empty());
            } else {
                assert(rest.skip(size as int) =~= all.skip(end as int));
                assert(grouped(rest, size) =~= seq![rest.take(size as int)] + grouped(
                    all.skip(end as int),
                    size,
                ));
            }
            assert(groups.deep_view() + grouped(all.skip(end as int), size) =~= before + grouped(
                rest,
                size,
            ));
        }
        start = end;
    }
    assert(all.skip(items.len() as int) =~= Seq::<Seq<char>>::empty());
    assert(groups.deep_view() + Seq::<Seq<Seq<char>>>::empty() =~= groups.deep_view());
    groups
}

} // verus!
