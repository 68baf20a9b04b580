//! Putting together what the sources of one cycle delivered.

use vstd::prelude::*;

verus! {

/// What one source delivered in a cycle.
#[derive(Debug)]
pub enum SourceReport {
    /// The candidates that the source listed, as it listed them.
    Collected(Vec<String>),
    /// The source could not be reached or read.
    Failed,
}

impl View for SourceReport {
    type V = Option<Seq<Seq<char>>>;

    open spec fn view(&self) -> Option<Seq<Seq<char>>> {
        match self {
            SourceReport::Collected(batch) => Some(batch.deep_view()),
            SourceReport::Failed => None,
        }
    }
}

/// What a report adds to the combined batch: its candidates, or nothing if
/// the source failed.
pub open spec fn contribution(report: Option<Seq<Seq<char>>>) -> Seq<Seq<char>> {
    match report {
        Some(batch) => batch,
        None => Seq::empty(),
    }
}

/// The batches of the sources that delivered, one behind the other in the
/// order of the reports.
pub open spec fn combined(reports: Seq<Option<Seq<Seq<char>>>>) -> Seq<Seq<char>>
    decreases reports.len(),
{
    if reports.len() == 0 {
        Seq::empty()
    } else {
        combined(reports.drop_last()) + contribution(reports.last())
    }
}

/// The reports of `reports` as mathematical values.
pub open spec fn report_views(reports: Seq<SourceReport>) -> Seq<Option<Seq<Seq<char>>>> {
    Seq::new(reports.len(), |i: int| reports[i]@)
}

/// A candidate is in the combined batch exactly if a source that delivered
/// listed it: a failed source takes nothing from the others.
pub proof fn lemma_combined_members(reports: Seq<Option<Seq<Seq<char>>>>)
    ensures
        forall|e: Seq<char>|
            combined(reports).contains(e) <==> exists|i: int|
                0 <= i < reports.len() && (#[trigger] reports[i]) is Some
                    && reports[i]->0.contains(e),
    decreases reports.len(),
{
    if reports.len() > 0 {
        let front = reports.drop_last();
        let tail = contribution(reports.last());
        lemma_combined_members(front);
        assert forall|e: Seq<char>| combined(reports).contains(e) <==> exists|i: int|
            0 <= i < reports.len() && (#[trigger] reports[i]) is Some && reports[i]->0.contains(
                e,
            ) by {
            let all = combined(reports);
            if all.contains(e) {
                let k = choose|k: int| 0 <= k < all.len() && all[k] == e;
                if k < combined(front).len() {
                    assert(combined(front)[k] == e);
                    assert(combined(front).contains(e));
                    let i = choose|i: int|
                        0 <= i < front.len() && (#[trigger] front[i]) is Some
                            && front[i]->0.contains(e);
                    assert(reports[i] == front[i]);
                } else {
                    assert(tail[k - combined(front).len()] == e);
                    assert(tail.contains(e));
                    assert(reports[reports.len() - 1] is Some);
                }
            }
            if exists|i: int|
                0 <= i < reports.len() && (#[trigger] reports[i]) is Some
                    && reports[i]->0.contains(e) {
                let i = choose|i: int|
                    0 <= i < reports.len() && (#[trigger] reports[i]) is Some
                        && reports[i]->0.contains(e);
                if i < front.len() {
                    assert(front[i] == reports[i]);
                    assert(combined(front).contains(e));
                    let k = choose|k: int| 0 <= k < combined(front).len() && combined(front)[k] == e;
                    assert(all[k] == e);
                } else {
                    let k = choose|k: int| 0 <= k < tail.len() && tail[k] == e;
                    assert(all[combined(front).len() + k] == e);
                }
            }
        }
    }
}

/// If every source failed, the combined batch is empty.
pub proof fn lemma_combined_all_failed(reports: Seq<Option<Seq<Seq<char>>>>)
    requires
        forall|i: int| 0 <= i < reports.len() ==> (#[trigger] reports[i]) is None,
    ensures
        combined(reports) == Seq::<Seq<char>>::empty(),
    decreases reports.len(),
{
    if reports.len() > 0 {
        lemma_combined_all_failed(reports.drop_last());
        assert(reports[reports.len() - 1] is None);
        assert(combined(reports) =~= Seq::<Seq<char>>::empty());
    }
}

/// Combining two lists of reports, one behind the other, gives the two
/// combined batches one behind the other.
pub proof fn lemma_combined_split(
    before: Seq<Option<Seq<Seq<char>>>>,
    after: Seq<Option<Seq<Seq<char>>>>,
)
    ensures
        combined(before + after) == combined(before) + combined(after),
    decreases after.len(),
{
    if after.len() == 0 {
        assert(before + after =~= before);
        assert(combined(before) + combined(after) =~= combined(before));
    } else {
        lemma_combined_split(before, after.drop_last());
        assert((before + after).drop_last() =~= before + after.drop_last());
        assert((before + after).last() == after.last());
        assert(combined(before + after) =~= combined(before) + combined(after));
    }
}

/// A source that fails takes away its own candidates only: what the sources
/// before it and those after it delivered stays, in its order.
pub proof fn lemma_failure_isolated(reports: Seq<Option<Seq<Seq<char>>>>, index: int)
    requires
        0 <= index < reports.len(),
    ensures
        combined(reports) == combined(reports.take(index)) + contribution(reports[index])
            + combined(reports.skip(index + 1)),
        combined(reports.update(index, None)) == combined(reports.take(index)) + combined(
            reports.skip(index + 1),
        ),
{
    let before = reports.take(index);
    let after = reports.skip(index + 1);
    let failed = reports.update(index, None);
    lemma_combined_split(before.push(reports[index]), after);
    lemma_combined_split(before.push(None), after);
    assert(before.push(reports[index]) + after =~= reports);
    assert(before.push(None) + after =~= failed);
    assert(before.push(reports[index]).drop_last() =~= before);
    assert(before.push(None).drop_last() =~= before);
    assert(combined(before.push(None)) =~= combined(before));
}

/// Joins the batches of the sources that delivered into one batch.
pub fn combine(reports: &Vec<SourceReport>) -> (batch: Vec<String>)
    ensures
        batch.deep_view() == combined(report_views(reports@)),
{
    let ghost all = report_views(reports@);
    let mut batch: Vec<String> = Vec::new();
    let mut i: usize = 0;
    assert(all.take(0) =~= Seq::<Option<Seq<Seq<char>>>>::empty());
    assert(batch.deep_view() =~= Seq::<Seq<char>>::empty());
    while i < reports.len()
        invariant
            0 <= i <= reports.len(),
            all == report_views(reports@),
            batch.deep_view() == combined(all.take(i as int)),
        decreases reports.len() - i,
    {
        let ghost done = batch.deep_view();
        proof {
            assert(all.take(i + 1).drop_last() =~= all.take(i as int));
            assert(all.take(i + 1).last() == reports@[i as int]@);
        }
        match &reports[i] {
            SourceReport::Collected(listed) => {
                let mut j: usize = 0;
                assert(listed.deep_view().take(0) =~= Seq::<Seq<char>>::empty());
                assert(done + Seq::<Seq<char>>::empty() =~= done);
                while j < listed.len()
                    invariant
                        0 <= j <= listed.len(),
                        batch.deep_view() == done + listed.deep_view().take(j as int),
                    decreases listed.len() - j,
                {
                    let ghost so_far = batch.deep_view();
                    batch.push(listed[j].clone());
                    assert(batch.deep_view() =~= so_far.push(listed[j as int]@));
                    assert(listed.deep_view().take(j + 1) =~= listed.deep_view().take(
                        j as int,
                    ).push(listed[j as int]@));
                    assert(batch.deep_view() =~= done + listed.deep_view().take(j + 1));
                    j += 1;
                }
                assert(listed.deep_view().take(listed.len() as int) =~= listed.deep_view());
            },
            SourceReport::Failed => {
                assert(done + Seq::<Seq<char>>::empty() =~= done);
            },
        }
        i += 1;
    }
    assert(all.take(reports.len() as int) =~= all);
    batch
}

} // verus!
