//! Probe outcomes, the state of each candidate during a validation round,
//! and the arithmetic on those states that the round relies on.

use vstd::prelude::*;
use vstd::string::StringExecFns;

verus! {

/// The address that every probe asks for through the candidate.
pub const PROBE_TARGET: &'static str = "http://baidu.com";

/// The browser that every probe announces itself as.
pub const PROBE_USER_AGENT: &'static str =
    "Mozilla/5.0 (Windows NT 10.0; Win64; x64) AppleWebKit/537.36 (KHTML, like Gecko) Chrome/89.0.4389.114 Safari/537.36";

/// The address under which `endpoint` is used as a proxy for plain HTTP.
pub open spec fn proxy_url(endpoint: Seq<char>) -> Seq<char> {
    "http://"@ + endpoint
}

/// The address under which `endpoint` is used as a proxy for plain HTTP.
pub fn proxy_address(endpoint: &str) -> (url: String)
    ensures
        url@ == proxy_url(endpoint@),
{
    let mut url = String::from_str("http://");
    url.append(endpoint);
    url
}

/// How one probe of a candidate ended.
#[derive(Clone, Copy, Debug, PartialEq, Eq, Structural)]
pub enum ProbeOutcome {
    /// A response came back through the candidate, whatever its status code.
    Responded,
    /// The request failed in transport: refused, rejected by the proxy, TLS.
    TransportError,
    /// No response came within the probe timeout.
    TimedOut,
}

impl ProbeOutcome {
    /// Only a response makes a candidate useful.
    pub open spec fn useful(self) -> bool {
        self is Responded
    }

    /// Whether the probed candidate counts as a working proxy.
    pub fn is_useful(&self) -> (useful: bool)
        ensures
            useful == self.useful(),
    {
        match self {
            ProbeOutcome::Responded => true,
            ProbeOutcome::TransportError => false,
            ProbeOutcome::TimedOut => false,
        }
    }
}

/// Where one candidate of a round stands.
#[derive(Clone, Copy, Debug, PartialEq, Eq, Structural)]
pub enum ProbeState {
    /// The candidate is empty and is never probed.
    Skipped,
    /// The candidate has yet to be probed.
    Waiting,
    /// A probe of the candidate is under way.
    InFlight,
    /// The probe got a response.
    Accepted,
    /// The probe failed or timed out.
    Rejected,
}

/// The state that a probe's outcome leaves its candidate in.
pub open spec fn decision(outcome: ProbeOutcome) -> ProbeState {
    if outcome.useful() {
        ProbeState::Accepted
    } else {
        ProbeState::Rejected
    }
}

/// Number of candidates in state `kind`.
pub open spec fn tally(states: Seq<ProbeState>, kind: ProbeState) -> nat
    decreases states.len(),
{
    if states.len() == 0 {
        0
    } else {
        tally(states.drop_last(), kind) + if states.last() == kind {
            1nat
        } else {
            0nat
        }
    }
}

/// Index of the first candidate at or after `from` in state `kind`, or the
/// number of candidates if there is none.
pub open spec fn first_of(states: Seq<ProbeState>, kind: ProbeState, from: int) -> int
    decreases states.len() - from,
{
    if from < 0 || from >= states.len() {
        states.len() as int
    } else if states[from] == kind {
        from
    } else {
        first_of(states, kind, from + 1)
    }
}

/// The candidates among the first `upto` whose state is `Accepted`, in
/// their order.
pub open spec fn accepted(candidates: Seq<Seq<char>>, states: Seq<ProbeState>, upto: int) -> Seq<
    Seq<char>,
>
    decreases upto,
{
    if upto <= 0 {
        Seq::empty()
    } else if states[upto - 1] == ProbeState::Accepted {
        accepted(candidates, states, upto - 1).push(candidates[upto - 1])
    } else {
        accepted(candidates, states, upto - 1)
    }
}

/// A tally never exceeds the number of candidates.
pub proof fn lemma_tally_bound(states: Seq<ProbeState>, kind: ProbeState)
    ensures
        tally(states, kind) <= states.len(),
    decreases states.len(),
{
    if states.len() > 0 {
        lemma_tally_bound(states.drop_last(), kind);
    }
}

/// One more candidate adds one to the tally of its state and nothing to the
/// others.
pub proof fn lemma_tally_push(states: Seq<ProbeState>, state: ProbeState, kind: ProbeState)
    ensures
        tally(states.push(state), kind) == tally(states, kind) + if state == kind {
            1nat
        } else {
            0nat
        },
{
    assert(states.push(state).drop_last() =~= states);
}

/// Changing one candidate's state moves one unit from the tally of the old
/// state to that of the new one.
pub proof fn lemma_tally_update(
    states: Seq<ProbeState>,
    index: int,
    state: ProbeState,
    kind: ProbeState,
)
    requires
        0 <= index < states.len(),
    ensures
        tally(states.update(index, state), kind) + (if states[index] == kind {
            1nat
        } else {
            0nat
        }) == tally(states, kind) + (if state == kind {
            1nat
        } else {
            0nat
        }),
    decreases states.len(),
{
    let changed = states.update(index, state);
    if index == states.len() - 1 {
        assert(changed.drop_last() =~= states.drop_last());
    } else {
        lemma_tally_update(states.drop_last(), index, state, kind);
        assert(changed.drop_last() =~= states.drop_last().update(index, state));
    }
}

/// The tally of a state is zero exactly when no candidate is in it.
pub proof fn lemma_tally_zero(states: Seq<ProbeState>, kind: ProbeState)
    ensures
        tally(states, kind) == 0 <==> forall|i: int|
            0 <= i < states.len() ==> #[trigger] states[i] != kind,
    decreases states.len(),
{
    if states.len() > 0 {
        let front = states.drop_last();
        lemma_tally_zero(front, kind);
        if tally(states, kind) == 0 {
            assert forall|i: int| 0 <= i < states.len() implies #[trigger] states[i] != kind by {
                if i < front.len() {
                    assert(front[i] != kind);
                }
            }
        } else if states.last() != kind {
            let i = choose|i: int| 0 <= i < front.len() && #[trigger] front[i] == kind;
            assert(states[i] == kind);
        }
    }
}

/// What `first_of` finds: an index at or after `from` that is in state
/// `kind`, with no such candidate in between; or the end.
pub proof fn lemma_first_of(states: Seq<ProbeState>, kind: ProbeState, from: int)
    requires
        0 <= from <= states.len(),
    ensures
        from <= first_of(states, kind, from) <= states.len(),
        first_of(states, kind, from) < states.len() ==> states[first_of(states, kind, from)]
            == kind,
        forall|i: int| from <= i < first_of(states, kind, from) ==> #[trigger] states[i] != kind,
    decreases states.len() - from,
{
    if from < states.len() && states[from] != kind {
        lemma_first_of(states, kind, from + 1);
    }
}

/// `first_of` finds `found` if that is where the first candidate in state
/// `kind` stands.
pub proof fn lemma_first_of_unique(
    states: Seq<ProbeState>,
    kind: ProbeState,
    from: int,
    found: int,
)
    requires
        0 <= from <= found <= states.len(),
        found < states.len() ==> states[found] == kind,
        forall|i: int| from <= i < found ==> #[trigger] states[i] != kind,
    ensures
        first_of(states, kind, from) == found,
    decreases found - from,
{
    if from < found {
        lemma_first_of_unique(states, kind, from + 1, found);
    }
}

/// Skipping candidates that are not in state `kind` does not change what
/// `first_of` finds.
pub proof fn lemma_first_of_skip(states: Seq<ProbeState>, kind: ProbeState, from: int, to: int)
    requires
        0 <= from <= to <= states.len(),
        forall|i: int| from <= i < to ==> #[trigger] states[i] != kind,
    ensures
        first_of(states, kind, from) == first_of(states, kind, to),
    decreases to - from,
{
    if from < to {
        lemma_first_of_skip(states, kind, from + 1, to);
    }
}

/// Every accepted candidate is a candidate of the round whose state is
/// `Accepted`, and every such candidate is among the accepted ones.
pub proof fn lemma_accepted_members(
    candidates: Seq<Seq<char>>,
    states: Seq<ProbeState>,
    upto: int,
)
    requires
        0 <= upto <= states.len(),
        states.len() == candidates.len(),
    ensures
        forall|e: Seq<char>|
            accepted(candidates, states, upto).contains(e) <==> exists|i: int|
                0 <= i < upto && states[i] == ProbeState::Accepted && #[trigger] candidates[i]
                    == e,
        accepted(candidates, states, upto).len() == tally(
            states.take(upto),
            ProbeState::Accepted,
        ),
    decreases upto,
{
    if upto > 0 {
        let front = accepted(candidates, states, upto - 1);
        let all = accepted(candidates, states, upto);
        lemma_accepted_members(candidates, states, upto - 1);
        assert(states.take(upto).drop_last() =~= states.take(upto - 1));
        assert forall|e: Seq<char>| all.contains(e) <==> exists|i: int|
            0 <= i < upto && states[i] == ProbeState::Accepted && #[trigger] candidates[i]
                == e by {
            if all.contains(e) {
                let k = choose|k: int| 0 <= k < all.len() && all[k] == e;
                if k < front.len() {
                    assert(front.contains(e));
                    let i = choose|i: int|
                        0 <= i < upto - 1 && states[i] == ProbeState::Accepted
                            && #[trigger] candidates[i] == e;
                    assert(0 <= i < upto && candidates[i] == e);
                } else {
                    assert(candidates[upto - 1] == e);
                }
            }
            if exists|i: int|
                0 <= i < upto && states[i] == ProbeState::Accepted && #[trigger] candidates[i]
                    == e {
                let i = choose|i: int|
                    0 <= i < upto && states[i] == ProbeState::Accepted && #[trigger] candidates[i]
                        == e;
                if i < upto - 1 {
                    assert(front.contains(e));
                    let k = choose|k: int| 0 <= k < front.len() && front[k] == e;
                    assert(all[k] == e);
                } else {
                    assert(all[all.len() - 1] == e);
                }
            }
        }
    } else {
        assert(states.take(upto) =~= Seq::<ProbeState>::empty());
    }
}

/// Of candidates that are all different, the accepted ones are all
/// different.
pub proof fn lemma_accepted_unique(
    candidates: Seq<Seq<char>>,
    states: Seq<ProbeState>,
    upto: int,
)
    requires
        0 <= upto <= states.len(),
        states.len() == candidates.len(),
        candidates.no_duplicates(),
    ensures
        accepted(candidates, states, upto).no_duplicates(),
    decreases upto,
{
    if upto > 0 {
        let front = accepted(candidates, states, upto - 1);
        lemma_accepted_unique(candidates, states, upto - 1);
        lemma_accepted_members(candidates, states, upto - 1);
        if states[upto - 1] == ProbeState::Accepted {
            let all = front.push(candidates[upto - 1]);
            assert forall|i: int, j: int| 0 <= i < all.len() && 0 <= j < all.len() && i
                != j implies all[i] != all[j] by {
                if i < front.len() && j < front.len() {
                } else {
                    let k = if i < front.len() {
                        i
                    } else {
                        j
                    };
                    assert(front.contains(front[k]));
                    let at = choose|at: int|
                        0 <= at < upto - 1 && states[at] == ProbeState::Accepted
                            && #[trigger] candidates[at] == front[k];
                    assert(candidates[at] != candidates[upto - 1]);
                }
            }
        }
    }
}

/// A change of state that neither makes nor unmakes an accepted candidate
/// leaves the accepted ones as they were.
pub proof fn lemma_accepted_unchanged(
    candidates: Seq<Seq<char>>,
    states: Seq<ProbeState>,
    index: int,
    state: ProbeState,
    upto: int,
)
    requires
        0 <= index < states.len(),
        0 <= upto <= states.len(),
        states[index] != ProbeState::Accepted,
        state != ProbeState::Accepted,
    ensures
        accepted(candidates, states.update(index, state), upto) == accepted(
            candidates,
            states,
            upto,
        ),
    decreases upto,
{
    if upto > 0 {
        lemma_accepted_unchanged(candidates, states, index, state, upto - 1);
    }
}

} // verus!
