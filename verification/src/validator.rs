//! What validation makes of a batch once the outcome of every probe is
//! known, and a validation played through against given outcomes.

use crate::probe::{
    accepted, lemma_accepted_members, lemma_accepted_unique, lemma_tally_bound,
    lemma_tally_zero, decision, ProbeOutcome, ProbeState,
};
use crate::config::Config;
use crate::round::{
    lemma_completed_valid, lemma_fresh_valid, lemma_started_valid,
    lemma_validated_from_candidates, RoundView,
};
use crate::validation::{begun, Validation};
use vstd::prelude::*;

verus! {

/// The outcome of the probe of candidate `index`; a probe of which nothing
/// is reported counts as timed out.
pub open spec fn outcome_at(outcomes: Seq<ProbeOutcome>, index: int) -> ProbeOutcome {
    if 0 <= index < outcomes.len() {
        outcomes[index]
    } else {
        ProbeOutcome::TimedOut
    }
}

/// The state in which a candidate ends when its probe ends with `outcome`.
pub open spec fn settled_state(candidate: Seq<char>, outcome: ProbeOutcome) -> ProbeState {
    if candidate.len() == 0 {
        ProbeState::Skipped
    } else {
        decision(outcome)
    }
}

/// The states in which the candidates end when the probe of each ends with
/// the outcome of its index.
pub open spec fn settled(candidates: Seq<Seq<char>>, outcomes: Seq<ProbeOutcome>) -> Seq<
    ProbeState,
> {
    Seq::new(candidates.len(), |i: int| settled_state(candidates[i], outcome_at(outcomes, i)))
}

/// The validated batch: the non-empty candidates whose probe got a
/// response, in the order of the batch, duplicates included.
pub open spec fn validated_by(candidates: Seq<Seq<char>>, outcomes: Seq<ProbeOutcome>) -> Seq<
    Seq<char>,
> {
    accepted(candidates, settled(candidates, outcomes), candidates.len() as int)
}

/// Whether every probe that has ended in `round` ended with the outcome of
/// its index.
pub open spec fn agrees(round: RoundView, outcomes: Seq<ProbeOutcome>) -> bool {
    forall|i: int|
        0 <= i < round.states.len() && (#[trigger] round.states[i] == ProbeState::Accepted
            || round.states[i] == ProbeState::Rejected) ==> round.states[i] == decision(
            outcome_at(outcomes, i),
        )
}

/// An endpoint is validated exactly if it is a non-empty candidate whose
/// probe got a response: nothing is made up, the empty string never
/// passes, and a probe that failed or timed out lets nothing through.
pub proof fn lemma_validated_by_members(candidates: Seq<Seq<char>>, outcomes: Seq<ProbeOutcome>)
    ensures
        forall|e: Seq<char>|
            validated_by(candidates, outcomes).contains(e) <==> exists|i: int|
                0 <= i < candidates.len() && #[trigger] candidates[i] == e && e.len() > 0
                    && outcome_at(outcomes, i).useful(),
        forall|e: Seq<char>| #[trigger]
            validated_by(candidates, outcomes).contains(e) ==> candidates.contains(e) && e.len()
                > 0,
        validated_by(candidates, outcomes).len() <= candidates.len(),
{
    let states = settled(candidates, outcomes);
    lemma_accepted_members(candidates, states, candidates.len() as int);
    assert forall|e: Seq<char>|
        validated_by(candidates, outcomes).contains(e) <==> exists|i: int|
            0 <= i < candidates.len() && #[trigger] candidates[i] == e && e.len() > 0
                && outcome_at(outcomes, i).useful() by {
        if validated_by(candidates, outcomes).contains(e) {
            let i = choose|i: int|
                0 <= i < candidates.len() && states[i] == ProbeState::Accepted
                    && #[trigger] candidates[i] == e;
            assert(candidates[i] == e && e.len() > 0 && outcome_at(outcomes, i).useful());
        }
        if exists|i: int|
            0 <= i < candidates.len() && #[trigger] candidates[i] == e && e.len() > 0
                && outcome_at(outcomes, i).useful() {
            let i = choose|i: int|
                0 <= i < candidates.len() && #[trigger] candidates[i] == e && e.len() > 0
                    && outcome_at(outcomes, i).useful();
            assert(states[i] == ProbeState::Accepted && candidates[i] == e);
        }
    }
    assert forall|e: Seq<char>| #[trigger]
        validated_by(candidates, outcomes).contains(e) implies candidates.contains(e) && e.len()
        > 0 by {
        let i = choose|i: int|
            0 <= i < candidates.len() && #[trigger] candidates[i] == e && e.len() > 0
                && outcome_at(outcomes, i).useful();
        assert(candidates[i] == e);
    }
    assert(states.take(candidates.len() as int) =~= states);
    lemma_tally_bound(states, ProbeState::Accepted);
}

/// Validation adds no duplicates: of candidates that are all different,
/// the validated ones are all different.
pub proof fn lemma_validated_by_unique(candidates: Seq<Seq<char>>, outcomes: Seq<ProbeOutcome>)
    requires
        candidates.no_duplicates(),
    ensures
        validated_by(candidates, outcomes).no_duplicates(),
{
    lemma_accepted_unique(candidates, settled(candidates, outcomes), candidates.len() as int);
}

/// Starting a probe does not touch the probes that have ended.
pub proof fn lemma_started_agrees(round: RoundView, outcomes: Seq<ProbeOutcome>)
    requires
        round.valid(),
        round.can_start(),
        agrees(round, outcomes),
    ensures
        agrees(round.started(), outcomes),
{
    lemma_started_valid(round);
    let after = round.started();
    assert forall|i: int|
        0 <= i < after.states.len() && (#[trigger] after.states[i] == ProbeState::Accepted
            || after.states[i] == ProbeState::Rejected) implies after.states[i] == decision(
        outcome_at(outcomes, i),
    ) by {
        assert(after.states[i] == round.states[i]);
    }
}

/// A probe that ends with the outcome of its index keeps the round in
/// agreement with the outcomes.
pub proof fn lemma_completed_agrees(round: RoundView, outcomes: Seq<ProbeOutcome>, index: int)
    requires
        round.valid(),
        round.awaits(index),
        agrees(round, outcomes),
    ensures
        agrees(round.completed(index, outcome_at(outcomes, index)), outcomes),
{
    let after = round.completed(index, outcome_at(outcomes, index));
    assert forall|i: int|
        0 <= i < after.states.len() && (#[trigger] after.states[i] == ProbeState::Accepted
            || after.states[i] == ProbeState::Rejected) implies after.states[i] == decision(
        outcome_at(outcomes, i),
    ) by {
        if i != index {
            assert(after.states[i] == round.states[i]);
        }
    }
}

/// The order of the probes does not matter: a finished round in which every
/// probe ended with the outcome of its index has validated exactly
/// `validated_by`, whatever its limit and however its probes were
/// interleaved.
pub proof fn lemma_finished_round_validated(round: RoundView, outcomes: Seq<ProbeOutcome>)
    requires
        round.valid(),
        round.finished(),
        agrees(round, outcomes),
    ensures
        round.states == settled(round.candidates, outcomes),
        round.validated() == validated_by(round.candidates, outcomes),
{
    lemma_tally_zero(round.states, ProbeState::Waiting);
    lemma_tally_zero(round.states, ProbeState::InFlight);
    let goal = settled(round.candidates, outcomes);
    assert forall|i: int| 0 <= i < round.states.len() implies round.states[i] == goal[i] by {
        let state = round.states[i];
        assert(state != ProbeState::Waiting && state != ProbeState::InFlight);
        if state == ProbeState::Skipped {
        } else {
            assert(state == ProbeState::Accepted || state == ProbeState::Rejected);
        }
    }
    assert(round.states =~= goal);
}

/// Validates `candidates` against `outcomes`, the outcome of a probe being
/// the one at its candidate's index: probes are started as far as the
/// validation allows and ended, latest first, when no more can be started.
/// What comes out depends on the candidates and the outcomes alone, not on
/// the group size or the limit of `config`.
pub fn validate(candidates: Vec<String>, config: &Config, outcomes: &Vec<ProbeOutcome>) -> (validated: Vec<
    String,
>)
    ensures
        validated.deep_view() == validated_by(candidates.deep_view(), outcomes@),
        forall|e: Seq<char>| #[trigger]
            validated.deep_view().contains(e) ==> candidates.deep_view().contains(e) && e.len()
                > 0,
{
    let ghost batch = candidates.deep_view();
    let mut validation = Validation::new(candidates, config);
    let mut pending: Vec<usize> = Vec::new();
    proof {
        lemma_fresh_valid(batch, config@.concurrency_limit as nat);
        lemma_tally_zero(validation@.round.states, ProbeState::Accepted);
        lemma_tally_zero(validation@.round.states, ProbeState::Rejected);
    }
    loop
        invariant
            validation@.valid(),
            validation@.round.candidates == batch,
            agrees(validation@.round, outcomes@),
            pending.len() == validation@.round.in_flight(),
            forall|k: int|
                0 <= k < pending.len() ==> validation@.round.awaits(#[trigger] pending[k] as int),
            forall|k: int, l: int| 0 <= k < l < pending.len() ==> pending[k] < pending[l],
        ensures
            validation@.valid(),
            validation@.round.candidates == batch,
            agrees(validation@.round, outcomes@),
            validation@.finished(),
        decreases 2 * validation@.round.waiting() + validation@.round.in_flight(),
    {
        let ghost before = validation@;
        let (after, started) = validation.start_next();
        validation = after;
        match started {
            Some(index) => {
                proof {
                    lemma_started_valid(before.round);
                    lemma_started_agrees(before.round, outcomes@);
                    assert forall|k: int| 0 <= k < pending.len() implies pending[k] < index by {
                        assert(before.round.awaits(pending[k] as int));
                        assert(begun(before.round.states[pending[k] as int]));
                    }
                }
                pending.push(index);
            },
            None => {
                if pending.len() == 0 {
                    break;
                }
                let index = pending.pop().unwrap();
                let outcome = if index < outcomes.len() {
                    outcomes[index]
                } else {
                    ProbeOutcome::TimedOut
                };
                proof {
                    lemma_completed_valid(before.round, index as int, outcome);
                    lemma_completed_agrees(before.round, outcomes@, index as int);
                }
                let (after, _) = validation.complete(index, outcome);
                validation = after;
            },
        }
    }
    proof {
        lemma_validated_from_candidates(validation@.round);
        lemma_finished_round_validated(validation@.round, outcomes@);
    }
    validation.validated()
}

} // verus!
