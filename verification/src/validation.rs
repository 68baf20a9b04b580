//! Validation of a whole batch: one round over all its candidates, with the
//! probes of one group ended before those of the next group begin.

use crate::config::Config;
use crate::probe::{
    first_of, lemma_first_of, lemma_first_of_unique, lemma_tally_zero, decision, ProbeOutcome,
    ProbeState,
};
use crate::round::{
    lemma_completed_valid, lemma_fresh_valid, lemma_started_valid, ProbeRound, RoundError,
    RoundView,
};
use vstd::arithmetic::div_mod::lemma_div_is_ordered;
use vstd::prelude::*;

verus! {

/// Number of the group that the candidate at `index` belongs to.
pub open spec fn group_of(index: int, group_size: nat) -> int {
    index / (group_size as int)
}

/// Whether a probe of a candidate in this state was started.
pub open spec fn begun(state: ProbeState) -> bool {
    state == ProbeState::InFlight || state == ProbeState::Accepted || state
        == ProbeState::Rejected
}

/// A validation as a mathematical value.
pub struct ValidationView {
    /// The round over all candidates of the batch.
    pub round: RoundView,
    /// Number of candidates in a group.
    pub group_size: nat,
}

impl ValidationView {
    /// The validation before any probe.
    pub open spec fn fresh(candidates: Seq<Seq<char>>, group_size: nat, limit: nat) -> ValidationView {
        ValidationView { round: RoundView::fresh(candidates, limit), group_size }
    }

    /// What holds of every validation: its round is valid, groups and limit
    /// are not zero, probes were started in the order of the batch, and
    /// the probes under way are of the last group that was begun.
    pub open spec fn valid(self) -> bool {
        &&& self.round.valid()
        &&& self.group_size > 0
        &&& self.round.limit > 0
        &&& forall|i: int|
            0 <= i < self.round.states.len() && begun(#[trigger] self.round.states[i]) ==> i
                < self.round.next()
        &&& forall|i: int, j: int|
            #![trigger self.round.states[i], self.round.states[j]]
            0 <= i < self.round.states.len() && 0 <= j < self.round.states.len()
                && self.round.states[i] == ProbeState::InFlight && begun(self.round.states[j])
                ==> group_of(j, self.group_size) <= group_of(i, self.group_size)
    }

    /// Index of the first candidate with a probe under way.
    pub open spec fn first_in_flight(self) -> int {
        first_of(self.round.states, ProbeState::InFlight, 0)
    }

    /// Whether a probe may be started now: the round allows one, and the
    /// next candidate is of the group of the probes under way, if any.
    pub open spec fn can_start(self) -> bool {
        &&& self.round.can_start()
        &&& self.round.in_flight() == 0 || group_of(self.round.next(), self.group_size)
            == group_of(self.first_in_flight(), self.group_size)
    }

    /// The validation after the next candidate's probe was started.
    pub open spec fn started(self) -> ValidationView {
        ValidationView { round: self.round.started(), ..self }
    }

    /// The validation after the probe of candidate `index` ended with
    /// `outcome`.
    pub open spec fn completed(self, index: int, outcome: ProbeOutcome) -> ValidationView {
        ValidationView { round: self.round.completed(index, outcome), ..self }
    }

    /// Whether every candidate has been dealt with.
    pub open spec fn finished(self) -> bool {
        self.round.finished()
    }

    /// The candidates accepted so far, in the order of the batch.
    pub open spec fn validated(self) -> Seq<Seq<char>> {
        self.round.validated()
    }
}

/// A validation starts valid.
pub proof fn lemma_fresh_validation_valid(candidates: Seq<Seq<char>>, group_size: nat, limit: nat)
    requires
        group_size > 0,
        limit > 0,
    ensures
        ValidationView::fresh(candidates, group_size, limit).valid(),
{
    lemma_fresh_valid(candidates, limit);
}

/// Starting a probe keeps the validation valid: the limit holds, and the
/// probes under way stay within one group.
pub proof fn lemma_validation_started_valid(validation: ValidationView)
    requires
        validation.valid(),
        validation.can_start(),
    ensures
        validation.started().valid(),
        validation.started().round.next() > validation.round.next(),
{
    let round = validation.round;
    let after = round.started();
    let next = round.next();
    let size = validation.group_size;
    lemma_started_valid(round);
    lemma_first_of(round.states, ProbeState::Waiting, 0);
    lemma_first_of(after.states, ProbeState::Waiting, 0);
    assert(after.next() > next) by {
        if after.next() <= next {
            assert(after.states[after.next()] == ProbeState::Waiting);
            if after.next() < next {
                assert(round.states[after.next()] != ProbeState::Waiting);
            }
        }
    }
    assert forall|i: int, j: int|
        #![trigger after.states[i], after.states[j]]
        0 <= i < after.states.len() && 0 <= j < after.states.len() && after.states[i]
            == ProbeState::InFlight && begun(after.states[j]) implies group_of(j, size)
        <= group_of(i, size) by {
        lemma_tally_zero(round.states, ProbeState::InFlight);
        lemma_first_of(round.states, ProbeState::InFlight, 0);
        let first = validation.first_in_flight();
        if j != next {
            assert(begun(round.states[j]));
            assert(j < next);
            lemma_div_is_ordered(j, next, size as int);
        }
        if i != next {
            assert(round.states[i] == ProbeState::InFlight);
            assert(round.states[first] == ProbeState::InFlight);
            assert(begun(round.states[i]) && begun(round.states[first]));
            assert(group_of(i, size) == group_of(first, size));
        }
    }
    assert forall|i: int| 0 <= i < after.states.len() && begun(#[trigger] after.states[i]) implies i
        < after.next() by {
        if i != next {
            assert(begun(round.states[i]));
        }
    }
}

/// The end of a probe keeps the validation valid and does not change which
/// candidate is next.
pub proof fn lemma_validation_completed_valid(
    validation: ValidationView,
    index: int,
    outcome: ProbeOutcome,
)
    requires
        validation.valid(),
        validation.round.awaits(index),
    ensures
        validation.completed(index, outcome).valid(),
        validation.completed(index, outcome).round.next() == validation.round.next(),
{
    let round = validation.round;
    let after = round.completed(index, outcome);
    lemma_completed_valid(round, index, outcome);
    lemma_first_of(round.states, ProbeState::Waiting, 0);
    assert(after.next() == round.next()) by {
        assert forall|i: int| 0 <= i < round.next() implies #[trigger] after.states[i]
            != ProbeState::Waiting by {
            if i != index {
                assert(after.states[i] == round.states[i]);
            }
        }
        lemma_first_of_unique(after.states, ProbeState::Waiting, 0, round.next());
    }
    assert forall|i: int, j: int|
        #![trigger after.states[i], after.states[j]]
        0 <= i < after.states.len() && 0 <= j < after.states.len() && after.states[i]
            == ProbeState::InFlight && begun(after.states[j]) implies group_of(
        j,
        validation.group_size,
    ) <= group_of(i, validation.group_size) by {
        assert(round.states[i] == ProbeState::InFlight);
        assert(begun(round.states[j]));
    }
    assert forall|i: int| 0 <= i < after.states.len() && begun(#[trigger] after.states[i]) implies i
        < after.next() by {
        assert(begun(round.states[i]));
    }
}

/// A validation never stalls: until it is finished, either a probe is
/// under way or one can be started.
pub proof fn lemma_validation_progress(validation: ValidationView)
    requires
        validation.valid(),
        !validation.finished(),
    ensures
        validation.round.in_flight() > 0 || validation.can_start(),
{
}

/// While a probe of one group is under way, every candidate of an earlier
/// group has been dealt with and no candidate of a later group has been
/// probed.
pub proof fn lemma_group_barrier(validation: ValidationView, running: int, other: int)
    requires
        validation.valid(),
        validation.round.awaits(running),
        0 <= other < validation.round.states.len(),
        group_of(other, validation.group_size) != group_of(running, validation.group_size),
    ensures
        other < running ==> validation.round.states[other] != ProbeState::Waiting
            && validation.round.states[other] != ProbeState::InFlight,
        other > running ==> !begun(validation.round.states[other]),
{
    let round = validation.round;
    let size = validation.group_size;
    lemma_first_of(round.states, ProbeState::Waiting, 0);
    assert(begun(round.states[running]));
    if round.states[other] == ProbeState::InFlight {
        assert(begun(round.states[other]));
        assert(group_of(other, size) <= group_of(running, size));
        assert(group_of(running, size) <= group_of(other, size));
    }
    if other > running {
        lemma_div_is_ordered(running, other, size as int);
        if begun(round.states[other]) {
            assert(group_of(other, size) <= group_of(running, size));
        }
    }
}

/// The validation of one batch.
#[derive(Debug)]
pub struct Validation {
    round: ProbeRound,
    group_size: usize,
    group: usize,
}

impl View for Validation {
    type V = ValidationView;

    closed spec fn view(&self) -> ValidationView {
        ValidationView { round: self.round@, group_size: self.group_size as nat }
    }
}

impl Validation {
    #[verifier::type_invariant]
    spec fn coherent(&self) -> bool {
        &&& self@.valid()
        &&& forall|i: int|
            0 <= i < self.round@.states.len() && #[trigger] self.round@.states[i]
                == ProbeState::InFlight ==> group_of(i, self.group_size as nat) == self.group
    }

    /// The validation of `candidates` in groups of the size and under the
    /// limit of `config`.
    pub fn new(candidates: Vec<String>, config: &Config) -> (validation: Validation)
        ensures
            validation@ == ValidationView::fresh(
                candidates.deep_view(),
                config@.group_size as nat,
                config@.concurrency_limit as nat,
            ),
            validation@.valid(),
    {
        let group_size = config.group_size();
        let limit = config.concurrency_limit();
        let round = ProbeRound::new(candidates, limit);
        proof {
            lemma_fresh_validation_valid(round@.candidates, group_size as nat, limit as nat);
            lemma_tally_zero(round@.states, ProbeState::InFlight);
        }
        Validation { round, group_size, group: 0 }
    }

    /// Starts the probe of the next waiting candidate, if the limit allows
    /// one more and no probe of an earlier group is under way, and names
    /// that candidate by its index in the batch.
    pub fn start_next(self) -> (step: (Validation, Option<usize>))
        ensures
            step.0@.valid(),
            match step.1 {
                Some(index) => self@.can_start() && index == self@.round.next() && step.0@
                    == self@.started(),
                None => !self@.can_start() && step.0@ == self@,
            },
    {
        proof {
            use_type_invariant(&self);
        }
        let ghost before = self@;
        let Validation { round, group_size, group } = self;
        let next = match round.next_waiting() {
            Some(next) => next,
            None => {
                return (Validation { round, group_size, group }, None);
            },
        };
        let next_group = next / group_size;
        proof {
            lemma_tally_zero(round@.states, ProbeState::InFlight);
            lemma_first_of(round@.states, ProbeState::InFlight, 0);
        }
        if round.in_flight() > 0 && next_group != group {
            return (Validation { round, group_size, group }, None);
        }
        let (round, started) = round.start_next();
        proof {
            if started.is_some() {
                lemma_validation_started_valid(before);
            }
        }
        match started {
            Some(index) => (Validation { round, group_size, group: next_group }, Some(index)),
            None => (Validation { round, group_size, group }, None),
        }
    }

    /// Records how the probe of candidate `index` ended. An outcome for a
    /// candidate that has no probe under way is refused and changes nothing.
    pub fn complete(self, index: usize, outcome: ProbeOutcome) -> (step: (
        Validation,
        Result<(), RoundError>,
    ))
        ensures
            step.0@.valid(),
            match step.1 {
                Ok(_) => self@.round.awaits(index as int) && step.0@ == self@.completed(
                    index as int,
                    outcome,
                ),
                Err(e) => !self@.round.awaits(index as int) && step.0@ == self@ && e
                    == RoundError::NotInFlight,
            },
    {
        proof {
            use_type_invariant(&self);
        }
        let ghost before = self@;
        let Validation { round, group_size, group } = self;
        let (round, recorded) = round.complete(index, outcome);
        proof {
            if recorded.is_ok() {
                lemma_validation_completed_valid(before, index as int, outcome);
                assert forall|i: int|
                    0 <= i < round@.states.len() && #[trigger] round@.states[i]
                        == ProbeState::InFlight implies group_of(i, group_size as nat)
                    == group by {
                    assert(before.round.states[i] == ProbeState::InFlight);
                }
            }
        }
        (Validation { round, group_size, group }, recorded)
    }

    /// The candidate at `index` of the batch.
    pub fn candidate(&self, index: usize) -> (found: Option<&String>)
        ensures
            match found {
                Some(endpoint) => index < self@.round.candidates.len() && endpoint@
                    == self@.round.candidates[index as int],
                None => index >= self@.round.candidates.len(),
            },
    {
        self.round.candidate(index)
    }

    /// Number of probes under way; never more than the limit.
    pub fn in_flight(&self) -> (n: usize)
        ensures
            n == self@.round.in_flight(),
            n <= self@.round.limit,
    {
        self.round.in_flight()
    }

    /// Whether every candidate has been dealt with.
    pub fn is_finished(&self) -> (done: bool)
        ensures
            done == self@.finished(),
    {
        self.round.is_finished()
    }

    /// The candidates accepted so far, in the order of the batch.
    pub fn validated(&self) -> (list: Vec<String>)
        ensures
            list.deep_view() == self@.validated(),
            forall|e: Seq<char>| #[trigger]
                list.deep_view().contains(e) ==> self@.round.candidates.contains(e) && e.len()
                    > 0,
    {
        self.round.validated()
    }
}

} // verus!
