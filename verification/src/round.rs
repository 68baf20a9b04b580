//! One validation round: which candidate to probe next, how many probes may
//! run at once, and what the outcomes make of the candidates.

use crate::probe::{
    accepted, first_of, lemma_accepted_members, lemma_accepted_unchanged, lemma_first_of,
    lemma_first_of_skip, lemma_tally_bound, lemma_tally_push, lemma_tally_update,
    lemma_tally_zero, tally, decision, ProbeOutcome, ProbeState,
};
use vstd::prelude::*;

verus! {

/// The state a candidate starts a round in.
pub open spec fn initial_state(candidate: Seq<char>) -> ProbeState {
    if candidate.len() == 0 {
        ProbeState::Skipped
    } else {
        ProbeState::Waiting
    }
}

/// A round as a mathematical value.
pub struct RoundView {
    /// The candidates handed to the round, in their order.
    pub candidates: Seq<Seq<char>>,
    /// The state of each candidate.
    pub states: Seq<ProbeState>,
    /// How many probes may be under way at once.
    pub limit: nat,
}

impl RoundView {
    /// The round before any probe: empty candidates are skipped, the others
    /// wait.
    pub open spec fn fresh(candidates: Seq<Seq<char>>, limit: nat) -> RoundView {
        RoundView {
            candidates,
            states: Seq::new(candidates.len(), |i: int| initial_state(candidates[i])),
            limit,
        }
    }

    /// What holds of every round: one state per candidate, exactly the empty
    /// candidates skipped, and no more probes under way than the limit.
    pub open spec fn valid(self) -> bool {
        &&& self.states.len() == self.candidates.len()
        &&& forall|i: int|
            0 <= i < self.states.len() ==> (#[trigger] self.states[i] == ProbeState::Skipped
                <==> self.candidates[i].len() == 0)
        &&& self.in_flight() <= self.limit
    }

    /// Number of probes under way.
    pub open spec fn in_flight(self) -> nat {
        tally(self.states, ProbeState::InFlight)
    }

    /// Number of candidates yet to be probed.
    pub open spec fn waiting(self) -> nat {
        tally(self.states, ProbeState::Waiting)
    }

    /// Index of the candidate that is probed next.
    pub open spec fn next(self) -> int {
        first_of(self.states, ProbeState::Waiting, 0)
    }

    /// Whether a probe may be started now.
    pub open spec fn can_start(self) -> bool {
        self.waiting() > 0 && self.in_flight() < self.limit
    }

    /// The round after the next candidate's probe was started.
    pub open spec fn started(self) -> RoundView {
        RoundView { states: self.states.update(self.next(), ProbeState::InFlight), ..self }
    }

    /// Whether a probe of candidate `index` is under way.
    pub open spec fn awaits(self, index: int) -> bool {
        0 <= index < self.states.len() && self.states[index] == ProbeState::InFlight
    }

    /// The round after the probe of candidate `index` ended with `outcome`.
    pub open spec fn completed(self, index: int, outcome: ProbeOutcome) -> RoundView {
        RoundView { states: self.states.update(index, decision(outcome)), ..self }
    }

    /// Whether every candidate has been dealt with.
    pub open spec fn finished(self) -> bool {
        self.waiting() == 0 && self.in_flight() == 0
    }

    /// The candidates that were accepted so far, in the order of the batch.
    pub open spec fn validated(self) -> Seq<Seq<char>> {
        accepted(self.candidates, self.states, self.states.len() as int)
    }
}

/// A round starts valid, with no probe under way.
pub proof fn lemma_fresh_valid(candidates: Seq<Seq<char>>, limit: nat)
    ensures
        RoundView::fresh(candidates, limit).valid(),
        RoundView::fresh(candidates, limit).in_flight() == 0,
        RoundView::fresh(candidates, limit).validated() == Seq::<Seq<char>>::empty(),
{
    let round = RoundView::fresh(candidates, limit);
    lemma_tally_zero(round.states, ProbeState::InFlight);
    lemma_tally_zero(round.states, ProbeState::Accepted);
    lemma_accepted_members(round.candidates, round.states, round.states.len() as int);
    assert(round.states.take(round.states.len() as int) =~= round.states);
    assert(round.validated() =~= Seq::<Seq<char>>::empty());
}

/// Starting a probe keeps the round valid: the limit on probes under way is
/// never exceeded. The candidate started is a waiting, non-empty one.
pub proof fn lemma_started_valid(round: RoundView)
    requires
        round.valid(),
        round.can_start(),
    ensures
        0 <= round.next() < round.states.len(),
        round.states[round.next()] == ProbeState::Waiting,
        round.candidates[round.next()].len() > 0,
        round.started().valid(),
        round.started().in_flight() == round.in_flight() + 1,
        round.started().waiting() == round.waiting() - 1,
        round.started().in_flight() <= round.limit,
        round.started().validated() == round.validated(),
{
    let next = round.next();
    lemma_first_of(round.states, ProbeState::Waiting, 0);
    lemma_tally_zero(round.states, ProbeState::Waiting);
    lemma_tally_update(round.states, next, ProbeState::InFlight, ProbeState::InFlight);
    lemma_tally_update(round.states, next, ProbeState::InFlight, ProbeState::Waiting);
    lemma_accepted_unchanged(
        round.candidates,
        round.states,
        next,
        ProbeState::InFlight,
        round.states.len() as int,
    );
}

/// The end of a probe keeps the round valid and frees one place under the
/// limit.
pub proof fn lemma_completed_valid(round: RoundView, index: int, outcome: ProbeOutcome)
    requires
        round.valid(),
        round.awaits(index),
    ensures
        round.completed(index, outcome).valid(),
        round.completed(index, outcome).in_flight() == round.in_flight() - 1,
        round.completed(index, outcome).waiting() == round.waiting(),
{
    lemma_tally_update(round.states, index, decision(outcome), ProbeState::InFlight);
    lemma_tally_update(round.states, index, decision(outcome), ProbeState::Waiting);
}

/// A probe that failed or timed out adds nothing to the validated
/// candidates.
pub proof fn lemma_failure_excluded(round: RoundView, index: int, outcome: ProbeOutcome)
    requires
        round.valid(),
        round.awaits(index),
        !outcome.useful(),
    ensures
        round.completed(index, outcome).validated() == round.validated(),
{
    lemma_accepted_unchanged(
        round.candidates,
        round.states,
        index,
        decision(outcome),
        round.states.len() as int,
    );
}

/// A probe that got a response puts its candidate among the validated ones.
pub proof fn lemma_response_included(round: RoundView, index: int, outcome: ProbeOutcome)
    requires
        round.valid(),
        round.awaits(index),
        outcome.useful(),
    ensures
        round.completed(index, outcome).validated().contains(round.candidates[index]),
{
    let after = round.completed(index, outcome);
    lemma_accepted_members(after.candidates, after.states, after.states.len() as int);
    assert(after.states[index] == ProbeState::Accepted && after.candidates[index]
        == round.candidates[index]);
}

/// Nothing is made up: every validated endpoint is a non-empty candidate of
/// the round.
pub proof fn lemma_validated_from_candidates(round: RoundView)
    requires
        round.valid(),
    ensures
        forall|e: Seq<char>| #[trigger]
            round.validated().contains(e) ==> round.candidates.contains(e) && e.len() > 0,
        round.validated().len() <= round.candidates.len(),
{
    lemma_accepted_members(round.candidates, round.states, round.states.len() as int);
    lemma_tally_bound(round.states.take(round.states.len() as int), ProbeState::Accepted);
    assert forall|e: Seq<char>| #[trigger]
        round.validated().contains(e) implies round.candidates.contains(e) && e.len() > 0 by {
        let i = choose|i: int|
            0 <= i < round.states.len() && round.states[i] == ProbeState::Accepted
                && #[trigger] round.candidates[i] == e;
        assert(round.states[i] != ProbeState::Skipped);
    }
}

/// A round whose limit is not zero never stalls: until it is finished,
/// either a probe is under way or one can be started.
pub proof fn lemma_round_progress(round: RoundView)
    requires
        round.valid(),
        round.limit > 0,
        !round.finished(),
    ensures
        round.in_flight() > 0 || round.can_start(),
{
}

/// In a finished round every candidate was skipped, accepted or rejected.
pub proof fn lemma_finished_decided(round: RoundView)
    requires
        round.valid(),
        round.finished(),
    ensures
        forall|i: int|
            0 <= i < round.states.len() ==> (#[trigger] round.states[i] == ProbeState::Skipped
                || round.states[i] == ProbeState::Accepted || round.states[i]
                == ProbeState::Rejected),
{
    lemma_tally_zero(round.states, ProbeState::Waiting);
    lemma_tally_zero(round.states, ProbeState::InFlight);
}

/// Why a reported probe outcome was refused.
#[derive(Clone, Copy, Debug, PartialEq, Eq, Structural)]
pub enum RoundError {
    /// No probe of the named candidate is under way.
    NotInFlight,
}

/// A validation round over one batch of candidates.
#[derive(Debug)]
pub struct ProbeRound {
    candidates: Vec<String>,
    states: Vec<ProbeState>,
    limit: usize,
    cursor: usize,
    in_flight: usize,
    waiting: usize,
}

impl View for ProbeRound {
    type V = RoundView;

    closed spec fn view(&self) -> RoundView {
        RoundView {
            candidates: self.candidates.deep_view(),
            states: self.states@,
            limit: self.limit as nat,
        }
    }
}

impl ProbeRound {
    #[verifier::type_invariant]
    spec fn coherent(&self) -> bool {
        &&& self@.valid()
        &&& self.in_flight == self@.in_flight()
        &&& self.waiting == self@.waiting()
        &&& self.cursor <= self.states.len()
        &&& forall|i: int|
            0 <= i < self.cursor ==> #[trigger] self.states@[i] != ProbeState::Waiting
    }

    /// A round over `candidates` in which at most `limit` probes run at
    /// once.
    pub fn new(candidates: Vec<String>, limit: usize) -> (round: ProbeRound)
        ensures
            round@ == RoundView::fresh(candidates.deep_view(), limit as nat),
            round@.valid(),
    {
        let ghost goal = RoundView::fresh(candidates.deep_view(), limit as nat);
        let mut states: Vec<ProbeState> = Vec::new();
        let mut waiting: usize = 0;
        let mut i: usize = 0;
        while i < candidates.len()
            invariant
                0 <= i <= candidates.len(),
                goal == RoundView::fresh(candidates.deep_view(), limit as nat),
                states@ == goal.states.take(i as int),
                waiting == tally(states@, ProbeState::Waiting),
                waiting <= i,
            decreases candidates.len() - i,
        {
            let empty = candidates[i].as_str().is_empty();
            let state = if empty {
                ProbeState::Skipped
            } else {
                ProbeState::Waiting
            };
            proof {
                lemma_tally_push(states@, state, ProbeState::Waiting);
                assert(goal.states.take(i + 1) =~= goal.states.take(i as int).push(state));
            }
            if !empty {
                waiting += 1;
            }
            states.push(state);
            i += 1;
        }
        proof {
            assert(goal.states.take(candidates.len() as int) =~= goal.states);
            lemma_fresh_valid(candidates.deep_view(), limit as nat);
        }
        ProbeRound { candidates, states, limit, cursor: 0, in_flight: 0, waiting }
    }

    /// The candidate whose probe is started next, by its index in the
    /// batch; none if no candidate is waiting.
    pub fn next_waiting(&self) -> (next: Option<usize>)
        ensures
            match next {
                Some(index) => self@.waiting() > 0 && index == self@.next() && index
                    < self@.states.len(),
                None => self@.waiting() == 0,
            },
    {
        proof {
            use_type_invariant(self);
        }
        if self.waiting == 0 {
            return None;
        }
        let mut index = self.cursor;
        proof {
            lemma_tally_zero(self.states@, ProbeState::Waiting);
            lemma_first_of(self.states@, ProbeState::Waiting, 0);
            lemma_first_of_skip(self.states@, ProbeState::Waiting, 0, self.cursor as int);
            lemma_first_of(self.states@, ProbeState::Waiting, self.cursor as int);
        }
        while self.states[index] != ProbeState::Waiting
            invariant
                self.cursor <= index < self.states.len(),
                self@.next() == first_of(self.states@, ProbeState::Waiting, index as int),
                self@.next() < self.states.len(),
            decreases self.states.len() - index,
        {
            proof {
                lemma_first_of(self.states@, ProbeState::Waiting, index as int + 1);
            }
            index += 1;
        }
        Some(index)
    }

    /// Starts the probe of the next waiting candidate, if the limit allows
    /// one more, and names that candidate by its index in the batch.
    pub fn start_next(self) -> (step: (ProbeRound, Option<usize>))
        ensures
            step.0@.valid(),
            match step.1 {
                Some(index) => self@.can_start() && index == self@.next() && step.0@
                    == self@.started(),
                None => !self@.can_start() && step.0@ == self@,
            },
    {
        proof {
            use_type_invariant(&self);
        }
        if self.in_flight >= self.limit {
            return (self, None);
        }
        let index = match self.next_waiting() {
            Some(index) => index,
            None => {
                return (self, None);
            },
        };
        proof {
            lemma_started_valid(self@);
            lemma_first_of(self.states@, ProbeState::Waiting, 0);
            lemma_tally_bound(self.states@, ProbeState::InFlight);
        }
        let ProbeRound { candidates, mut states, limit, cursor: _, in_flight, waiting } = self;
        states.set(index, ProbeState::InFlight);
        let round = ProbeRound {
            candidates,
            states,
            limit,
            cursor: index + 1,
            in_flight: in_flight + 1,
            waiting: waiting - 1,
        };
        (round, Some(index))
    }

    /// Records how the probe of candidate `index` ended. An outcome for a
    /// candidate that has no probe under way is refused and changes nothing.
    pub fn complete(self, index: usize, outcome: ProbeOutcome) -> (step: (
        ProbeRound,
        Result<(), RoundError>,
    ))
        ensures
            step.0@.valid(),
            match step.1 {
                Ok(_) => self@.awaits(index as int) && step.0@ == self@.completed(
                    index as int,
                    outcome,
                ),
                Err(e) => !self@.awaits(index as int) && step.0@ == self@ && e
                    == RoundError::NotInFlight,
            },
    {
        proof {
            use_type_invariant(&self);
        }
        if index >= self.states.len() || self.states[index] != ProbeState::InFlight {
            return (self, Err(RoundError::NotInFlight));
        }
        let ghost before = self@;
        let ProbeRound { candidates, mut states, limit, cursor, in_flight, waiting } = self;
        let state = if outcome.is_useful() {
            ProbeState::Accepted
        } else {
            ProbeState::Rejected
        };
        proof {
            lemma_completed_valid(before, index as int, outcome);
            lemma_tally_zero(states@, ProbeState::InFlight);
        }
        states.set(index, state);
        let round = ProbeRound { candidates, states, limit, cursor, in_flight: in_flight - 1, waiting };
        (round, Ok(()))
    }

    /// The candidate at `index` of the batch.
    pub fn candidate(&self, index: usize) -> (found: Option<&String>)
        ensures
            match found {
                Some(endpoint) => index < self@.candidates.len() && endpoint@
                    == self@.candidates[index as int],
                None => index >= self@.candidates.len(),
            },
    {
        if index < self.candidates.len() {
            Some(&self.candidates[index])
        } else {
            None
        }
    }

    /// Number of candidates in the batch.
    pub fn len(&self) -> (n: usize)
        ensures
            n == self@.candidates.len(),
    {
        self.candidates.len()
    }

    /// The most probes that may be under way at once.
    pub fn limit(&self) -> (limit: usize)
        ensures
            limit == self@.limit,
    {
        self.limit
    }

    /// Number of probes under way; never more than the limit.
    pub fn in_flight(&self) -> (n: usize)
        ensures
            n == self@.in_flight(),
            n <= self@.limit,
    {
        proof {
            use_type_invariant(self);
        }
        self.in_flight
    }

    /// Number of candidates yet to be probed.
    pub fn waiting(&self) -> (n: usize)
        ensures
            n == self@.waiting(),
    {
        proof {
            use_type_invariant(self);
        }
        self.waiting
    }

    /// Whether every candidate has been dealt with.
    pub fn is_finished(&self) -> (done: bool)
        ensures
            done == self@.finished(),
    {
        proof {
            use_type_invariant(self);
        }
        self.waiting == 0 && self.in_flight == 0
    }

    /// The candidates accepted so far, in the order of the batch.
    pub fn validated(&self) -> (list: Vec<String>)
        ensures
            list.deep_view() == self@.validated(),
            forall|e: Seq<char>| #[trigger]
                list.deep_view().contains(e) ==> self@.candidates.contains(e) && e.len() > 0,
    {
        proof {
            use_type_invariant(self);
            lemma_validated_from_candidates(self@);
        }
        let mut list: Vec<String> = Vec::new();
        let mut i: usize = 0;
        assert(list.deep_view() =~= Seq::<Seq<char>>::empty());
        while i < self.states.len()
            invariant
                0 <= i <= self.states.len(),
                self.states.len() == self.candidates.len(),
                list.deep_view() == accepted(self.candidates.deep_view(), self.states@, i as int),
            decreases self.states.len() - i,
        {
            if self.states[i] == ProbeState::Accepted {
                let ghost before = list.deep_view();
                list.push(self.candidates[i].clone());
                assert(list.deep_view() =~= before.push(self.candidates[i as int]@));
            }
            i += 1;
        }
        list
    }
}

} // verus!
