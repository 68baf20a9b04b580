//! The refresh scheduler: from the phase it is in and what just happened to
//! the phase it goes to and what is to be done next.

use crate::config::Config;
use crate::pool::{
    distinct, lemma_merged_from_empty, lemma_merged_without_fresh,
    lemma_remove_duplicates_unique, merge, merged, Pool,
};
use crate::probe::ProbeOutcome;
use crate::store::{PoolStore, StoreState};
use crate::validator::{lemma_validated_by_unique, validated_by};
use vstd::prelude::*;

verus! {

/// Where the scheduler stands.
#[derive(Clone, Copy, Debug, PartialEq, Eq, Structural)]
pub enum Phase {
    /// The first cycle is running; no generation has been published.
    Bootstrapping,
    /// A generation is published and the next cycle is not yet due.
    Serving,
    /// A refresh cycle is running; the published generation stays readable.
    Refreshing,
}

/// What happened outside the scheduler.
#[derive(Debug)]
pub enum Event {
    /// The running cycle has collected and validated.
    CycleCompleted {
        /// The endpoints of the previous pool that passed validation again.
        previous_validated: Vec<String>,
        /// The newly collected candidates that passed validation.
        freshly_validated: Vec<String>,
    },
    /// The running cycle could not be carried out.
    CycleFailed,
    /// The time between two cycles has passed.
    IntervalElapsed,
}

/// An event as a mathematical value.
pub enum EventView {
    CycleCompleted { previous_validated: Seq<Seq<char>>, freshly_validated: Seq<Seq<char>> },
    CycleFailed,
    IntervalElapsed,
}

impl View for Event {
    type V = EventView;

    open spec fn view(&self) -> EventView {
        match self {
            Event::CycleCompleted { previous_validated, freshly_validated } => {
                EventView::CycleCompleted {
                    previous_validated: previous_validated.deep_view(),
                    freshly_validated: freshly_validated.deep_view(),
                }
            },
            Event::CycleFailed => EventView::CycleFailed,
            Event::IntervalElapsed => EventView::IntervalElapsed,
        }
    }
}

/// What is to be done next.
#[derive(Debug)]
pub enum Action {
    /// Run a cycle: validate `previous` again, collect from every source
    /// and validate what they deliver, then report `CycleCompleted`.
    RunCycle {
        /// The generation that was current when the cycle began.
        previous: Vec<String>,
    },
    /// Let `seconds` pass, then report `IntervalElapsed`.
    Wait {
        /// The time to let pass.
        seconds: u64,
    },
    /// The event did not fit the phase and was passed over.
    Nothing,
}

/// An action as a mathematical value.
pub enum ActionView {
    RunCycle { previous: Seq<Seq<char>> },
    Wait { seconds: u64 },
    Nothing,
}

impl View for Action {
    type V = ActionView;

    open spec fn view(&self) -> ActionView {
        match self {
            Action::RunCycle { previous } => ActionView::RunCycle { previous: previous.deep_view() },
            Action::Wait { seconds } => ActionView::Wait { seconds: *seconds },
            Action::Nothing => ActionView::Nothing,
        }
    }
}

/// A scheduler as a mathematical value.
pub struct SchedulerView {
    /// Where the scheduler stands.
    pub phase: Phase,
    /// The store of the current generation.
    pub store: StoreState,
    /// Seconds between the end of one cycle and the start of the next.
    pub refresh_interval_secs: u64,
    /// Size from which a previous pool takes in no fresh endpoints.
    pub max_pool_size: nat,
}

impl SchedulerView {
    /// The scheduler at its start, and the first thing to do: a cycle on an
    /// empty previous pool.
    pub open spec fn initial(refresh_interval_secs: u64, max_pool_size: nat) -> (
        SchedulerView,
        ActionView,
    ) {
        (
            SchedulerView {
                phase: Phase::Bootstrapping,
                store: StoreState::vacant(),
                refresh_interval_secs,
                max_pool_size,
            },
            ActionView::RunCycle { previous: Seq::empty() },
        )
    }

    /// What holds of every scheduler: its store is valid, and a generation
    /// is published exactly once the bootstrap is over.
    pub open spec fn valid(self) -> bool {
        &&& self.store.valid()
        &&& self.phase == Phase::Bootstrapping <==> self.store.published == 0
    }

    /// The scheduler with `next` published, serving until the next cycle.
    pub open spec fn publishing(self, next: Seq<Seq<char>>) -> (SchedulerView, ActionView) {
        (
            SchedulerView { phase: Phase::Serving, store: self.store.replaced(next), ..self },
            ActionView::Wait { seconds: self.refresh_interval_secs },
        )
    }

    /// The transition: the scheduler after `event`, and what is to be done.
    ///
    /// The bootstrap publishes what validated, on an empty previous pool;
    /// if it could not be carried out it publishes the empty pool. When the
    /// interval has passed a refresh begins on the current generation. A
    /// refresh publishes the merge of what validated; if it could not be
    /// carried out the generation stays. After either the next cycle is due
    /// one interval later. An event that does not fit the phase changes
    /// nothing.
    pub open spec fn step(self, event: EventView) -> (SchedulerView, ActionView) {
        match (self.phase, event) {
            (Phase::Bootstrapping, EventView::CycleCompleted { freshly_validated, .. }) => {
                self.publishing(merged(Seq::empty(), freshly_validated, self.max_pool_size))
            },
            (Phase::Bootstrapping, EventView::CycleFailed) => self.publishing(Seq::empty()),
            (Phase::Serving, EventView::IntervalElapsed) => (
                SchedulerView { phase: Phase::Refreshing, ..self },
                ActionView::RunCycle { previous: self.store.pool },
            ),
            (
                Phase::Refreshing,
                EventView::CycleCompleted { previous_validated, freshly_validated },
            ) => self.publishing(
                merged(previous_validated, freshly_validated, self.max_pool_size),
            ),
            (Phase::Refreshing, EventView::CycleFailed) => (
                SchedulerView { phase: Phase::Serving, ..self },
                ActionView::Wait { seconds: self.refresh_interval_secs },
            ),
            _ => (self, ActionView::Nothing),
        }
    }
}

/// The scheduler starts valid.
pub proof fn lemma_initial_valid(refresh_interval_secs: u64, max_pool_size: nat)
    ensures
        SchedulerView::initial(refresh_interval_secs, max_pool_size).0.valid(),
{
}

/// Every transition keeps the scheduler valid: the published pool never
/// holds an endpoint twice, whatever the events carry.
pub proof fn lemma_step_valid(scheduler: SchedulerView, event: EventView)
    requires
        scheduler.valid(),
    ensures
        scheduler.step(event).0.valid(),
{
    match event {
        EventView::CycleCompleted { previous_validated, freshly_validated } => {
            lemma_remove_duplicates_unique(previous_validated, Seq::empty());
            lemma_remove_duplicates_unique(freshly_validated, Seq::empty());
            lemma_remove_duplicates_unique(freshly_validated, distinct(previous_validated));
            lemma_remove_duplicates_unique(Seq::empty(), Seq::empty());
        },
        _ => {},
    }
}

/// A running refresh leaves the published generation as it is, and so does
/// a refresh that could not be carried out: readers see the previous
/// generation until the next one is whole.
pub proof fn lemma_generation_kept_while_refreshing(scheduler: SchedulerView, event: EventView)
    requires
        scheduler.valid(),
        event is IntervalElapsed || event is CycleFailed,
        scheduler.phase != Phase::Bootstrapping,
    ensures
        scheduler.step(event).0.store == scheduler.store,
{
}

/// The bootstrap publishes what validated, each endpoint once, whatever the
/// cap.
pub proof fn lemma_bootstrap_publishes_fresh(
    scheduler: SchedulerView,
    previous_validated: Seq<Seq<char>>,
    freshly_validated: Seq<Seq<char>>,
)
    requires
        scheduler.phase == Phase::Bootstrapping,
    ensures
        scheduler.step(
            EventView::CycleCompleted { previous_validated, freshly_validated },
        ).0.store.pool == distinct(freshly_validated),
        scheduler.step(
            EventView::CycleCompleted { previous_validated, freshly_validated },
        ).0.phase == Phase::Serving,
{
    lemma_merged_from_empty(freshly_validated, scheduler.max_pool_size);
}

/// A refresh in which nothing of the previous pool validated again
/// publishes what validated of the fresh candidates: stale entries leave.
pub proof fn lemma_refresh_of_stale_pool(scheduler: SchedulerView, freshly_validated: Seq<Seq<char>>)
    requires
        scheduler.phase == Phase::Refreshing,
    ensures
        scheduler.step(
            EventView::CycleCompleted { previous_validated: Seq::empty(), freshly_validated },
        ).0.store.pool == distinct(freshly_validated),
{
    lemma_merged_from_empty(freshly_validated, scheduler.max_pool_size);
}

/// A refresh in which no source delivered publishes what validated again
/// of the previous pool: the pool is no worse for a failed discovery.
pub proof fn lemma_refresh_without_fresh(scheduler: SchedulerView, previous_validated: Seq<Seq<char>>)
    requires
        scheduler.phase == Phase::Refreshing,
        previous_validated.no_duplicates(),
    ensures
        scheduler.step(
            EventView::CycleCompleted { previous_validated, freshly_validated: Seq::empty() },
        ).0.store.pool == previous_validated,
{
    lemma_merged_without_fresh(previous_validated, scheduler.max_pool_size);
}

/// Discovery that fails costs nothing: a refresh in which no source
/// delivered publishes exactly the endpoints of the current generation
/// whose probe got a response, in their order.
pub proof fn lemma_failed_discovery_keeps_working_endpoints(
    scheduler: SchedulerView,
    outcomes: Seq<ProbeOutcome>,
)
    requires
        scheduler.valid(),
        scheduler.phase == Phase::Refreshing,
    ensures
        scheduler.step(
            EventView::CycleCompleted {
                previous_validated: validated_by(scheduler.store.pool, outcomes),
                freshly_validated: Seq::empty(),
            },
        ).0.store.pool == validated_by(scheduler.store.pool, outcomes),
{
    lemma_validated_by_unique(scheduler.store.pool, outcomes);
    lemma_refresh_without_fresh(scheduler, validated_by(scheduler.store.pool, outcomes));
}

/// The scheduler of one engine: its phase, its store and its settings.
#[derive(Debug)]
pub struct Scheduler {
    phase: Phase,
    store: PoolStore,
    refresh_interval_secs: u64,
    max_pool_size: usize,
}

impl View for Scheduler {
    type V = SchedulerView;

    closed spec fn view(&self) -> SchedulerView {
        SchedulerView {
            phase: self.phase,
            store: self.store@,
            refresh_interval_secs: self.refresh_interval_secs,
            max_pool_size: self.max_pool_size as nat,
        }
    }
}

impl Scheduler {
    #[verifier::type_invariant]
    spec fn settled(&self) -> bool {
        self@.valid()
    }

    /// A scheduler at its start, with the first thing to do.
    pub fn new(config: &Config) -> (start: (Scheduler, Action))
        ensures
            (start.0@, start.1@) == SchedulerView::initial(
                config@.refresh_interval_secs,
                config@.max_pool_size as nat,
            ),
            start.0@.valid(),
    {
        let scheduler = Scheduler {
            phase: Phase::Bootstrapping,
            store: PoolStore::new(),
            refresh_interval_secs: config.refresh_interval_secs(),
            max_pool_size: config.max_pool_size(),
        };
        let previous: Vec<String> = Vec::new();
        assert(previous.deep_view() =~= Seq::<Seq<char>>::empty());
        (scheduler, Action::RunCycle { previous })
    }

    /// Takes `event` in: gives the scheduler after it and what is to be
    /// done next.
    pub fn step(self, event: Event) -> (next: (Scheduler, Action))
        ensures
            (next.0@, next.1@) == self@.step(event@),
            next.0@.valid(),
    {
        proof {
            use_type_invariant(&self);
            lemma_step_valid(self@, event@);
        }
        let Scheduler { phase, mut store, refresh_interval_secs, max_pool_size } = self;
        match (phase, event) {
            (Phase::Bootstrapping, Event::CycleCompleted { previous_validated: _, freshly_validated }) => {
                let baseline: Vec<String> = Vec::new();
                assert(baseline.deep_view() =~= Seq::<Seq<char>>::empty());
                let pool = merge(&baseline, &freshly_validated, max_pool_size);
                store.replace(pool);
                (
                    Scheduler { phase: Phase::Serving, store, refresh_interval_secs, max_pool_size },
                    Action::Wait { seconds: refresh_interval_secs },
                )
            },
            (Phase::Bootstrapping, Event::CycleFailed) => {
                store.replace(Pool::new());
                (
                    Scheduler { phase: Phase::Serving, store, refresh_interval_secs, max_pool_size },
                    Action::Wait { seconds: refresh_interval_secs },
                )
            },
            (Phase::Serving, Event::IntervalElapsed) => {
                let previous = store.snapshot();
                (
                    Scheduler { phase: Phase::Refreshing, store, refresh_interval_secs, max_pool_size },
                    Action::RunCycle { previous },
                )
            },
            (Phase::Refreshing, Event::CycleCompleted { previous_validated, freshly_validated }) => {
                let pool = merge(&previous_validated, &freshly_validated, max_pool_size);
                store.replace(pool);
                (
                    Scheduler { phase: Phase::Serving, store, refresh_interval_secs, max_pool_size },
                    Action::Wait { seconds: refresh_interval_secs },
                )
            },
            (Phase::Refreshing, Event::CycleFailed) => {
                (
                    Scheduler { phase: Phase::Serving, store, refresh_interval_secs, max_pool_size },
                    Action::Wait { seconds: refresh_interval_secs },
                )
            },
            (phase, _) => {
                (
                    Scheduler { phase, store, refresh_interval_secs, max_pool_size },
                    Action::Nothing,
                )
            },
        }
    }

    /// Where the scheduler stands.
    pub fn phase(&self) -> (phase: Phase)
        ensures
            phase == self@.phase,
    {
        self.phase
    }

    /// The store of the current generation.
    pub fn store(&self) -> (store: &PoolStore)
        ensures
            store@ == self@.store,
            store@.valid(),
    {
        proof {
            use_type_invariant(self);
        }
        &self.store
    }

    /// The endpoints of the current generation, copied out; empty before the
    /// first generation.
    pub fn snapshot(&self) -> (list: Vec<String>)
        ensures
            list.deep_view() == self@.store.pool,
            list.deep_view().no_duplicates(),
    {
        self.store.snapshot()
    }

    /// Whether the bootstrap is over and a generation is published.
    pub fn is_ready(&self) -> (ready: bool)
        ensures
            ready == (self@.phase != Phase::Bootstrapping),
    {
        proof {
            use_type_invariant(self);
        }
        self.store.is_ready()
    }
}

} // verus!
