//! The SQS driver: how the workers are set up, and what the main loop decides.
use vstd::prelude::*;

use crate::deletes::DELETE_BATCH_MAX;
use crate::record::Class;
use crate::settle::Settled;
use crate::text::{is_unsigned, number, parse_u32, without_plus};

verus! {

/// How a run sets up its workers and channels.
#[derive(Debug, Clone, Copy, PartialEq, Eq)]
pub struct WorkerPlan {
    pub threads: usize,
    pub redo_pref: usize,
    pub load_pref: usize,
    pub work_capacity: usize,
    pub result_capacity: usize,
    pub redo_capacity: usize,
    /// The most messages that may be received and unsettled at a time. It exceeds the
    /// number of workers by the prefetch, so that none idles while a receive is under way.
    pub in_flight_cap: usize,
}

impl WorkerPlan {
    pub fn new(threads: usize, redo_pref: usize, prefetch: usize) -> (plan: Self)
        requires
            redo_pref <= threads,
            threads * 2 <= usize::MAX,
            threads + prefetch <= usize::MAX,
        ensures
            plan.threads == threads,
            plan.redo_pref == redo_pref,
            plan.load_pref + plan.redo_pref == threads,
            plan.work_capacity == threads,
            plan.result_capacity == threads * 2,
            plan.redo_capacity == redo_pref + 2,
            plan.in_flight_cap == threads + prefetch,
    {
        WorkerPlan {
            threads,
            redo_pref,
            load_pref: threads - redo_pref,
            work_capacity: threads,
            result_capacity: threads * 2,
            redo_capacity: redo_pref + 2,
            in_flight_cap: threads + prefetch,
        }
    }

    pub open spec fn class(self, worker_id: usize) -> Class {
        if worker_id < self.redo_pref {
            Class::RedoPreferring
        } else {
            Class::LoadPreferring
        }
    }

    /// The first workers serve the redo queue first, the others the load queue.
    pub fn class_of(&self, worker_id: usize) -> (class: Class)
        ensures
            class == self.class(worker_id),
            class is RedoPreferring <==> worker_id < self.redo_pref,
            class is LoadPreferring <==> worker_id >= self.redo_pref,
    {
        if worker_id < self.redo_pref {
            Class::RedoPreferring
        } else {
            Class::LoadPreferring
        }
    }
}

/// The outcome of a run. The environment may be destroyed only if all workers have joined.
#[derive(Debug, PartialEq, Eq)]
pub struct RunOutcome {
    pub all_workers_joined: bool,
    pub fatal: Option<String>,
}

/// The state of the main loop.
#[derive(Debug)]
pub struct Driver {
    processed: u64,
    fatal: Option<String>,
    shutting_down: bool,
}

/// What the main loop knows.
pub struct DriverState {
    /// The number of records added.
    pub processed: u64,
    /// The reason of the first fatal engine error.
    pub fatal: Option<String>,
    pub shutting_down: bool,
}

impl DriverState {
    pub open spec fn initial() -> Self {
        DriverState { processed: 0, fatal: None, shutting_down: false }
    }

    pub open spec fn after_settled(self, settled: Settled) -> Self {
        match settled {
            Settled::Added => DriverState { processed: (self.processed + 1) as u64, ..self },
            Settled::Rejected => self,
            Settled::Fatal(reason) => DriverState {
                fatal: match self.fatal {
                    Some(first) => Some(first),
                    None => Some(reason),
                },
                shutting_down: true,
                ..self
            },
        }
    }
}

impl View for Driver {
    type V = DriverState;

    closed spec fn view(&self) -> DriverState {
        DriverState {
            processed: self.processed,
            fatal: self.fatal,
            shutting_down: self.shutting_down,
        }
    }
}

/// What the main loop does after a delivery was settled.
#[derive(Debug, Clone, Copy, PartialEq, Eq)]
pub struct SettledStep {
    /// The records added before and after, for the throughput report.
    pub before: u64,
    pub processed: u64,
    /// Tell everyone to stop.
    pub stop: bool,
    /// Send the queued deletes: there are enough for a full batch.
    pub flush: bool,
}

impl Driver {
    pub fn new() -> (driver: Self)
        ensures
            driver@ == DriverState::initial(),
            driver@.processed == 0,
            driver@.fatal is None,
            !driver@.shutting_down,
    {
        Driver { processed: 0, fatal: None, shutting_down: false }
    }

    /// Takes a termination signal. Only the first one, and only if no shutdown is under way,
    /// tells everyone to stop.
    pub fn on_signal(&mut self) -> (stop: bool)
        ensures
            stop == !old(self)@.shutting_down,
            final(self)@ == (DriverState { shutting_down: true, ..old(self)@ }),
    {
        let stop = !self.shutting_down;
        self.shutting_down = true;
        stop
    }

    /// Takes note of a settled delivery, with `pending_deletes` deletes queued. A fatal
    /// error stops the run, and the first one is kept as its reason.
    pub fn on_settled(&mut self, settled: Settled, pending_deletes: usize) -> (step: SettledStep)
        requires
            settled is Added ==> old(self)@.processed < u64::MAX,
        ensures
            final(self)@ == old(self)@.after_settled(settled),
            step.before == old(self)@.processed,
            step.processed == final(self)@.processed,
            step.stop == (settled is Fatal),
            step.flush == (pending_deletes >= DELETE_BATCH_MAX),
            step.flush == (pending_deletes >= 10),
            final(self)@.processed == old(self)@.processed + if settled is Added {
                1int
            } else {
                0int
            },
            final(self)@.shutting_down == (old(self)@.shutting_down || settled is Fatal),
            old(self)@.fatal is Some || settled !is Fatal ==> final(self)@.fatal == old(self)@.fatal,
            settled matches Settled::Fatal(reason) ==> old(self)@.fatal is None ==> final(self)@.fatal == Some(reason),
    {
        let before: u64 = self.processed;
        let mut stop = false;
        match settled {
            Settled::Added => {
                self.processed = self.processed + 1;
            },
            Settled::Rejected => {},
            Settled::Fatal(reason) => {
                if self.fatal.is_none() {
                    self.fatal = Some(reason);
                }
                self.shutting_down = true;
                stop = true;
            },
        }
        SettledStep {
            before,
            processed: self.processed,
            stop,
            flush: pending_deletes >= DELETE_BATCH_MAX,
        }
    }

    pub fn is_shutting_down(&self) -> (yes: bool)
        ensures
            yes == self@.shutting_down,
    {
        self.shutting_down
    }

    /// The outcome of the run, if it ends now.
    pub fn finish(&self, all_workers_joined: bool) -> (outcome: RunOutcome)
        ensures
            outcome.all_workers_joined == all_workers_joined,
            outcome.fatal == self@.fatal,
    {
        let fatal = match &self.fatal {
            Some(reason) => Some(reason.clone()),
            None => None,
        };
        RunOutcome { all_workers_joined, fatal }
    }
}

/// The main loop's state after a series of settled deliveries.
pub open spec fn driver_after(settled: Seq<Settled>) -> DriverState
    decreases settled.len(),
{
    if settled.len() == 0 {
        DriverState::initial()
    } else {
        driver_after(settled.drop_last()).after_settled(settled.last())
    }
}

/// How many of `settled` were added.
pub open spec fn adds_among(settled: Seq<Settled>) -> nat
    decreases settled.len(),
{
    if settled.len() == 0 {
        0
    } else {
        adds_among(settled.drop_last()) + if settled.last() is Added {
            1nat
        } else {
            0nat
        }
    }
}

/// The count is the number of records added; the run is shutting down exactly if there was
/// a fatal error; and the reason kept is that of the first one.
pub proof fn law_driver_keeps_count_and_the_first_reason(settled: Seq<Settled>)
    requires
        adds_among(settled) <= u64::MAX,
    ensures
        driver_after(settled).processed == adds_among(settled),
        driver_after(settled).fatal is Some <==> driver_after(settled).shutting_down,
        match driver_after(settled).fatal {
            Some(reason) => exists|i: int|
                #![trigger settled[i]]
                0 <= i < settled.len() && settled[i] == Settled::Fatal(reason) && forall|j: int|
                    0 <= j < i ==> #[trigger] settled[j] !is Fatal,
            None => forall|i: int| 0 <= i < settled.len() ==> #[trigger] settled[i] !is Fatal,
        },
    decreases settled.len(),
{
    if settled.len() > 0 {
        let earlier = settled.drop_last();
        law_driver_keeps_count_and_the_first_reason(earlier);
        assert forall|i: int| 0 <= i < earlier.len() implies earlier[i] == #[trigger]
            settled[i] by {}
        assert(settled[settled.len() - 1] == settled.last());
        match driver_after(earlier).fatal {
            Some(reason) => {
                let i = choose|i: int|
                    #![trigger earlier[i]]
                    0 <= i < earlier.len() && earlier[i] == Settled::Fatal(reason) && forall|
                        j: int,
                    |
                        0 <= j < i ==> #[trigger] earlier[j] !is Fatal;
                assert(settled[i] == Settled::Fatal(reason));
                assert forall|j: int| 0 <= j < i implies #[trigger] settled[j] !is Fatal by {
                    assert(earlier[j] !is Fatal);
                }
            },
            None => {
                assert forall|j: int| 0 <= j < earlier.len() implies #[trigger] settled[j]
                    !is Fatal by {
                    assert(earlier[j] !is Fatal);
                }
            },
        }
    }
}

/// The depth of the queue, from the attribute that SQS gives; nothing if it gives none, or
/// none that can be read.
pub fn approximate_depth(attribute: Option<&str>) -> (depth: Option<u32>)
    ensures
        match depth {
            Some(n) => attribute matches Some(text) && is_unsigned(text@) && n == number(
                without_plus(text@),
            ),
            None => attribute matches Some(text) ==> is_unsigned(text@) ==> number(
                without_plus(text@),
            ) > u32::MAX,
        },
{
    match attribute {
        Some(text) => parse_u32(text),
        None => None,
    }
}

/// The counters at the time of the last status line.
#[derive(Debug, Clone, Copy, PartialEq, Eq)]
pub struct StatusBaseline {
    pub adds: usize,
    pub redos: usize,
}

impl StatusBaseline {
    pub fn new() -> (baseline: Self)
        ensures
            baseline.adds == 0,
            baseline.redos == 0,
    {
        StatusBaseline { adds: 0, redos: 0 }
    }

    /// Moves on to the present counters and returns how much was added and redone since.
    pub fn advance(&mut self, adds: usize, redos: usize) -> (since: (usize, usize))
        requires
            adds >= old(self).adds,
            redos >= old(self).redos,
        ensures
            since.0 == adds - old(self).adds,
            since.1 == redos - old(self).redos,
            final(self).adds == adds,
            final(self).redos == redos,
    {
        let since = (adds - self.adds, redos - self.redos);
        self.adds = adds;
        self.redos = redos;
        since
    }
}

/// One more settled delivery: an addition counts one, a fatal error shuts the run down and
/// leaves its reason unless there is one already, and a reject changes nothing.
pub proof fn law_settled_deliveries_count_one_by_one(state: DriverState, settled: Settled)
    requires
        settled is Added ==> state.processed < u64::MAX,
    ensures
        settled is Added ==> state.after_settled(settled).processed == state.processed + 1,
        settled !is Added ==> state.after_settled(settled).processed == state.processed,
        state.after_settled(settled).shutting_down <==> state.shutting_down || settled is Fatal,
        state.fatal is Some || settled !is Fatal ==> state.after_settled(settled).fatal
            == state.fatal,
        settled matches Settled::Fatal(reason) ==> state.fatal is None ==> state.after_settled(
            settled,
        ).fatal == Some(reason),
        DriverState::initial().processed == 0,
        DriverState::initial().fatal is None,
        !DriverState::initial().shutting_down,
{
}

/// Of the workers, as many as the plan says serve the redo queue first, and they are the first.
pub proof fn law_first_workers_prefer_redo(plan: WorkerPlan, worker_id: usize)
    ensures
        worker_id < plan.redo_pref ==> plan.class(worker_id) is RedoPreferring,
        worker_id >= plan.redo_pref ==> plan.class(worker_id) is LoadPreferring,
{
}

} // verus!
