//! The main loop: takes signals and the workers' outcomes, settles the messages, and ends the
//! run. The loop is told what happened and says what to do next.
use vstd::prelude::*;

use crate::dead_letter::DeadLetter;
use crate::deletes::{is_batching, DeleteBatcher, DeleteEntry, DELETE_BATCH_MAX};
use crate::driver::{driver_after, Driver, DriverState, RunOutcome};
use crate::in_flight::{InFlight, SqsInFlight};
use crate::record::{Action, LoadCounters, Outcome, RecordInfo};
use crate::settle::{
    counters_after_outcome, deletes_after_forward, deletes_after_outcome, handle_outcome,
    is_reject_step, note_forward, target, OutcomeStep, RejectStep, Settled,
};

verus! {

/// Where the main loop stands.
#[derive(Debug)]
pub enum MainPhase {
    Running,
    /// The message `id` is being rejected; `forwarding` if it is sent somewhere.
    Rejecting { id: u64, message: SqsInFlight, forwarding: bool },
    /// All results are in; the poller and the workers are being joined.
    Joining,
    Over,
}

/// What happened.
#[derive(Debug)]
pub enum MainEvent {
    /// A termination signal came.
    Signal,
    /// A worker reported its outcome.
    Finished(Outcome),
    /// The reject is through; `sent` if the message was forwarded successfully.
    Rejected { sent: bool },
    /// It is time to send the queued deletes, however few.
    FlushDue,
    /// Whoever could report an outcome is gone.
    ResultsClosed,
    /// The join is over, by success or by time.
    Joined { all_workers_joined: bool },
}

/// How a delivery was settled.
#[derive(Debug, PartialEq, Eq)]
pub enum SettledNote {
    /// The record was added; the engine's response is to be printed, if there is one.
    Added { response: Option<String> },
    Rejected,
    /// The record was rejected, but its message is not in flight.
    RejectedUnknown { info: RecordInfo },
    /// The engine failed. The message is left alone.
    Fatal(String),
}

/// What to do about a delivery that was settled.
#[derive(Debug, PartialEq, Eq)]
pub struct SettledReport {
    pub note: SettledNote,
    /// The records added before and after, for the throughput report.
    pub before: u64,
    pub processed: u64,
    /// Tell everyone to stop.
    pub stop: bool,
    /// Deletes to be sent: there were enough for a full batch.
    pub batches: Vec<Vec<DeleteEntry>>,
}

/// What to do next.
#[derive(Debug, PartialEq, Eq)]
pub enum MainAction {
    /// Nothing but to wait for what happens next.
    Wait,
    /// Tell everyone to stop.
    Stop,
    /// See the reject of the message through.
    Reject(RejectStep),
    Settled(SettledReport),
    /// Send these deletes.
    Flush(Vec<Vec<DeleteEntry>>),
    /// Wait for the poller and, for as long as is allowed, for the workers.
    Join,
    /// Send these deletes and end the run.
    Finish { batches: Vec<Vec<DeleteEntry>>, outcome: RunOutcome },
}

/// The main loop.
pub struct MainLoop {
    driver: Driver,
    deletes: DeleteBatcher,
    phase: MainPhase,
}

/// What the main loop knows.
pub struct MainState {
    pub driver: DriverState,
    /// The queued deletes.
    pub deletes: Seq<(u64, Seq<char>)>,
    pub phase: MainPhase,
}

impl SettledNote {
    pub open spec fn settled_as(self) -> Settled {
        match self {
            SettledNote::Added { .. } => Settled::Added,
            SettledNote::Rejected => Settled::Rejected,
            SettledNote::RejectedUnknown { .. } => Settled::Rejected,
            SettledNote::Fatal(reason) => Settled::Fatal(reason),
        }
    }
}

impl MainState {
    pub open spec fn initial() -> Self {
        MainState {
            driver: DriverState::initial(),
            deletes: Seq::empty(),
            phase: MainPhase::Running,
        }
    }

    /// The event is one that the loop is waiting for.
    pub open spec fn expects(self, event: MainEvent) -> bool {
        match self.phase {
            MainPhase::Running => event is Signal || event is Finished || event is FlushDue
                || event is ResultsClosed,
            MainPhase::Rejecting { .. } => event is Rejected,
            MainPhase::Joining => event is Joined,
            MainPhase::Over => false,
        }
    }

    /// The count of added records has room for the event.
    pub open spec fn can_count(self, event: MainEvent) -> bool {
        event matches MainEvent::Finished(outcome) ==> outcome.action is Ack
            ==> self.driver.processed < u64::MAX
    }
}

/// The delivery is settled as `note` says with the deletes `queued`, which go out once there
/// are enough for a full batch.
pub open spec fn is_settling(
    before: MainState,
    queued: Seq<(u64, Seq<char>)>,
    note: SettledNote,
    after: MainState,
    action: MainAction,
) -> bool {
    let full = queued.len() >= DELETE_BATCH_MAX;
    &&& action matches MainAction::Settled(report)
    &&& report.note == note
    &&& report.before == before.driver.processed
    &&& report.processed == after.driver.processed
    &&& report.stop == (note is Fatal)
    &&& is_batching(
        report.batches@,
        if full {
            queued
        } else {
            Seq::empty()
        },
    )
    &&& after == MainState {
        driver: before.driver.after_settled(note.settled_as()),
        deletes: if full {
            Seq::empty()
        } else {
            queued
        },
        phase: MainPhase::Running,
    }
}

/// What the loop and the run's books are after `event`, and what is to be done.
pub open spec fn is_main_step(
    before: MainState,
    in_flight: Map<u64, SqsInFlight>,
    counters: LoadCounters,
    dead_letter: Option<DeadLetter>,
    event: MainEvent,
    after: MainState,
    in_flight_after: Map<u64, SqsInFlight>,
    counters_after: LoadCounters,
    action: MainAction,
) -> bool {
    match (before.phase, event) {
        (MainPhase::Running, MainEvent::Signal) => {
            &&& in_flight_after == in_flight
            &&& counters_after == counters
            &&& after == MainState {
                driver: DriverState { shutting_down: true, ..before.driver },
                ..before
            }
            &&& if before.driver.shutting_down {
                action is Wait
            } else {
                action is Stop
            }
        },
        (MainPhase::Running, MainEvent::Finished(outcome)) => {
            let id = outcome.delivery_tag;
            let queued = deletes_after_outcome(
                in_flight,
                before.deletes,
                id,
                outcome.action,
                dead_letter,
            );
            &&& in_flight_after == in_flight.remove(id)
            &&& counters_after == counters_after_outcome(counters, outcome.action)
            &&& match outcome.action {
                Action::Ack(response) => is_settling(
                    before,
                    queued,
                    SettledNote::Added { response },
                    after,
                    action,
                ),
                Action::RejectNoRequeue => if in_flight.contains_key(id) {
                    &&& action matches MainAction::Reject(step)
                    &&& is_reject_step(in_flight[id], dead_letter, step)
                    &&& after == MainState {
                        deletes: queued,
                        phase: MainPhase::Rejecting {
                            id,
                            message: in_flight[id],
                            forwarding: step is Forward,
                        },
                        ..before
                    }
                } else {
                    is_settling(
                        before,
                        queued,
                        SettledNote::RejectedUnknown { info: outcome.info },
                        after,
                        action,
                    )
                },
                Action::Fatal(reason) => is_settling(
                    before,
                    queued,
                    SettledNote::Fatal(reason),
                    after,
                    action,
                ),
            }
        },
        (MainPhase::Rejecting { id, message, forwarding }, MainEvent::Rejected { sent }) => {
            &&& in_flight_after == in_flight
            &&& counters_after == counters
            &&& is_settling(
                before,
                deletes_after_forward(before.deletes, id, message, forwarding && sent),
                SettledNote::Rejected,
                after,
                action,
            )
        },
        (MainPhase::Running, MainEvent::FlushDue) => {
            &&& in_flight_after == in_flight
            &&& counters_after == counters
            &&& after == MainState { deletes: Seq::empty(), ..before }
            &&& action matches MainAction::Flush(batches)
            &&& is_batching(batches@, before.deletes)
        },
        (MainPhase::Running, MainEvent::ResultsClosed) => {
            &&& in_flight_after == in_flight
            &&& counters_after == counters
            &&& after == MainState { phase: MainPhase::Joining, ..before }
            &&& action is Join
        },
        (MainPhase::Joining, MainEvent::Joined { all_workers_joined }) => {
            &&& in_flight_after == in_flight
            &&& counters_after == counters
            &&& after == MainState { deletes: Seq::empty(), phase: MainPhase::Over, ..before }
            &&& action matches MainAction::Finish { batches, outcome }
            &&& is_batching(batches@, before.deletes)
            &&& outcome == RunOutcome { all_workers_joined, fatal: before.driver.fatal }
        },
        _ => false,
    }
}

impl View for MainLoop {
    type V = MainState;

    closed spec fn view(&self) -> MainState {
        MainState { driver: self.driver@, deletes: self.deletes@, phase: self.phase }
    }
}

impl MainLoop {
    pub fn new() -> (main: Self)
        ensures
            main@ == MainState::initial(),
    {
        MainLoop {
            driver: Driver::new(),
            deletes: DeleteBatcher::default(),
            phase: MainPhase::Running,
        }
    }

    pub fn is_shutting_down(&self) -> (yes: bool)
        ensures
            yes == self@.driver.shutting_down,
    {
        self.driver.is_shutting_down()
    }

    /// The message that is being rejected.
    pub fn rejected(&self) -> (message: Option<&SqsInFlight>)
        ensures
            match self@.phase {
                MainPhase::Rejecting { message: m, .. } => message == Some(&m),
                _ => message is None,
            },
    {
        match &self.phase {
            MainPhase::Rejecting { message, .. } => Some(message),
            _ => None,
        }
    }

    fn settle(&mut self, note: SettledNote) -> (action: MainAction)
        requires
            note is Added ==> old(self)@.driver.processed < u64::MAX,
        ensures
            is_settling(old(self)@, old(self)@.deletes, note, final(self)@, action),
    {
        let settled = match &note {
            SettledNote::Added { .. } => Settled::Added,
            SettledNote::Rejected => Settled::Rejected,
            SettledNote::RejectedUnknown { .. } => Settled::Rejected,
            SettledNote::Fatal(reason) => Settled::Fatal(reason.clone()),
        };
        let step = self.driver.on_settled(settled, self.deletes.len());
        let batches = if step.flush {
            self.deletes.flush()
        } else {
            Vec::new()
        };
        self.phase = MainPhase::Running;
        MainAction::Settled(
            SettledReport {
                note,
                before: step.before,
                processed: step.processed,
                stop: step.stop,
                batches,
            },
        )
    }

    /// Goes one step: takes what happened into the books and says what to do next.
    pub fn step(
        &mut self,
        event: MainEvent,
        dead_letter: Option<&DeadLetter>,
        in_flight: &mut InFlight,
        counters: &mut LoadCounters,
    ) -> (action: MainAction)
        requires
            old(self)@.expects(event),
            old(self)@.can_count(event),
        ensures
            is_main_step(
                old(self)@,
                old(in_flight)@,
                *old(counters),
                target(dead_letter),
                event,
                final(self)@,
                final(in_flight)@,
                *final(counters),
                action,
            ),
    {
        let mut phase = MainPhase::Running;
        std::mem::swap(&mut self.phase, &mut phase);
        match (phase, event) {
            (MainPhase::Running, MainEvent::Signal) => {
                if self.driver.on_signal() {
                    MainAction::Stop
                } else {
                    MainAction::Wait
                }
            },
            (MainPhase::Running, MainEvent::Finished(outcome)) => {
                let id: u64 = outcome.delivery_tag;
                match handle_outcome(dead_letter, in_flight, &mut self.deletes, counters, outcome) {
                    OutcomeStep::Added { response } => self.settle(
                        SettledNote::Added { response },
                    ),
                    OutcomeStep::Rejected { message, step } => {
                        let forwarding = match &step {
                            RejectStep::Forward(_) => true,
                            _ => false,
                        };
                        self.phase = MainPhase::Rejecting { id, message, forwarding };
                        MainAction::Reject(step)
                    },
                    OutcomeStep::RejectedUnknown { info } => self.settle(
                        SettledNote::RejectedUnknown { info },
                    ),
                    OutcomeStep::Fatal(reason) => self.settle(SettledNote::Fatal(reason)),
                }
            },
            (MainPhase::Rejecting { id, message, forwarding }, MainEvent::Rejected { sent }) => {
                note_forward(&mut self.deletes, id, &message, forwarding && sent);
                self.settle(SettledNote::Rejected)
            },
            (MainPhase::Running, MainEvent::FlushDue) => MainAction::Flush(self.deletes.flush()),
            (MainPhase::Running, MainEvent::ResultsClosed) => {
                self.phase = MainPhase::Joining;
                MainAction::Join
            },
            (MainPhase::Joining, MainEvent::Joined { all_workers_joined }) => {
                self.phase = MainPhase::Over;
                MainAction::Finish {
                    batches: self.deletes.flush(),
                    outcome: self.driver.finish(all_workers_joined),
                }
            },
            _ => MainAction::Wait,
        }
    }
}

/// Few deletes are queued at a time: never more than a batch holds, and fewer than that
/// whenever another may be added. Once the run is over, none is left.
pub open spec fn queue_is_short(state: MainState) -> bool {
    match state.phase {
        MainPhase::Running | MainPhase::Joining => state.deletes.len() < DELETE_BATCH_MAX,
        MainPhase::Rejecting { forwarding, .. } => state.deletes.len() + if forwarding {
            1int
        } else {
            0int
        } <= DELETE_BATCH_MAX,
        MainPhase::Over => state.deletes.len() == 0,
    }
}

/// Every step of the loop keeps the queue of deletes short, and sends at most one batch.
pub proof fn law_deletes_go_out_one_batch_at_a_time(
    before: MainState,
    in_flight: Map<u64, SqsInFlight>,
    counters: LoadCounters,
    dead_letter: Option<DeadLetter>,
    event: MainEvent,
    after: MainState,
    in_flight_after: Map<u64, SqsInFlight>,
    counters_after: LoadCounters,
    action: MainAction,
)
    requires
        queue_is_short(before),
        is_main_step(
            before,
            in_flight,
            counters,
            dead_letter,
            event,
            after,
            in_flight_after,
            counters_after,
            action,
        ),
    ensures
        queue_is_short(after),
        match action {
            MainAction::Settled(report) => report.batches@.len() <= 1,
            MainAction::Flush(batches) => batches@.len() <= 1,
            MainAction::Finish { batches, .. } => batches@.len() <= 1,
            _ => true,
        },
{
}

/// The deliveries settled so far, with the one that `action` reports, if it does.
pub open spec fn settled_after(settled: Seq<Settled>, action: MainAction) -> Seq<Settled> {
    match action {
        MainAction::Settled(report) => settled.push(report.note.settled_as()),
        _ => settled,
    }
}

/// The loop has kept count of `settled`: it stands where these deliveries have brought it, but
/// for a shutdown, which a signal brings about too.
pub open spec fn has_tallied(state: MainState, settled: Seq<Settled>, signalled: bool) -> bool {
    state.driver == DriverState {
        shutting_down: signalled || driver_after(settled).shutting_down,
        ..driver_after(settled)
    }
}

/// The loop keeps count of what it settles, step by step; and when it ends, the reason that it
/// gives is the one that the settled deliveries leave.
pub proof fn law_main_loop_tallies_what_it_settles(
    before: MainState,
    in_flight: Map<u64, SqsInFlight>,
    counters: LoadCounters,
    dead_letter: Option<DeadLetter>,
    event: MainEvent,
    after: MainState,
    in_flight_after: Map<u64, SqsInFlight>,
    counters_after: LoadCounters,
    action: MainAction,
    settled: Seq<Settled>,
    signalled: bool,
)
    requires
        has_tallied(before, settled, signalled),
        is_main_step(
            before,
            in_flight,
            counters,
            dead_letter,
            event,
            after,
            in_flight_after,
            counters_after,
            action,
        ),
    ensures
        has_tallied(after, settled_after(settled, action), signalled || event is Signal),
        action matches MainAction::Finish { outcome, .. } ==> outcome.fatal == driver_after(
            settled,
        ).fatal,
{
    if let MainAction::Settled(report) = action {
        assert(settled.push(report.note.settled_as()).drop_last() =~= settled);
    }
}

/// What becomes of the queued deletes when a delivery is settled: nine or fewer stay queued, and
/// ten or more go out, all of them.
pub proof fn law_deletes_go_out_by_the_ten(
    before: MainState,
    queued: Seq<(u64, Seq<char>)>,
    note: SettledNote,
    after: MainState,
    action: MainAction,
)
    requires
        is_settling(before, queued, note, after, action),
    ensures
        action matches MainAction::Settled(report) && report.note == note && report.before
            == before.driver.processed && report.processed == after.driver.processed && (
        report.stop <==> note is Fatal),
        after.phase is Running,
        queued.len() < 10 ==> after.deletes == queued && (
        action matches MainAction::Settled(report) && report.batches@.len() == 0),
        queued.len() >= 10 ==> after.deletes.len() == 0 && (
        action matches MainAction::Settled(report) && is_batching(report.batches@, queued)),
        note is Added && before.driver.processed < u64::MAX ==> after.driver.processed
            == before.driver.processed + 1,
        note !is Added ==> after.driver.processed == before.driver.processed,
        note matches SettledNote::Fatal(reason) ==> after.driver.shutting_down && after.driver.fatal
            == match before.driver.fatal {
            Some(first) => Some(first),
            None => Some(reason),
        },
        note !is Fatal ==> after.driver.fatal == before.driver.fatal
            && after.driver.shutting_down == before.driver.shutting_down,
{
}

/// An added record: its message leaves the flight, one more addition counts, the delete of the
/// message is queued under the handle it came with, and the delivery is settled.
pub proof fn law_added_records_are_deleted(
    before: MainState,
    in_flight: Map<u64, SqsInFlight>,
    counters: LoadCounters,
    dead_letter: Option<DeadLetter>,
    event: MainEvent,
    after: MainState,
    in_flight_after: Map<u64, SqsInFlight>,
    counters_after: LoadCounters,
    action: MainAction,
    outcome: Outcome,
    response: Option<String>,
)
    requires
        is_main_step(
            before,
            in_flight,
            counters,
            dead_letter,
            event,
            after,
            in_flight_after,
            counters_after,
            action,
        ),
        event == MainEvent::Finished(outcome),
        outcome.action == Action::Ack(response),
    ensures
        in_flight_after == in_flight.remove(outcome.delivery_tag),
        counters_after == counters.with_add(),
        is_settling(
            before,
            if in_flight.contains_key(outcome.delivery_tag) {
                before.deletes.push(
                    (
                        outcome.delivery_tag,
                        in_flight[outcome.delivery_tag].receipt_handle@,
                    ),
                )
            } else {
                before.deletes
            },
            SettledNote::Added { response },
            after,
            action,
        ),
{
}

/// A rejected record in flight: its message leaves the flight, one more reject counts, and the
/// message is forwarded to the dead-letter queue, with no delete queued yet. Without such a
/// queue the delete is queued; and a body that is no text stays where it is. Nothing is settled
/// before the reject is through.
pub proof fn law_rejected_records_are_forwarded(
    before: MainState,
    in_flight: Map<u64, SqsInFlight>,
    counters: LoadCounters,
    dead_letter: Option<DeadLetter>,
    event: MainEvent,
    after: MainState,
    in_flight_after: Map<u64, SqsInFlight>,
    counters_after: LoadCounters,
    action: MainAction,
    outcome: Outcome,
)
    requires
        is_main_step(
            before,
            in_flight,
            counters,
            dead_letter,
            event,
            after,
            in_flight_after,
            counters_after,
            action,
        ),
        event == MainEvent::Finished(outcome),
        outcome.action is RejectNoRequeue,
        in_flight.contains_key(outcome.delivery_tag),
    ensures
        ({
            let id = outcome.delivery_tag;
            let message = in_flight[id];
            let text = vstd::utf8::valid_utf8(message.body@);
            &&& in_flight_after == in_flight.remove(id)
            &&& counters_after == counters.with_reject()
            &&& after.driver == before.driver
            &&& after.phase == (MainPhase::Rejecting {
                id,
                message,
                forwarding: dead_letter is Some && text,
            })
            &&& dead_letter is None ==> action == MainAction::Reject(RejectStep::Deleted)
                && after.deletes == before.deletes.push((id, message.receipt_handle@))
            &&& dead_letter is Some ==> after.deletes == before.deletes
            &&& dead_letter is Some && !text ==> action == MainAction::Reject(
                RejectStep::Unforwardable,
            )
            &&& dead_letter matches Some(queue) ==> text ==> (action matches MainAction::Reject(
                RejectStep::Forward(request),
            ) && request.forwards(message, queue))
        }),
{
}

/// A rejected record that is not in flight counts as one reject and deletes nothing.
pub proof fn law_unknown_rejects_delete_nothing(
    before: MainState,
    in_flight: Map<u64, SqsInFlight>,
    counters: LoadCounters,
    dead_letter: Option<DeadLetter>,
    event: MainEvent,
    after: MainState,
    in_flight_after: Map<u64, SqsInFlight>,
    counters_after: LoadCounters,
    action: MainAction,
    outcome: Outcome,
)
    requires
        is_main_step(
            before,
            in_flight,
            counters,
            dead_letter,
            event,
            after,
            in_flight_after,
            counters_after,
            action,
        ),
        event == MainEvent::Finished(outcome),
        outcome.action is RejectNoRequeue,
        !in_flight.contains_key(outcome.delivery_tag),
    ensures
        in_flight_after == in_flight.remove(outcome.delivery_tag),
        counters_after == counters.with_reject(),
        is_settling(
            before,
            before.deletes,
            SettledNote::RejectedUnknown { info: outcome.info },
            after,
            action,
        ),
{
}

/// A fatal error: the message leaves the flight and is not deleted, no count changes, and the
/// run is told to stop.
pub proof fn law_fatal_errors_delete_nothing(
    before: MainState,
    in_flight: Map<u64, SqsInFlight>,
    counters: LoadCounters,
    dead_letter: Option<DeadLetter>,
    event: MainEvent,
    after: MainState,
    in_flight_after: Map<u64, SqsInFlight>,
    counters_after: LoadCounters,
    action: MainAction,
    outcome: Outcome,
    reason: String,
)
    requires
        is_main_step(
            before,
            in_flight,
            counters,
            dead_letter,
            event,
            after,
            in_flight_after,
            counters_after,
            action,
        ),
        event == MainEvent::Finished(outcome),
        outcome.action == Action::Fatal(reason),
    ensures
        in_flight_after == in_flight.remove(outcome.delivery_tag),
        counters_after == counters,
        is_settling(before, before.deletes, SettledNote::Fatal(reason), after, action),
{
}

/// A reject that is through: the delete of a message that was forwarded is queued if it was
/// sent, and only then.
pub proof fn law_sent_rejects_are_deleted(
    before: MainState,
    in_flight: Map<u64, SqsInFlight>,
    counters: LoadCounters,
    dead_letter: Option<DeadLetter>,
    event: MainEvent,
    after: MainState,
    in_flight_after: Map<u64, SqsInFlight>,
    counters_after: LoadCounters,
    action: MainAction,
    id: u64,
    message: SqsInFlight,
    forwarding: bool,
    sent: bool,
)
    requires
        is_main_step(
            before,
            in_flight,
            counters,
            dead_letter,
            event,
            after,
            in_flight_after,
            counters_after,
            action,
        ),
        before.phase == (MainPhase::Rejecting { id, message, forwarding }),
        event == (MainEvent::Rejected { sent }),
    ensures
        in_flight_after == in_flight,
        counters_after == counters,
        is_settling(
            before,
            if forwarding && sent {
                before.deletes.push((id, message.receipt_handle@))
            } else {
                before.deletes
            },
            SettledNote::Rejected,
            after,
            action,
        ),
{
}

/// Signals, the flush timer and the end of a run. The first signal tells everyone to stop; the
/// timer sends what is queued; once all results are in, the workers are joined, what is queued
/// goes out, and the outcome is how the join went and the reason of the first fatal error. None
/// of this touches a message.
pub proof fn law_signals_flushes_and_the_end(
    before: MainState,
    in_flight: Map<u64, SqsInFlight>,
    counters: LoadCounters,
    dead_letter: Option<DeadLetter>,
    event: MainEvent,
    after: MainState,
    in_flight_after: Map<u64, SqsInFlight>,
    counters_after: LoadCounters,
    action: MainAction,
)
    requires
        is_main_step(
            before,
            in_flight,
            counters,
            dead_letter,
            event,
            after,
            in_flight_after,
            counters_after,
            action,
        ),
        event !is Finished,
        event !is Rejected,
    ensures
        in_flight_after == in_flight,
        counters_after == counters,
        after.driver.processed == before.driver.processed,
        after.driver.fatal == before.driver.fatal,
        event is Signal ==> after.phase is Running && after.driver.shutting_down && after.deletes
            == before.deletes && (if before.driver.shutting_down {
            action is Wait
        } else {
            action is Stop
        }),
        event !is Signal ==> after.driver == before.driver,
        event is FlushDue ==> after.phase is Running && after.deletes.len() == 0 && (
        action matches MainAction::Flush(batches) && is_batching(batches@, before.deletes)),
        event is ResultsClosed ==> after.phase is Joining && action is Join && after.deletes
            == before.deletes,
        event matches MainEvent::Joined { all_workers_joined: all } ==> after.phase is Over
            && after.deletes.len() == 0 && (action matches MainAction::Finish { batches, outcome }
            && is_batching(batches@, before.deletes) && outcome.all_workers_joined == all
            && outcome.fatal == before.driver.fatal),
{
}

/// What the loop waits for in each phase, and where it starts.
pub proof fn law_main_loop_takes_what_belongs_to_its_phase(state: MainState, event: MainEvent)
    ensures
        state.phase is Running && (event is Signal || event is Finished || event is FlushDue
            || event is ResultsClosed) ==> state.expects(event),
        state.phase is Rejecting && event is Rejected ==> state.expects(event),
        state.phase is Joining && event is Joined ==> state.expects(event),
        state.driver.processed < u64::MAX || event !is Finished ==> state.can_count(event),
        event matches MainEvent::Finished(outcome) ==> outcome.action !is Ack ==> state.can_count(
            event,
        ),
        MainState::initial().phase is Running,
        MainState::initial().deletes.len() == 0,
        MainState::initial().driver.processed == 0,
        MainState::initial().driver.fatal is None,
        !MainState::initial().driver.shutting_down,
{
}

} // verus!
