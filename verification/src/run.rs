//! A whole run of the polling loop and the main loop, side by side: what holds between their
//! steps, however these interleave, and what follows for the messages.
use vstd::multiset::Multiset;
use vstd::prelude::*;

use crate::bookkeeping::{
    is_queued_or_sent, knows_forward_of_main, knows_forward_of_poll, law_main_steps_show_in_the_ledger,
    law_poll_steps_show_in_the_ledger, ledger_after, main_delivery, poll_delivery, sent_by_main,
    sent_by_poll,
};
use crate::dead_letter::DeadLetter;
use crate::deletes::{is_batching, law_batches_tell_what_they_delete, DeleteEntry};
use crate::delivery::{
    bodies_are_text, delete_was_allowed, ids_are_fresh, law_a_message_is_in_one_place,
    law_no_message_gets_lost, law_only_preserved_messages_are_deleted, leaves_for_redelivery,
    ledger_of, lemma_everything_was_received, received, was_received, DeliveryEvent,
};
use crate::driver::{adds_among, law_driver_keeps_count_and_the_first_reason};
use crate::in_flight::{messages_after_extension, SqsInFlight};
use crate::main_loop::{
    has_tallied, is_main_step, law_deletes_go_out_one_batch_at_a_time,
    law_main_loop_tallies_what_it_settles, queue_is_short, settled_after, MainAction, MainEvent,
    MainPhase, MainState,
};
use crate::poll_loop::{
    deletes_are_out, is_poll_step, is_within_cap, keeps_to_request,
    law_poll_loop_flushes_before_it_stops, law_poll_loop_only_counts_up,
    law_poll_loop_stays_within_the_cap, PollAction, PollEvent, PollPhase, PollState,
};
use crate::record::LoadCounters;
use crate::settle::Settled;

verus! {

/// A run, as far as it has come.
pub struct RunState {
    /// What has happened to the messages, in order.
    pub events: Seq<DeliveryEvent>,
    /// The deletes that were put in a batch, in order.
    pub sent: Seq<(u64, Seq<char>)>,
    pub poll: PollState,
    pub main: MainState,
    pub in_flight: Map<u64, SqsInFlight>,
    /// The deliveries that the main loop has settled, in order.
    pub settled: Seq<Settled>,
    /// A termination signal came.
    pub signalled: bool,
}

/// A step of the polling loop. Before and after it the counters read `counters` and
/// `counters_after`; `out` are the deletes in the batches that it sends.
pub struct PollStep {
    pub event: PollEvent,
    pub after: PollState,
    pub in_flight: Map<u64, SqsInFlight>,
    pub counters: LoadCounters,
    pub counters_after: LoadCounters,
    pub action: PollAction,
    pub out: Seq<(u64, Seq<char>)>,
}

/// A step of the main loop, told in the same way.
pub struct MainStep {
    pub event: MainEvent,
    pub after: MainState,
    pub in_flight: Map<u64, SqsInFlight>,
    pub counters: LoadCounters,
    pub counters_after: LoadCounters,
    pub action: MainAction,
    pub out: Seq<(u64, Seq<char>)>,
}

/// A step of a run. The two loops take turns in any order, and the heartbeat in between.
pub enum RunStep {
    Poll(PollStep),
    Main(MainStep),
    /// A visibility extension of the message `id` was granted.
    Extended { id: u64 },
}

impl RunState {
    pub open spec fn initial(cap: usize, max_messages: i32) -> Self {
        RunState {
            events: Seq::empty(),
            sent: Seq::empty(),
            poll: PollState::initial(cap, max_messages),
            main: MainState::initial(),
            in_flight: Map::empty(),
            settled: Seq::empty(),
            signalled: false,
        }
    }

    pub open spec fn after(self, step: RunStep) -> Self {
        match step {
            RunStep::Poll(s) => RunState {
                events: events_after(
                    self.events,
                    poll_delivery(self.poll, s.event, s.after, s.in_flight),
                ),
                sent: self.sent + s.out,
                poll: s.after,
                in_flight: s.in_flight,
                ..self
            },
            RunStep::Main(s) => RunState {
                events: events_after(self.events, main_delivery(self.main, s.event)),
                sent: self.sent + s.out,
                main: s.after,
                in_flight: s.in_flight,
                settled: settled_after(self.settled, s.action),
                signalled: self.signalled || s.event is Signal,
                ..self
            },
            RunStep::Extended { id } => RunState {
                events: self.events.push(DeliveryEvent::Extended { id }),
                in_flight: messages_after_extension(self.in_flight, id, true),
                ..self
            },
        }
    }
}

/// The step is one that the loops can take from `run`, as their contracts say.
pub open spec fn is_run_step(
    run: RunState,
    step: RunStep,
    dead_letter: Option<DeadLetter>,
) -> bool {
    match step {
        RunStep::Poll(s) => {
            &&& run.poll.has_ids_for(s.event)
            &&& is_poll_step(
                run.poll,
                run.in_flight,
                s.counters,
                dead_letter,
                s.event,
                s.after,
                s.in_flight,
                s.counters_after,
                s.action,
            )
            &&& is_batching(sent_by_poll(s.action), s.out)
        },
        RunStep::Main(s) => {
            &&& is_main_step(
                run.main,
                run.in_flight,
                s.counters,
                dead_letter,
                s.event,
                s.after,
                s.in_flight,
                s.counters_after,
                s.action,
            )
            &&& is_batching(sent_by_main(s.action), s.out)
        },
        RunStep::Extended { .. } => true,
    }
}

/// Where a run stands after `steps`.
pub open spec fn run_of(cap: usize, max_messages: i32, steps: Seq<RunStep>) -> RunState
    decreases steps.len(),
{
    if steps.len() == 0 {
        RunState::initial(cap, max_messages)
    } else {
        run_of(cap, max_messages, steps.drop_last()).after(steps.last())
    }
}

/// `steps` are a run: each of them can be taken after those before it.
pub open spec fn is_run(
    cap: usize,
    max_messages: i32,
    steps: Seq<RunStep>,
    dead_letter: Option<DeadLetter>,
) -> bool
    decreases steps.len(),
{
    steps.len() == 0 || is_run(cap, max_messages, steps.drop_last(), dead_letter) && is_run_step(
        run_of(cap, max_messages, steps.drop_last()),
        steps.last(),
        dead_letter,
    )
}

/// No reply in the course of `steps` holds more messages than were asked for.
pub open spec fn replies_keep_to_requests(
    cap: usize,
    max_messages: i32,
    steps: Seq<RunStep>,
) -> bool
    decreases steps.len(),
{
    steps.len() == 0 || replies_keep_to_requests(cap, max_messages, steps.drop_last()) && (
    steps.last() matches RunStep::Poll(s) ==> keeps_to_request(
        run_of(cap, max_messages, steps.drop_last()).poll,
        s.event,
    ))
}

/// The events with the one that a step added, if it did.
pub open spec fn events_after(
    events: Seq<DeliveryEvent>,
    done: Option<DeliveryEvent>,
) -> Seq<DeliveryEvent> {
    match done {
        Some(event) => events.push(event),
        None => events,
    }
}

/// A message was received under the id `id`.
pub open spec fn id_is_taken(events: Seq<DeliveryEvent>, id: u64) -> bool {
    exists|k: int|
        0 <= k < events.len() && (received(#[trigger] events[k]) matches Some((i, _)) && i == id)
}

/// All ids given so far are below `next_id`.
pub open spec fn ids_are_below(events: Seq<DeliveryEvent>, next_id: u64) -> bool {
    forall|k: int|
        0 <= k < events.len() ==> (received(#[trigger] events[k]) matches Some((id, _)) ==> id
            < next_id)
}

/// The two loops are not forwarding the same message.
pub open spec fn forwards_differ(poll: PollState, main: MainState) -> bool {
    match (poll.phase, main.phase) {
        (
            PollPhase::Rejecting { id, forwarding, .. },
            MainPhase::Rejecting { id: other_id, forwarding: other_forwarding, .. },
        ) => forwarding && other_forwarding ==> id != other_id,
        _ => true,
    }
}

/// The deletes that are in a batch or in one of the two queues.
pub open spec fn all_deletes(run: RunState) -> Multiset<(u64, Seq<char>)> {
    run.sent.to_multiset().add(run.poll.poison.to_multiset()).add(run.main.deletes.to_multiset())
}

/// What holds of a run between any two steps: the ledger knows what is in flight and what is
/// being forwarded, ids are given once, the main loop has kept count of what it settled, and
/// the deletes that the ledger notes are those that were put in a batch and those that are
/// queued.
pub open spec fn is_sound(run: RunState, dead_letter: Option<DeadLetter>) -> bool {
    let ledger = ledger_of(run.events, dead_letter);
    &&& ledger.in_flight == run.in_flight
    &&& knows_forward_of_poll(ledger, run.poll)
    &&& knows_forward_of_main(ledger, run.main)
    &&& forwards_differ(run.poll, run.main)
    &&& ids_are_fresh(run.events)
    &&& ids_are_below(run.events, run.poll.next_id)
    &&& run.poll.phase matches PollPhase::Parsing(delivery) ==> delivery.id < run.poll.next_id
        && !id_is_taken(run.events, delivery.id)
    &&& run.poll.next_id + run.poll.todo.len() <= u64::MAX
    &&& bodies_are_text(run.events)
    &&& deletes_are_out(run.poll)
    &&& queue_is_short(run.main)
    &&& has_tallied(run.main, run.settled, run.signalled)
    &&& ledger.deletes.to_multiset() == all_deletes(run)
}

proof fn lemma_runs_start_sound(
    cap: usize,
    max_messages: i32,
    dead_letter: Option<DeadLetter>,
)
    ensures
        is_sound(RunState::initial(cap, max_messages), dead_letter),
{
    broadcast use vstd::seq_lib::group_to_multiset_ensures;

    let none = Seq::<(u64, Seq<char>)>::empty();
    assert(none.to_multiset() =~= Multiset::empty());
    assert(none.to_multiset().add(none.to_multiset()).add(none.to_multiset())
        =~= none.to_multiset());
}

proof fn lemma_ledger_goes_on(
    events: Seq<DeliveryEvent>,
    done: Option<DeliveryEvent>,
    dead_letter: Option<DeadLetter>,
)
    ensures
        ledger_of(events_after(events, done), dead_letter) == ledger_after(
            ledger_of(events, dead_letter),
            done,
            dead_letter,
        ),
{
    if let Some(event) = done {
        assert(events.push(event).drop_last() =~= events);
    }
}

proof fn lemma_received_ids_are_taken(events: Seq<DeliveryEvent>, id: u64, handle: Seq<char>)
    requires
        was_received(events, id, handle),
    ensures
        id_is_taken(events, id),
{
    let k = choose|k: int|
        0 <= k < events.len() && (received(#[trigger] events[k]) matches Some((i, message)) && i
            == id && message.receipt_handle@ == handle);
    assert(received(events[k]) is Some);
}

proof fn lemma_deletes_add_up(
    noted: Seq<(u64, Seq<char>)>,
    added: Seq<(u64, Seq<char>)>,
    sent: Seq<(u64, Seq<char>)>,
    queue: Seq<(u64, Seq<char>)>,
    other: Multiset<(u64, Seq<char>)>,
    queue_after: Seq<(u64, Seq<char>)>,
    batches: Seq<Vec<DeleteEntry>>,
    out: Seq<(u64, Seq<char>)>,
)
    requires
        noted.to_multiset() == sent.to_multiset().add(queue.to_multiset()).add(other),
        is_queued_or_sent(queue, added, queue_after, batches),
        is_batching(batches, out),
    ensures
        (noted + added).to_multiset() == (sent + out).to_multiset().add(
            queue_after.to_multiset(),
        ).add(other),
{
    broadcast use vstd::seq_lib::group_to_multiset_ensures;

    let none = Seq::<(u64, Seq<char>)>::empty();
    assert(none.to_multiset() =~= Multiset::empty());
    vstd::seq_lib::lemma_multiset_commutative(noted, added);
    vstd::seq_lib::lemma_multiset_commutative(queue, added);
    vstd::seq_lib::lemma_multiset_commutative(sent, out);
    if is_batching(batches, none) && queue_after == queue + added {
        law_batches_tell_what_they_delete(batches, out, none);
    } else {
        law_batches_tell_what_they_delete(batches, out, queue + added);
    }
    assert((noted + added).to_multiset() =~= (sent + out).to_multiset().add(
        queue_after.to_multiset(),
    ).add(other));
}

/// Every step of the polling loop keeps the run sound, whatever the main loop is doing.
pub proof fn law_poll_steps_keep_the_run_sound(
    run: RunState,
    dead_letter: Option<DeadLetter>,
    step: PollStep,
)
    requires
        is_sound(run, dead_letter),
        is_run_step(run, RunStep::Poll(step), dead_letter),
    ensures
        is_sound(run.after(RunStep::Poll(step)), dead_letter),
{
    let PollStep { event, after, in_flight: in_flight_after, counters, counters_after, action, out } =
        step;
    let done = poll_delivery(run.poll, event, after, in_flight_after);
    let events = events_after(run.events, done);
    let ledger = ledger_of(run.events, dead_letter);
    let next = ledger_of(events, dead_letter);
    let added = next.deletes.skip(ledger.deletes.len() as int);
    lemma_ledger_goes_on(run.events, done, dead_letter);
    law_poll_steps_show_in_the_ledger(
        ledger,
        run.poll,
        run.in_flight,
        counters,
        dead_letter,
        event,
        after,
        in_flight_after,
        counters_after,
        action,
    );
    law_poll_loop_only_counts_up(
        run.poll,
        run.in_flight,
        counters,
        dead_letter,
        event,
        after,
        in_flight_after,
        counters_after,
        action,
    );
    law_poll_loop_flushes_before_it_stops(
        run.poll,
        run.in_flight,
        counters,
        dead_letter,
        event,
        after,
        in_flight_after,
        counters_after,
        action,
    );
    let other = run.main.deletes.to_multiset();
    lemma_deletes_add_up(
        ledger.deletes,
        added,
        run.sent,
        run.poll.poison,
        other,
        after.poison,
        sent_by_poll(action),
        out,
    );
    lemma_everything_was_received(run.events, dead_letter);
    if let MainPhase::Rejecting { id, message, forwarding } = run.main.phase {
        if forwarding {
            lemma_received_ids_are_taken(run.events, id, message.receipt_handle@);
        }
    }
    if let Some((id, message)) = (match done {
        Some(event) => received(event),
        None => None,
    }) {
        let delivery = run.poll.phase->Parsing_0;
        vstd::utf8::encode_utf8_valid_utf8(delivery.body@);
        assert(!id_is_taken(run.events, id));
    }
    assert forall|k: int| 0 <= k < run.events.len() implies events[k] == #[trigger]
        run.events[k] by {}
    assert(ids_are_fresh(events));
    assert(bodies_are_text(events));
    assert(ids_are_below(events, after.next_id));
    if let PollPhase::Parsing(delivery) = after.phase {
        if id_is_taken(events, delivery.id) {
            let k = choose|k: int|
                0 <= k < events.len() && (received(#[trigger] events[k]) matches Some((i, _)) && i
                    == delivery.id);
            assert(received(run.events[k]) is Some);
        }
    }
}

/// Every step of the main loop keeps the run sound, whatever the polling loop is doing.
pub proof fn law_main_steps_keep_the_run_sound(
    run: RunState,
    dead_letter: Option<DeadLetter>,
    step: MainStep,
)
    requires
        is_sound(run, dead_letter),
        is_run_step(run, RunStep::Main(step), dead_letter),
    ensures
        is_sound(run.after(RunStep::Main(step)), dead_letter),
{
    let MainStep { event, after, in_flight: in_flight_after, counters, counters_after, action, out } =
        step;
    law_main_loop_tallies_what_it_settles(
        run.main,
        run.in_flight,
        counters,
        dead_letter,
        event,
        after,
        in_flight_after,
        counters_after,
        action,
        run.settled,
        run.signalled,
    );
    let done = main_delivery(run.main, event);
    let events = events_after(run.events, done);
    let ledger = ledger_of(run.events, dead_letter);
    let next = ledger_of(events, dead_letter);
    let added = next.deletes.skip(ledger.deletes.len() as int);
    lemma_ledger_goes_on(run.events, done, dead_letter);
    law_main_steps_show_in_the_ledger(
        ledger,
        run.main,
        run.in_flight,
        counters,
        dead_letter,
        event,
        after,
        in_flight_after,
        counters_after,
        action,
    );
    law_deletes_go_out_one_batch_at_a_time(
        run.main,
        run.in_flight,
        counters,
        dead_letter,
        event,
        after,
        in_flight_after,
        counters_after,
        action,
    );
    let sent = run.sent.to_multiset();
    let poison = run.poll.poison.to_multiset();
    let queue = run.main.deletes.to_multiset();
    assert(sent.add(poison).add(queue) =~= sent.add(queue).add(poison));
    lemma_deletes_add_up(
        ledger.deletes,
        added,
        run.sent,
        run.main.deletes,
        poison,
        after.deletes,
        sent_by_main(action),
        out,
    );
    let sent_after = (run.sent + out).to_multiset();
    let queue_after = after.deletes.to_multiset();
    assert(sent_after.add(poison).add(queue_after) =~= sent_after.add(queue_after).add(poison));
    law_a_message_is_in_one_place(run.events, dead_letter);
    assert forall|k: int| 0 <= k < run.events.len() implies events[k] == #[trigger]
        run.events[k] by {}
    lemma_nothing_was_received(run, done);
}

/// A step that receives nothing leaves all that is said of ids and bodies as it was.
proof fn lemma_nothing_was_received(run: RunState, done: Option<DeliveryEvent>)
    requires
        done matches Some(event) ==> received(event) is None,
    ensures
        ids_are_fresh(run.events) ==> ids_are_fresh(events_after(run.events, done)),
        ids_are_below(run.events, run.poll.next_id) ==> ids_are_below(
            events_after(run.events, done),
            run.poll.next_id,
        ),
        bodies_are_text(run.events) ==> bodies_are_text(events_after(run.events, done)),
        forall|id: u64|
            id_is_taken(events_after(run.events, done), id) ==> #[trigger] id_is_taken(
                run.events,
                id,
            ),
{
    let events = events_after(run.events, done);
    assert forall|k: int| 0 <= k < run.events.len() implies events[k] == #[trigger]
        run.events[k] by {}
    assert forall|id: u64| id_is_taken(events, id) implies #[trigger] id_is_taken(
        run.events,
        id,
    ) by {
        let k = choose|k: int|
            0 <= k < events.len() && (received(#[trigger] events[k]) matches Some((i, _)) && i
                == id);
        assert(received(run.events[k]) is Some);
    }
}

/// A visibility extension that is granted between two steps keeps the run sound.
pub proof fn law_extensions_keep_the_run_sound(
    run: RunState,
    dead_letter: Option<DeadLetter>,
    id: u64,
)
    requires
        is_sound(run, dead_letter),
    ensures
        is_sound(run.after(RunStep::Extended { id }), dead_letter),
{
    let done = Some(DeliveryEvent::Extended { id });
    lemma_ledger_goes_on(run.events, done, dead_letter);
    lemma_nothing_was_received(run, done);
}

/// Every run is sound, however the steps of its loops interleave.
pub proof fn law_runs_are_sound(
    cap: usize,
    max_messages: i32,
    steps: Seq<RunStep>,
    dead_letter: Option<DeadLetter>,
)
    requires
        is_run(cap, max_messages, steps, dead_letter),
    ensures
        is_sound(run_of(cap, max_messages, steps), dead_letter),
    decreases steps.len(),
{
    if steps.len() == 0 {
        lemma_runs_start_sound(cap, max_messages, dead_letter);
    } else {
        let run = run_of(cap, max_messages, steps.drop_last());
        law_runs_are_sound(cap, max_messages, steps.drop_last(), dead_letter);
        match steps.last() {
            RunStep::Poll(step) => law_poll_steps_keep_the_run_sound(run, dead_letter, step),
            RunStep::Main(step) => law_main_steps_keep_the_run_sound(run, dead_letter, step),
            RunStep::Extended { id } => law_extensions_keep_the_run_sound(run, dead_letter, id),
        }
    }
}

/// Backpressure over a whole run: as long as no reply holds more messages than were asked for,
/// the messages in flight and those that the polling loop has in hand never exceed the cap
/// together, whatever the loops and the heartbeat have done.
pub proof fn law_runs_stay_within_the_cap(
    cap: usize,
    max_messages: i32,
    steps: Seq<RunStep>,
    dead_letter: Option<DeadLetter>,
)
    requires
        is_run(cap, max_messages, steps, dead_letter),
        replies_keep_to_requests(cap, max_messages, steps),
    ensures
        ({
            let run = run_of(cap, max_messages, steps);
            &&& run.poll.cap == cap
            &&& is_within_cap(run.poll, run.in_flight)
            &&& run.in_flight.len() + run.poll.in_hand() <= cap
        }),
    decreases steps.len(),
{
    if steps.len() > 0 {
        let run = run_of(cap, max_messages, steps.drop_last());
        law_runs_stay_within_the_cap(cap, max_messages, steps.drop_last(), dead_letter);
        law_runs_are_sound(cap, max_messages, steps.drop_last(), dead_letter);
        if let RunStep::Poll(s) = steps.last() {
            law_poll_loop_stays_within_the_cap(
                run.poll,
                run.in_flight,
                s.counters,
                dead_letter,
                s.event,
                s.after,
                s.in_flight,
                s.counters_after,
                s.action,
            );
            law_poll_loop_only_counts_up(
                run.poll,
                run.in_flight,
                s.counters,
                dead_letter,
                s.event,
                s.after,
                s.in_flight,
                s.counters_after,
                s.action,
            );
        }
    }
}

/// A run counts the records it added and keeps the reason of the first fatal error; it is
/// shutting down exactly if there was one or a signal came.
pub proof fn law_runs_count_adds_and_keep_the_first_reason(
    run: RunState,
    dead_letter: Option<DeadLetter>,
)
    requires
        is_sound(run, dead_letter),
        adds_among(run.settled) <= u64::MAX,
    ensures
        run.main.driver.processed == adds_among(run.settled),
        run.main.driver.shutting_down <==> run.signalled || run.main.driver.fatal is Some,
        match run.main.driver.fatal {
            Some(reason) => exists|i: int|
                #![trigger run.settled[i]]
                0 <= i < run.settled.len() && run.settled[i] == Settled::Fatal(reason) && forall|
                    j: int,
                |
                    0 <= j < i ==> #[trigger] run.settled[j] !is Fatal,
            None => forall|i: int|
                0 <= i < run.settled.len() ==> #[trigger] run.settled[i] !is Fatal,
        },
{
    law_driver_keeps_count_and_the_first_reason(run.settled);
}

/// What a run may delete, and how often. A delete that was put in a batch is of a message that
/// was received under that receipt handle, and it was allowed: the record was added, or the
/// message was sent to the dead-letter queue, or it was rejected and there is no such queue.
/// And no message is put in a batch twice, or in a batch and in a queue.
pub proof fn law_runs_delete_what_they_may_and_once(
    run: RunState,
    dead_letter: Option<DeadLetter>,
)
    requires
        is_sound(run, dead_letter),
    ensures
        forall|i: int|
            0 <= i < run.sent.len() ==> delete_was_allowed(
                run.events,
                (#[trigger] run.sent[i]).0,
                dead_letter,
            ) && was_received(run.events, run.sent[i].0, run.sent[i].1),
        forall|i: int, j: int|
            0 <= i < j < run.sent.len() ==> run.sent[i].0 != run.sent[j].0,
        forall|i: int, j: int|
            0 <= i < run.sent.len() && 0 <= j < run.poll.poison.len() ==> run.sent[i].0
                != run.poll.poison[j].0,
        forall|i: int, j: int|
            0 <= i < run.sent.len() && 0 <= j < run.main.deletes.len() ==> run.sent[i].0
                != run.main.deletes[j].0,
{
    broadcast use vstd::seq_lib::group_to_multiset_ensures;

    let noted = ledger_of(run.events, dead_letter).deletes;
    let all = all_deletes(run);
    law_a_message_is_in_one_place(run.events, dead_letter);
    assert(noted.no_duplicates());
    noted.lemma_multiset_has_no_duplicates();
    assert forall|d: (u64, Seq<char>)| #[trigger] all.count(d) <= 1 by {
        assert(noted.to_multiset().count(d) <= 1);
    }
    assert forall|d: (u64, Seq<char>)| #[trigger] all.count(d) > 0 implies noted.contains(d) by {
        assert(noted.to_multiset().count(d) > 0);
    }
    assert forall|i: int| 0 <= i < run.sent.len() implies noted.contains(
        #[trigger] run.sent[i],
    ) && delete_was_allowed(run.events, run.sent[i].0, dead_letter) && was_received(
        run.events,
        run.sent[i].0,
        run.sent[i].1,
    ) by {
        assert(run.sent.contains(run.sent[i]));
        assert(run.sent.to_multiset().count(run.sent[i]) > 0);
        assert(all.count(run.sent[i]) > 0);
        let k = choose|k: int| 0 <= k < noted.len() && noted[k] == run.sent[i];
        law_only_preserved_messages_are_deleted(run.events, dead_letter, k);
    }
    assert forall|d: (u64, Seq<char>), e: (u64, Seq<char>)|
        #![trigger noted.contains(d), noted.contains(e)]
        noted.contains(d) && noted.contains(e) && d.0 == e.0 implies d == e by {
        let k = choose|k: int| 0 <= k < noted.len() && noted[k] == d;
        let l = choose|l: int| 0 <= l < noted.len() && noted[l] == e;
        assert(noted[k].0 == noted[l].0);
    }
    assert(run.sent.no_duplicates()) by {
        assert forall|d: (u64, Seq<char>)| run.sent.to_multiset().contains(
            d,
        ) implies #[trigger] run.sent.to_multiset().count(d) == 1 by {
            assert(all.count(d) <= 1);
        }
        run.sent.lemma_multiset_has_no_duplicates_conv();
    }
    assert forall|i: int, j: int| 0 <= i < j < run.sent.len() implies run.sent[i].0
        != run.sent[j].0 by {
        assert(noted.contains(run.sent[i]) && noted.contains(run.sent[j]));
    }
    assert forall|i: int, j: int|
        0 <= i < run.sent.len() && 0 <= j < run.poll.poison.len() implies run.sent[i].0
        != run.poll.poison[j].0 by {
        let d = run.poll.poison[j];
        assert(run.poll.poison.contains(d));
        assert(run.poll.poison.to_multiset().count(d) > 0);
        assert(all.count(d) > 0);
        assert(noted.contains(run.sent[i]) && noted.contains(d));
        assert(run.sent.to_multiset().count(run.sent[i]) > 0);
        assert(all.count(run.sent[i]) <= 1);
    }
    assert forall|i: int, j: int|
        0 <= i < run.sent.len() && 0 <= j < run.main.deletes.len() implies run.sent[i].0
        != run.main.deletes[j].0 by {
        let d = run.main.deletes[j];
        assert(run.main.deletes.contains(d));
        assert(run.main.deletes.to_multiset().count(d) > 0);
        assert(all.count(d) > 0);
        assert(noted.contains(run.sent[i]) && noted.contains(d));
        assert(run.sent.to_multiset().count(run.sent[i]) > 0);
        assert(all.count(run.sent[i]) <= 1);
    }
}

/// With both queues empty, every delete that the ledger notes was put in a batch, and nothing
/// else was. So it is once both loops have ended.
pub proof fn law_runs_send_every_delete(run: RunState, dead_letter: Option<DeadLetter>)
    requires
        is_sound(run, dead_letter),
    ensures
        run.poll.phase is Stopped && run.main.phase is Over ==> run.poll.poison.len() == 0
            && run.main.deletes.len() == 0,
        run.poll.poison.len() == 0 && run.main.deletes.len() == 0 ==> run.sent.to_multiset()
            == ledger_of(run.events, dead_letter).deletes.to_multiset(),
{
    broadcast use vstd::seq_lib::group_to_multiset_ensures;

    if run.poll.poison.len() == 0 && run.main.deletes.len() == 0 {
        assert(run.poll.poison.to_multiset() =~= Multiset::empty());
        assert(run.main.deletes.to_multiset() =~= Multiset::empty());
        assert(all_deletes(run) =~= run.sent.to_multiset());
    }
}

/// A run loses no message: one that it received is in flight, on its way to the dead-letter
/// queue, put in a batch of deletes or queued for one, or was left for SQS to deliver again.
pub proof fn law_runs_lose_no_message(
    run: RunState,
    dead_letter: Option<DeadLetter>,
    at: int,
)
    requires
        is_sound(run, dead_letter),
        0 <= at < run.events.len(),
        received(run.events[at]) is Some,
    ensures
        ({
            let ledger = ledger_of(run.events, dead_letter);
            let id = received(run.events[at])->Some_0.0;
            ||| run.in_flight.contains_key(id)
            ||| ledger.forwarding.contains_key(id)
            ||| exists|handle: Seq<char>| #[trigger] all_deletes(run).count((id, handle)) > 0
            ||| exists|k: int|
                at < k < run.events.len() && leaves_for_redelivery(#[trigger] run.events[k], id)
        }),
{
    broadcast use vstd::seq_lib::group_to_multiset_ensures;

    law_no_message_gets_lost(run.events, dead_letter, at);
    let ledger = ledger_of(run.events, dead_letter);
    let id = received(run.events[at])->Some_0.0;
    if ledger.is_deleted(id) {
        let i = choose|i: int|
            0 <= i < ledger.deletes.len() && (#[trigger] ledger.deletes[i]).0 == id;
        let d = ledger.deletes[i];
        assert(ledger.deletes.contains(d));
        assert(ledger.deletes.to_multiset().count((id, d.1)) > 0);
    }
}

} // verus!
