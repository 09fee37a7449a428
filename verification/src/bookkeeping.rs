//! The steps of the polling loop and of the main loop, each as it shows in the ledger of the run.
use vstd::prelude::*;

use crate::dead_letter::DeadLetter;
use crate::deletes::{is_batching, DeleteEntry};
use crate::delivery::{DeliveryEvent, Ledger};
use crate::in_flight::SqsInFlight;
use crate::main_loop::{is_main_step, MainAction, MainEvent, MainPhase, MainState};
use crate::poll_loop::{
    advancing, is_poll_step, lemma_advance_counts_up, PollAction, PollEvent, PollPhase, PollState,
};
use crate::record::LoadCounters;

verus! {

/// What a step of the polling loop did to the messages of the run.
pub open spec fn poll_delivery(
    before: PollState,
    event: PollEvent,
    after: PollState,
    in_flight_after: Map<u64, SqsInFlight>,
) -> Option<DeliveryEvent> {
    match (before.phase, event) {
        (PollPhase::Parsing(delivery), PollEvent::Parsed { info, .. }) => match info {
            Some(_) => Some(
                DeliveryEvent::Accepted { id: delivery.id, message: in_flight_after[delivery.id] },
            ),
            None => Some(
                DeliveryEvent::Unparseable {
                    id: delivery.id,
                    message: after.phase->Rejecting_message,
                },
            ),
        },
        (PollPhase::Sending { id }, PollEvent::Sent { accepted }) => if accepted {
            None
        } else {
            Some(DeliveryEvent::Withdrawn { id })
        },
        (PollPhase::Sending { id }, PollEvent::SendBroken) => Some(DeliveryEvent::Withdrawn { id }),
        (PollPhase::Rejecting { id, forwarding, .. }, PollEvent::Rejected { sent }) => if forwarding {
            Some(DeliveryEvent::Forwarded { id, sent })
        } else {
            None
        },
        _ => None,
    }
}

/// What a step of the main loop did to the messages of the run.
pub open spec fn main_delivery(before: MainState, event: MainEvent) -> Option<DeliveryEvent> {
    match (before.phase, event) {
        (MainPhase::Running, MainEvent::Finished(outcome)) => Some(
            DeliveryEvent::Finished { id: outcome.delivery_tag, action: outcome.action },
        ),
        (MainPhase::Rejecting { id, forwarding, .. }, MainEvent::Rejected { sent }) => if forwarding {
            Some(DeliveryEvent::Forwarded { id, sent })
        } else {
            None
        },
        _ => None,
    }
}

/// The ledger after a step that did `done`.
pub open spec fn ledger_after(
    ledger: Ledger,
    done: Option<DeliveryEvent>,
    dead_letter: Option<DeadLetter>,
) -> Ledger {
    match done {
        Some(event) => ledger.after(event, dead_letter),
        None => ledger,
    }
}

/// The message that the polling loop is forwarding is on its way by the ledger.
pub open spec fn knows_forward_of_poll(ledger: Ledger, state: PollState) -> bool {
    state.phase matches PollPhase::Rejecting { id, message, forwarding } ==> forwarding
        ==> ledger.forwarding.contains_key(id) && ledger.forwarding[id] == message
}

/// The message that the main loop is forwarding is on its way by the ledger.
pub open spec fn knows_forward_of_main(ledger: Ledger, state: MainState) -> bool {
    state.phase matches MainPhase::Rejecting { id, message, forwarding } ==> forwarding
        ==> ledger.forwarding.contains_key(id) && ledger.forwarding[id] == message
}

/// The deletes that an action of the polling loop sends.
pub open spec fn sent_by_poll(action: PollAction) -> Seq<Vec<DeleteEntry>> {
    match action {
        PollAction::Flush(batches) => batches@,
        _ => Seq::empty(),
    }
}

/// The deletes that an action of the main loop sends.
pub open spec fn sent_by_main(action: MainAction) -> Seq<Vec<DeleteEntry>> {
    match action {
        MainAction::Settled(report) => report.batches@,
        MainAction::Flush(batches) => batches@,
        MainAction::Finish { batches, .. } => batches@,
        _ => Seq::empty(),
    }
}

/// Of the deletes that were queued before a step and those that it added, either all are
/// still queued, or the queue is empty and all go out in `batches`.
pub open spec fn is_queued_or_sent(
    before: Seq<(u64, Seq<char>)>,
    added: Seq<(u64, Seq<char>)>,
    after: Seq<(u64, Seq<char>)>,
    batches: Seq<Vec<DeleteEntry>>,
) -> bool {
    ||| after == before + added && is_batching(batches, Seq::empty())
    ||| after == Seq::<(u64, Seq<char>)>::empty() && is_batching(batches, before + added)
}

/// Every step of the polling loop is one in the ledger: the messages in flight are those of
/// the ledger; and whatever delete the ledger notes is queued by the loop, once, and sent
/// when the queue is.
pub proof fn law_poll_steps_show_in_the_ledger(
    ledger: Ledger,
    before: PollState,
    in_flight: Map<u64, SqsInFlight>,
    counters: LoadCounters,
    dead_letter: Option<DeadLetter>,
    event: PollEvent,
    after: PollState,
    in_flight_after: Map<u64, SqsInFlight>,
    counters_after: LoadCounters,
    action: PollAction,
)
    requires
        before.has_ids_for(event),
        is_poll_step(
            before,
            in_flight,
            counters,
            dead_letter,
            event,
            after,
            in_flight_after,
            counters_after,
            action,
        ),
        ledger.in_flight == in_flight,
        knows_forward_of_poll(ledger, before),
    ensures
        ({
            let next = ledger_after(
                ledger,
                poll_delivery(before, event, after, in_flight_after),
                dead_letter,
            );
            let added = next.deletes.skip(ledger.deletes.len() as int);
            &&& next.in_flight == in_flight_after
            &&& knows_forward_of_poll(next, after)
            &&& next.deletes == ledger.deletes + added
            &&& is_queued_or_sent(before.poison, added, after.poison, sent_by_poll(action))
        }),
{
    let next = ledger_after(
        ledger,
        poll_delivery(before, event, after, in_flight_after),
        dead_letter,
    );
    let added = next.deletes.skip(ledger.deletes.len() as int);
    assert(next.deletes =~= ledger.deletes + added);
    lemma_advance_counts_up(advancing(before, event));
    let noted = if after.phase is Rejecting {
        after.poison
    } else {
        advancing(before, event).poison
    };
    assert(noted =~= before.poison + added);
}

/// Every step of the main loop is one in the ledger, as it is for the polling loop.
pub proof fn law_main_steps_show_in_the_ledger(
    ledger: Ledger,
    before: MainState,
    in_flight: Map<u64, SqsInFlight>,
    counters: LoadCounters,
    dead_letter: Option<DeadLetter>,
    event: MainEvent,
    after: MainState,
    in_flight_after: Map<u64, SqsInFlight>,
    counters_after: LoadCounters,
    action: MainAction,
)
    requires
        is_main_step(
            before,
            in_flight,
            counters,
            dead_letter,
            event,
            after,
            in_flight_after,
            counters_after,
            action,
        ),
        ledger.in_flight == in_flight,
        knows_forward_of_main(ledger, before),
    ensures
        ({
            let next = ledger_after(ledger, main_delivery(before, event), dead_letter);
            let added = next.deletes.skip(ledger.deletes.len() as int);
            &&& next.in_flight == in_flight_after
            &&& knows_forward_of_main(next, after)
            &&& next.deletes == ledger.deletes + added
            &&& is_queued_or_sent(before.deletes, added, after.deletes, sent_by_main(action))
        }),
{
    let next = ledger_after(ledger, main_delivery(before, event), dead_letter);
    let added = next.deletes.skip(ledger.deletes.len() as int);
    assert(next.deletes =~= ledger.deletes + added);
    let noted = match (before.phase, event) {
        (MainPhase::Running, MainEvent::Finished(outcome)) => {
            crate::settle::deletes_after_outcome(
                in_flight,
                before.deletes,
                outcome.delivery_tag,
                outcome.action,
                dead_letter,
            )
        },
        (MainPhase::Rejecting { id, message, forwarding }, MainEvent::Rejected { sent }) => {
            crate::settle::deletes_after_forward(before.deletes, id, message, forwarding && sent)
        },
        _ => before.deletes,
    };
    assert(noted =~= before.deletes + added);
}

} // verus!
