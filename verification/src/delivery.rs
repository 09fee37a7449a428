//! What holds of the messages of a whole run, whatever happens in which order.
use vstd::prelude::*;

use crate::dead_letter::DeadLetter;
use crate::in_flight::{messages_after_extension, SqsInFlight};
use crate::record::Action;
use crate::settle::{
    deletes_after_forward, deletes_after_outcome, deletes_after_reject, is_forwarded,
};

verus! {

/// Something that happens to the messages of a run.
pub enum DeliveryEvent {
    /// A message was received and put in flight.
    Accepted { id: u64, message: SqsInFlight },
    /// A message was received that could not be parsed, and so is rejected at once.
    Unparseable { id: u64, message: SqsInFlight },
    /// A message could not be handed to the worker pool.
    Withdrawn { id: u64 },
    /// A visibility extension of a message was granted.
    Extended { id: u64 },
    /// A worker reported its outcome.
    Finished { id: u64, action: Action },
    /// A rejected message was sent to the dead-letter queue, or the send failed.
    Forwarded { id: u64, sent: bool },
}

/// Where the messages of a run are.
pub struct Ledger {
    pub in_flight: Map<u64, SqsInFlight>,
    /// Rejected, and on their way to the dead-letter queue.
    pub forwarding: Map<u64, SqsInFlight>,
    /// Deletes that were queued, in order.
    pub deletes: Seq<(u64, Seq<char>)>,
}

impl Ledger {
    pub open spec fn empty() -> Self {
        Ledger { in_flight: Map::empty(), forwarding: Map::empty(), deletes: Seq::empty() }
    }

    pub open spec fn after(self, event: DeliveryEvent, dead_letter: Option<DeadLetter>) -> Self {
        match event {
            DeliveryEvent::Accepted { id, message } => Ledger {
                in_flight: self.in_flight.insert(id, message),
                ..self
            },
            DeliveryEvent::Unparseable { id, message } => Ledger {
                forwarding: if is_forwarded(message, dead_letter) {
                    self.forwarding.insert(id, message)
                } else {
                    self.forwarding
                },
                deletes: deletes_after_reject(self.deletes, id, message, dead_letter),
                ..self
            },
            DeliveryEvent::Withdrawn { id } => Ledger {
                in_flight: self.in_flight.remove(id),
                ..self
            },
            DeliveryEvent::Extended { id } => Ledger {
                in_flight: messages_after_extension(self.in_flight, id, true),
                ..self
            },
            DeliveryEvent::Finished { id, action } => Ledger {
                in_flight: self.in_flight.remove(id),
                forwarding: if self.in_flight.contains_key(id) && action is RejectNoRequeue
                    && is_forwarded(self.in_flight[id], dead_letter) {
                    self.forwarding.insert(id, self.in_flight[id])
                } else {
                    self.forwarding
                },
                deletes: deletes_after_outcome(
                    self.in_flight,
                    self.deletes,
                    id,
                    action,
                    dead_letter,
                ),
            },
            DeliveryEvent::Forwarded { id, sent } => if self.forwarding.contains_key(id) {
                Ledger {
                    forwarding: self.forwarding.remove(id),
                    deletes: deletes_after_forward(self.deletes, id, self.forwarding[id], sent),
                    ..self
                }
            } else {
                self
            },
        }
    }

    /// A delete of the message `id` was queued.
    pub open spec fn is_deleted(self, id: u64) -> bool {
        exists|i: int| 0 <= i < self.deletes.len() && (#[trigger] self.deletes[i]).0 == id
    }
}

/// The ledger of a run in which `events` have happened.
pub open spec fn ledger_of(
    events: Seq<DeliveryEvent>,
    dead_letter: Option<DeadLetter>,
) -> Ledger
    decreases events.len(),
{
    if events.len() == 0 {
        Ledger::empty()
    } else {
        ledger_of(events.drop_last(), dead_letter).after(events.last(), dead_letter)
    }
}

/// The message that `event` received, and the id that it was given.
pub open spec fn received(event: DeliveryEvent) -> Option<(u64, SqsInFlight)> {
    match event {
        DeliveryEvent::Accepted { id, message } => Some((id, message)),
        DeliveryEvent::Unparseable { id, message } => Some((id, message)),
        _ => None,
    }
}

/// The message `id` with this receipt handle was received in the course of `events`.
pub open spec fn was_received(
    events: Seq<DeliveryEvent>,
    id: u64,
    receipt_handle: Seq<char>,
) -> bool {
    exists|k: int|
        0 <= k < events.len() && (received(#[trigger] events[k]) matches Some((i, message)) && i
            == id && message.receipt_handle@ == receipt_handle)
}

/// `event` is what allows the message `id` to be deleted: its record was added, or it was
/// preserved in the dead-letter queue, or it was rejected and the loss was accepted.
pub open spec fn allows_delete(
    event: DeliveryEvent,
    id: u64,
    dead_letter: Option<DeadLetter>,
) -> bool {
    match event {
        DeliveryEvent::Finished { id: i, action: Action::Ack(_) } => i == id,
        DeliveryEvent::Finished { id: i, action: Action::RejectNoRequeue } => i == id
            && dead_letter is None,
        DeliveryEvent::Unparseable { id: i, .. } => i == id && dead_letter is None,
        DeliveryEvent::Forwarded { id: i, sent } => i == id && sent,
        _ => false,
    }
}

pub open spec fn delete_was_allowed(
    events: Seq<DeliveryEvent>,
    id: u64,
    dead_letter: Option<DeadLetter>,
) -> bool {
    exists|k: int| 0 <= k < events.len() && allows_delete(#[trigger] events[k], id, dead_letter)
}

proof fn lemma_received_persists(
    events: Seq<DeliveryEvent>,
    id: u64,
    receipt_handle: Seq<char>,
)
    requires
        events.len() > 0,
        was_received(events.drop_last(), id, receipt_handle),
    ensures
        was_received(events, id, receipt_handle),
{
    let earlier = events.drop_last();
    let k = choose|k: int|
        0 <= k < earlier.len() && (received(#[trigger] earlier[k]) matches Some((i, message)) && i
            == id && message.receipt_handle@ == receipt_handle);
    assert(events[k] == earlier[k]);
}

pub(crate) proof fn lemma_everything_was_received(
    events: Seq<DeliveryEvent>,
    dead_letter: Option<DeadLetter>,
)
    ensures
        ({
            let ledger = ledger_of(events, dead_letter);
            &&& forall|id: u64| #[trigger]
                ledger.in_flight.contains_key(id) ==> was_received(
                    events,
                    id,
                    ledger.in_flight[id].receipt_handle@,
                )
            &&& forall|id: u64| #[trigger]
                ledger.forwarding.contains_key(id) ==> was_received(
                    events,
                    id,
                    ledger.forwarding[id].receipt_handle@,
                )
            &&& forall|i: int|
                0 <= i < ledger.deletes.len() ==> was_received(
                    events,
                    (#[trigger] ledger.deletes[i]).0,
                    ledger.deletes[i].1,
                )
        }),
    decreases events.len(),
{
    if events.len() > 0 {
        let earlier = events.drop_last();
        let event = events.last();
        lemma_everything_was_received(earlier, dead_letter);
        let before = ledger_of(earlier, dead_letter);
        let ledger = ledger_of(events, dead_letter);
        assert(ledger == before.after(event, dead_letter));
        assert forall|id: u64, handle: Seq<char>| #[trigger]
            was_received(earlier, id, handle) implies was_received(events, id, handle) by {
            lemma_received_persists(events, id, handle);
        }
        assert forall|id: u64| #[trigger] ledger.in_flight.contains_key(id) implies was_received(
            events,
            id,
            ledger.in_flight[id].receipt_handle@,
        ) by {
            if before.in_flight.contains_key(id) {
                assert(was_received(earlier, id, before.in_flight[id].receipt_handle@));
            }
            assert(events[events.len() - 1] == event);
        }
        assert forall|i: int| 0 <= i < ledger.deletes.len() implies was_received(
            events,
            (#[trigger] ledger.deletes[i]).0,
            ledger.deletes[i].1,
        ) by {
            if i < before.deletes.len() {
                assert(was_received(earlier, before.deletes[i].0, before.deletes[i].1));
            }
        }
    }
}

/// Never delete what was not preserved, unless the loss was accepted. Whatever the order of events, the delete of a
/// message is queued only if its record was added, or it was sent to the dead-letter
/// queue, or there is no dead-letter queue and it was rejected; and it is queued under
/// the receipt handle that the message came with. In particular a fatal engine error and
/// a failed send leave the message for redelivery.
pub proof fn law_only_preserved_messages_are_deleted(
    events: Seq<DeliveryEvent>,
    dead_letter: Option<DeadLetter>,
    i: int,
)
    requires
        0 <= i < ledger_of(events, dead_letter).deletes.len(),
    ensures
        delete_was_allowed(events, ledger_of(events, dead_letter).deletes[i].0, dead_letter),
        was_received(
            events,
            ledger_of(events, dead_letter).deletes[i].0,
            ledger_of(events, dead_letter).deletes[i].1,
        ),
    decreases events.len(),
{
    lemma_everything_was_received(events, dead_letter);
    let earlier = events.drop_last();
    let before = ledger_of(earlier, dead_letter);
    let ledger = ledger_of(events, dead_letter);
    assert(ledger == before.after(events.last(), dead_letter));
    let id = ledger.deletes[i].0;
    if i < before.deletes.len() {
        law_only_preserved_messages_are_deleted(earlier, dead_letter, i);
        let k = choose|k: int|
            0 <= k < earlier.len() && allows_delete(#[trigger] earlier[k], id, dead_letter);
        assert(events[k] == earlier[k]);
    } else {
        assert(allows_delete(events[events.len() - 1], id, dead_letter));
    }
}

/// An added record's message is deleted, and so is a rejected one once it has been sent to
/// the dead-letter queue: each under the receipt handle that it was received with.
pub proof fn law_preserved_messages_are_deleted(
    ledger: Ledger,
    dead_letter: Option<DeadLetter>,
    id: u64,
    response: Option<String>,
)
    ensures
        ledger.in_flight.contains_key(id) ==> ledger.after(
            DeliveryEvent::Finished { id, action: Action::Ack(response) },
            dead_letter,
        ).deletes == ledger.deletes.push((id, ledger.in_flight[id].receipt_handle@)),
        ledger.forwarding.contains_key(id) ==> ledger.after(
            DeliveryEvent::Forwarded { id, sent: true },
            dead_letter,
        ).deletes == ledger.deletes.push((id, ledger.forwarding[id].receipt_handle@)),
{
}

/// No two messages of `events` were received under the same id.
pub open spec fn ids_are_fresh(events: Seq<DeliveryEvent>) -> bool {
    forall|i: int, j: int|
        0 <= i < j < events.len() && received(#[trigger] events[i]) is Some && received(
            #[trigger] events[j],
        ) is Some ==> received(events[i])->Some_0.0 != received(events[j])->Some_0.0
}

/// A message is in one place at a time: in flight, on its way to the dead-letter queue, or
/// queued for deletion; and its delete is queued at most once.
pub proof fn law_a_message_is_in_one_place(
    events: Seq<DeliveryEvent>,
    dead_letter: Option<DeadLetter>,
)
    requires
        ids_are_fresh(events),
    ensures
        ({
            let ledger = ledger_of(events, dead_letter);
            &&& forall|id: u64| #[trigger]
                ledger.in_flight.contains_key(id) ==> !ledger.forwarding.contains_key(id)
                    && !ledger.is_deleted(id)
            &&& forall|id: u64| #[trigger]
                ledger.forwarding.contains_key(id) ==> !ledger.is_deleted(id)
            &&& forall|i: int, j: int|
                0 <= i < j < ledger.deletes.len() ==> ledger.deletes[i].0 != ledger.deletes[j].0
        }),
    decreases events.len(),
{
    if events.len() > 0 {
        let earlier = events.drop_last();
        let event = events.last();
        let before = ledger_of(earlier, dead_letter);
        let ledger = ledger_of(events, dead_letter);
        assert(ledger == before.after(event, dead_letter));
        assert(ids_are_fresh(earlier)) by {
            assert forall|i: int, j: int|
                0 <= i < j < earlier.len() && received(#[trigger] earlier[i]) is Some && received(
                    #[trigger] earlier[j],
                ) is Some implies received(earlier[i])->Some_0.0 != received(
                earlier[j],
            )->Some_0.0 by {
                assert(events[i] == earlier[i] && events[j] == earlier[j]);
            }
        }
        law_a_message_is_in_one_place(earlier, dead_letter);
        lemma_everything_was_received(earlier, dead_letter);
        if let Some((id, message)) = received(event) {
            assert forall|handle: Seq<char>| !was_received(earlier, id, handle) by {
                if was_received(earlier, id, handle) {
                    let k = choose|k: int|
                        0 <= k < earlier.len() && (received(#[trigger] earlier[k]) matches Some(
                            (i, message),
                        ) && i == id && message.receipt_handle@ == handle);
                    assert(received(events[k]) is Some && received(events[events.len() - 1])
                        is Some);
                }
            }
            assert(!before.is_deleted(id)) by {
                if before.is_deleted(id) {
                    let i = choose|i: int|
                        0 <= i < before.deletes.len() && (#[trigger] before.deletes[i]).0 == id;
                    assert(was_received(earlier, id, before.deletes[i].1));
                }
            }
        }
        assert forall|id: u64| ledger.is_deleted(id) && !before.is_deleted(id) implies (
        ledger.deletes.len() == before.deletes.len() + 1 && ledger.deletes.last().0 == id) by {
            let i = choose|i: int|
                0 <= i < ledger.deletes.len() && (#[trigger] ledger.deletes[i]).0 == id;
            if i < before.deletes.len() {
                assert(before.deletes[i].0 == id);
            }
        }
        if ledger.deletes.len() > before.deletes.len() {
            let id = ledger.deletes.last().0;
            assert(!before.is_deleted(id));
            assert forall|i: int| 0 <= i < before.deletes.len() implies before.deletes[i].0
                != id by {}
        }
    }
}

/// Every message of `events` was received as text.
pub open spec fn bodies_are_text(events: Seq<DeliveryEvent>) -> bool {
    forall|k: int|
        0 <= k < events.len() ==> (received(#[trigger] events[k]) matches Some((_, message))
            ==> vstd::utf8::valid_utf8(message.body@))
}

/// `event` leaves the message `id` to be delivered again: it could not be handed over, the
/// engine failed on it, or the dead-letter queue did not take it.
pub open spec fn leaves_for_redelivery(event: DeliveryEvent, id: u64) -> bool {
    match event {
        DeliveryEvent::Withdrawn { id: i } => i == id,
        DeliveryEvent::Finished { id: i, action: Action::Fatal(_) } => i == id,
        DeliveryEvent::Forwarded { id: i, sent } => i == id && !sent,
        _ => false,
    }
}

/// No message gets lost: one that was received is in flight, on its way to the dead-letter
/// queue, queued for deletion, or was left for SQS to deliver again.
pub proof fn law_no_message_gets_lost(
    events: Seq<DeliveryEvent>,
    dead_letter: Option<DeadLetter>,
    at: int,
)
    requires
        bodies_are_text(events),
        0 <= at < events.len(),
        received(events[at]) is Some,
    ensures
        ({
            let ledger = ledger_of(events, dead_letter);
            let id = received(events[at])->Some_0.0;
            ||| ledger.in_flight.contains_key(id)
            ||| ledger.forwarding.contains_key(id)
            ||| ledger.is_deleted(id)
            ||| exists|k: int|
                at < k < events.len() && leaves_for_redelivery(#[trigger] events[k], id)
        }),
    decreases events.len(),
{
    let earlier = events.drop_last();
    let event = events.last();
    let before = ledger_of(earlier, dead_letter);
    let ledger = ledger_of(events, dead_letter);
    let id = received(events[at])->Some_0.0;
    assert(ledger == before.after(event, dead_letter));
    if at < earlier.len() {
        assert(bodies_are_text(earlier)) by {
            assert forall|k: int| 0 <= k < earlier.len() implies (received(
                #[trigger] earlier[k],
            ) matches Some((_, message)) ==> vstd::utf8::valid_utf8(message.body@)) by {
                assert(events[k] == earlier[k]);
            }
        }
        assert(earlier[at] == events[at]);
        law_no_message_gets_lost(earlier, dead_letter, at);
        lemma_bodies_in_flight_are_text(earlier, dead_letter);
        if exists|k: int|
            at < k < earlier.len() && leaves_for_redelivery(#[trigger] earlier[k], id) {
            let k = choose|k: int|
                at < k < earlier.len() && leaves_for_redelivery(#[trigger] earlier[k], id);
            assert(leaves_for_redelivery(events[k], id));
        } else if before.is_deleted(id) {
            let i = choose|i: int|
                0 <= i < before.deletes.len() && (#[trigger] before.deletes[i]).0 == id;
            assert(ledger.deletes[i].0 == id);
        } else if !leaves_for_redelivery(event, id) && ledger.deletes.len()
            > before.deletes.len() {
            assert(ledger.deletes[ledger.deletes.len() - 1].0 == ledger.deletes.last().0);
        } else {
            assert(events[events.len() - 1] == event);
        }
    } else if ledger.deletes.len() > before.deletes.len() {
        assert(ledger.deletes[ledger.deletes.len() - 1].0 == id);
    }
}

proof fn lemma_bodies_in_flight_are_text(
    events: Seq<DeliveryEvent>,
    dead_letter: Option<DeadLetter>,
)
    requires
        bodies_are_text(events),
    ensures
        forall|id: u64| #[trigger]
            ledger_of(events, dead_letter).in_flight.contains_key(id) ==> vstd::utf8::valid_utf8(
                ledger_of(events, dead_letter).in_flight[id].body@,
            ),
    decreases events.len(),
{
    if events.len() > 0 {
        let earlier = events.drop_last();
        assert(bodies_are_text(earlier)) by {
            assert forall|k: int| 0 <= k < earlier.len() implies (received(
                #[trigger] earlier[k],
            ) matches Some((_, message)) ==> vstd::utf8::valid_utf8(message.body@)) by {
                assert(events[k] == earlier[k]);
            }
        }
        lemma_bodies_in_flight_are_text(earlier, dead_letter);
        let before = ledger_of(earlier, dead_letter);
        let ledger = ledger_of(events, dead_letter);
        assert(ledger == before.after(events.last(), dead_letter));
        assert(events[events.len() - 1] == events.last());
        assert forall|id: u64| #[trigger] ledger.in_flight.contains_key(
            id,
        ) implies vstd::utf8::valid_utf8(ledger.in_flight[id].body@) by {
            if before.in_flight.contains_key(id) {
                assert(vstd::utf8::valid_utf8(before.in_flight[id].body@));
            }
        }
    }
}

} // verus!
