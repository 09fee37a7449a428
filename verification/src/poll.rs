//! Receiving messages: how many to ask for, and what to do with each.
use vstd::prelude::*;
use vstd::string::*;

use crate::dead_letter::DeadLetter;
use crate::deletes::DeleteBatcher;
use crate::in_flight::{InFlight, SqsInFlight};
use crate::record::{LoadCounters, LoadItem, RecordInfo};
use crate::settle::{
    dead_letter_and_delete, deletes_after_reject, is_reject_step, target, RejectStep,
};

verus! {

/// How many messages to ask for: as many as there is room for and a request may hold, at
/// least one. The count is sent as a signed 32-bit number.
pub open spec fn receive_count(outstanding: usize, cap: usize, max_messages: i32) -> i32 {
    let free = (cap - outstanding) as usize;
    let limit = max_messages as usize;
    let count = if free < limit {
        free
    } else {
        limit
    };
    if count < 1 {
        1
    } else {
        count as i32
    }
}

/// Decides on the next `ReceiveMessage`: `None` to wait, because `cap` messages are
/// outstanding and their visibility timers must not run down in a queue; else how many
/// messages to ask for.
pub fn receive_room(outstanding: usize, cap: usize, max_messages: i32) -> (room: Option<i32>)
    ensures
        room is None <==> outstanding >= cap,
        room matches Some(count) ==> count == receive_count(outstanding, cap, max_messages),
        room matches Some(count) ==> max_messages >= 1 ==> count <= max_messages && count <= cap
            - outstanding && (count == max_messages || count == cap - outstanding),
        room matches Some(count) ==> max_messages == 0 ==> count == 1,
        room matches Some(count) ==> max_messages < 0 && cap - outstanding <= i32::MAX ==> count
            == cap - outstanding,
{
    proof {
        lemma_negative_limit_is_none(max_messages);
    }
    if outstanding >= cap {
        return None;
    }
    let free: usize = cap - outstanding;
    let limit: usize = max_messages as usize;
    let count: usize = if free < limit {
        free
    } else {
        limit
    };
    if count < 1 {
        Some(1)
    } else {
        Some(count as i32)
    }
}

/// Backpressure: a request never asks for more than there is room for, nor for more than
/// `max_messages` allows, so a reply that keeps to it leaves at most `cap` messages
/// outstanding. It asks for at least one, unless `max_messages` is negative and the room does
/// not fit the count of a request.
pub proof fn law_receive_stays_within_the_cap(outstanding: usize, cap: usize, max_messages: i32)
    requires
        outstanding < cap,
    ensures
        outstanding + receive_count(outstanding, cap, max_messages) <= cap,
        max_messages >= 0 || cap - outstanding <= i32::MAX ==> 1 <= receive_count(outstanding, cap, max_messages),
        max_messages >= 1 ==> receive_count(outstanding, cap, max_messages) <= max_messages,
{
}

/// A message as SQS delivers it.
#[derive(Debug, PartialEq, Eq)]
pub struct ReceivedMessage {
    pub body: Option<String>,
    pub receipt_handle: Option<String>,
    pub message_group_id: Option<String>,
    pub message_id: Option<String>,
}

impl ReceivedMessage {
    /// The message has what it takes to be worked on and settled.
    pub open spec fn is_workable(self) -> bool {
        self.body is Some && self.receipt_handle is Some
    }
}

/// The id that the message after `message` gets.
pub open spec fn id_after(next: int, message: ReceivedMessage) -> int {
    if message.is_workable() {
        next + 1
    } else {
        next
    }
}

/// The ids that a run of messages get, in order.
pub open spec fn assigned_ids(next: int, messages: Seq<ReceivedMessage>) -> Seq<int>
    decreases messages.len(),
{
    if messages.len() == 0 {
        Seq::empty()
    } else {
        let rest = assigned_ids(id_after(next, messages[0]), messages.drop_first());
        if messages[0].is_workable() {
            seq![next] + rest
        } else {
            rest
        }
    }
}

/// Ids grow from message to message, so no two messages share one.
pub proof fn law_ids_are_increasing(next: int, messages: Seq<ReceivedMessage>)
    ensures
        forall|i: int| 0 <= i < assigned_ids(next, messages).len() ==> next <= #[trigger]
            assigned_ids(next, messages)[i],
        forall|i: int, j: int|
            0 <= i < j < assigned_ids(next, messages).len() ==> assigned_ids(next, messages)[i]
                < assigned_ids(next, messages)[j],
    decreases messages.len(),
{
    if messages.len() > 0 {
        law_ids_are_increasing(id_after(next, messages[0]), messages.drop_first());
        let rest = assigned_ids(id_after(next, messages[0]), messages.drop_first());
        let ids = assigned_ids(next, messages);
        if messages[0].is_workable() {
            assert forall|i: int| 1 <= i < ids.len() implies ids[i] == #[trigger] rest[i - 1] by {}
            assert forall|i: int| 1 <= i < ids.len() implies next < #[trigger] ids[i] by {
                assert(ids[i] == rest[i - 1]);
            }
            assert forall|i: int, j: int| 0 <= i < j < ids.len() implies ids[i] < ids[j] by {
                if i > 0 {
                    assert(ids[i] == rest[i - 1] && ids[j] == rest[j - 1]);
                }
            }
        }
    }
}

/// A message that can be worked on, under the id that it was given.
#[derive(Debug, PartialEq, Eq)]
pub struct Delivery {
    pub id: u64,
    pub body: String,
    pub receipt_handle: String,
    pub message_group_id: Option<String>,
    pub message_id: Option<String>,
}

impl Delivery {
    pub open spec fn delivers(self, message: ReceivedMessage) -> bool {
        &&& message.body == Some(self.body)
        &&& message.receipt_handle == Some(self.receipt_handle)
        &&& message.message_group_id == self.message_group_id
        &&& message.message_id == self.message_id
    }

    /// `entry` is what is kept about this delivery while it is in progress.
    pub open spec fn is_kept_as(self, info: RecordInfo, now: u64, entry: SqsInFlight) -> bool {
        &&& entry.receipt_handle == self.receipt_handle
        &&& entry.body@ == vstd::utf8::encode_utf8(self.body@)
        &&& entry.info == info
        &&& entry.started == now
        &&& entry.extended == 0
        &&& entry.message_group_id == self.message_group_id
        &&& entry.message_id == self.message_id
    }

    fn into_entry(self, info: RecordInfo, now: u64) -> (entry: SqsInFlight)
        ensures
            self.is_kept_as(info, now, entry),
    {
        let body = self.body.as_str().as_bytes_vec();
        SqsInFlight {
            receipt_handle: self.receipt_handle,
            body,
            info,
            started: now,
            extended: 0,
            message_group_id: self.message_group_id,
            message_id: self.message_id,
        }
    }
}

/// Gives every message that can be worked on an id of its own: 1, 2, 3 and so on.
#[derive(Debug)]
pub struct Poller {
    next_id: u64,
}

/// The view of a poller is the id that the next message gets.
impl View for Poller {
    type V = u64;

    closed spec fn view(&self) -> u64 {
        self.next_id
    }
}

impl Poller {
    pub fn new() -> (poller: Self)
        ensures
            poller@ == 1,
    {
        Poller { next_id: 1 }
    }

    /// Takes a message in. One without a body or without a receipt handle is passed over
    /// and uses up no id.
    pub fn identify(&mut self, message: ReceivedMessage) -> (delivery: Option<Delivery>)
        requires
            message.is_workable() ==> old(self)@ < u64::MAX,
        ensures
            delivery is Some <==> message.is_workable(),
            delivery matches Some(d) ==> d.delivers(message) && d.id == old(self)@,
            final(self)@ == id_after(old(self)@ as int, message),
            delivery is Some <==> message.body is Some && message.receipt_handle is Some,
            delivery matches Some(d) ==> message.body == Some(d.body) && message.receipt_handle
                == Some(d.receipt_handle) && d.message_group_id == message.message_group_id
                && d.message_id == message.message_id && final(self)@ == old(self)@ + 1,
            delivery is None ==> final(self)@ == old(self)@,
    {
        match (message.body, message.receipt_handle) {
            (Some(body), Some(receipt_handle)) => {
                let id: u64 = self.next_id;
                self.next_id = self.next_id + 1;
                Some(
                    Delivery {
                        id,
                        body,
                        receipt_handle,
                        message_group_id: message.message_group_id,
                        message_id: message.message_id,
                    },
                )
            },
            _ => None,
        }
    }
}

/// Puts a parsed message in flight and makes the item for the worker pool. It is in flight
/// before it is handed over, so that its outcome finds it.
pub fn accept(
    delivery: Delivery,
    info: RecordInfo,
    now: u64,
    in_flight: &mut InFlight,
) -> (item: LoadItem)
    ensures
        item.delivery_tag == delivery.id,
        item.body@ == vstd::utf8::encode_utf8(delivery.body@),
        item.info == info,
        final(in_flight)@.contains_key(delivery.id),
        delivery.is_kept_as(info, now, final(in_flight)@[delivery.id]),
        final(in_flight)@ == old(in_flight)@.insert(delivery.id, final(in_flight)@[delivery.id]),
{
    let id: u64 = delivery.id;
    let body = delivery.body.as_str().as_bytes_vec();
    let entry = delivery.into_entry(info.clone(), now);
    in_flight.insert(id, entry);
    LoadItem { delivery_tag: id, body, info }
}

/// Takes a message back out of flight that could not be handed over because the worker
/// pool is gone. It is not deleted, so SQS delivers it again.
pub fn withdraw(id: u64, in_flight: &mut InFlight)
    ensures
        final(in_flight)@ == old(in_flight)@.remove(id),
{
    let _ = in_flight.remove(id);
}

/// Rejects a message that cannot even be parsed, under an empty identity. What was received
/// as text can always be forwarded.
pub fn reject_unparseable(
    delivery: Delivery,
    now: u64,
    dead_letter: Option<&DeadLetter>,
    counters: &mut LoadCounters,
    deletes: &mut DeleteBatcher,
) -> (rejected: (SqsInFlight, RejectStep))
    ensures
        *final(counters) == old(counters).with_reject(),
        rejected.0.info.data_source@ == Seq::<char>::empty(),
        rejected.0.info.record_id@ == Seq::<char>::empty(),
        delivery.is_kept_as(rejected.0.info, now, rejected.0),
        final(deletes)@ == deletes_after_reject(
            old(deletes)@,
            delivery.id,
            rejected.0,
            target(dead_letter),
        ),
        is_reject_step(rejected.0, target(dead_letter), rejected.1),
        rejected.1 !is Unforwardable,
{
    counters.count_reject();
    let id: u64 = delivery.id;
    proof {
        vstd::utf8::encode_utf8_valid_utf8(delivery.body@);
    }
    let message = delivery.into_entry(RecordInfo::empty(), now);
    let step = dead_letter_and_delete(dead_letter, &message, deletes, id);
    (message, step)
}

/// A request asks for as many messages as fit, and as many as it may.
pub proof fn law_request_asks_for_what_fits(outstanding: usize, cap: usize, max_messages: i32)
    requires
        outstanding < cap,
        max_messages >= 1,
    ensures
        receive_count(outstanding, cap, max_messages) == if cap - outstanding < max_messages {
            cap - outstanding
        } else {
            max_messages as int
        },
{
}

/// A message can be worked on if it has a body and a receipt handle, and only such a message
/// uses up an id.
pub proof fn law_workable_messages_have_body_and_handle(next: int, message: ReceivedMessage)
    ensures
        message.is_workable() <==> message.body is Some && message.receipt_handle is Some,
        id_after(next, message) == next + if message.body is Some && message.receipt_handle is Some {
            1int
        } else {
            0int
        },
{
}

/// What is kept of a delivery is what came with it: its body byte for byte, its handle, its
/// group and its id, with the identity it was given, the time it was taken in, and no extension
/// yet.
pub proof fn law_deliveries_are_kept_whole(
    delivery: Delivery,
    message: ReceivedMessage,
    info: RecordInfo,
    now: u64,
    entry: SqsInFlight,
)
    requires
        delivery.delivers(message),
        delivery.is_kept_as(info, now, entry),
    ensures
        message.body matches Some(body) && entry.body@ == vstd::utf8::encode_utf8(body@),
        message.receipt_handle == Some(entry.receipt_handle),
        entry.message_group_id == message.message_group_id,
        entry.message_id == message.message_id,
        entry.info == info,
        entry.started == now,
        entry.extended == 0,
{
}

/// A negative limit is none: a request asks for all that fits, if that fits the count.
pub proof fn law_negative_limit_is_none(outstanding: usize, cap: usize, max_messages: i32)
    requires
        outstanding < cap,
        max_messages < 0,
        cap - outstanding <= i32::MAX,
    ensures
        receive_count(outstanding, cap, max_messages) == cap - outstanding,
{
    lemma_negative_limit_is_none(max_messages);
}

proof fn lemma_negative_limit_is_none(max_messages: i32)
    ensures
        max_messages < 0 ==> max_messages as usize > i32::MAX,
{
    assert(max_messages < 0 ==> max_messages as usize > 0x7fff_ffff) by (bit_vector);
}

} // verus!
