//! Settling messages: what becomes of a message once its outcome is known.
//!
//! An added record's message is deleted. A rejected one is sent to the dead-letter queue
//! and only then deleted; in a run that was allowed to do without such a queue it is deleted
//! at once, and lost. Anything else is left alone, and SQS delivers it again when its
//! visibility timeout ends.
use vstd::prelude::*;
use vstd::string::*;

use crate::dead_letter::DeadLetter;
use crate::deletes::DeleteBatcher;
use crate::in_flight::{InFlight, SqsInFlight};
use crate::record::{Action, LoadCounters, Outcome, RecordInfo};
use crate::text::text_from_utf8;

verus! {

/// What a FIFO queue wants to know about a message.
#[derive(Debug, PartialEq, Eq)]
pub struct FifoKeys {
    pub group_id: String,
    pub deduplication_id: String,
}

/// A `SendMessage` request to the dead-letter queue.
#[derive(Debug, PartialEq, Eq)]
pub struct ForwardRequest {
    pub queue_url: String,
    pub body: String,
    pub fifo: Option<FifoKeys>,
}

/// The group under which a rejected message is forwarded: its own, else its data source.
pub open spec fn forward_group(message: SqsInFlight) -> Seq<char> {
    match message.message_group_id {
        Some(group) => group@,
        None => message.info.data_source@,
    }
}

/// The deduplication id of a forwarded message: its message id, else what names the record.
pub open spec fn forward_dedup(message: SqsInFlight) -> Seq<char> {
    match message.message_id {
        Some(id) => id@,
        None => message.info.data_source@ + "-"@ + message.info.record_id@,
    }
}

impl ForwardRequest {
    /// The request forwards `message` to `dead_letter`, with its body byte for byte.
    pub open spec fn forwards(self, message: SqsInFlight, dead_letter: DeadLetter) -> bool {
        &&& self.queue_url == dead_letter.url
        &&& vstd::utf8::encode_utf8(self.body@) == message.body@
        &&& match self.fifo {
            Some(keys) => {
                &&& dead_letter.fifo
                &&& keys.group_id@ == forward_group(message)
                &&& keys.deduplication_id@ == forward_dedup(message)
            },
            None => !dead_letter.fifo,
        }
    }
}

/// The request that forwards a rejected message, `None` if its body is not UTF-8 and so
/// cannot be sent.
pub fn dead_letter_request(dead_letter: &DeadLetter, message: &SqsInFlight) -> (request: Option<
    ForwardRequest,
>)
    ensures
        request is Some <==> vstd::utf8::valid_utf8(message.body@),
        request matches Some(r) ==> r.forwards(*message, *dead_letter),
        request matches Some(r) ==> r.queue_url@ == dead_letter.url@
            && vstd::utf8::encode_utf8(r.body@) == message.body@ && (r.fifo is Some
            <==> dead_letter.fifo),
{
    let body = match text_from_utf8(message.body.as_slice()) {
        Some(text) => text.to_string(),
        None => {
            return None;
        },
    };
    proof {
        vstd::utf8::decode_utf8_encode_utf8(message.body@);
    }
    let fifo = if dead_letter.fifo {
        let group_id = match &message.message_group_id {
            Some(group) => group.clone(),
            None => message.info.data_source.clone(),
        };
        let deduplication_id = match &message.message_id {
            Some(id) => id.clone(),
            None => message.info.data_source.clone().concat("-").concat(
                message.info.record_id.as_str(),
            ),
        };
        Some(FifoKeys { group_id, deduplication_id })
    } else {
        None
    };
    Some(ForwardRequest { queue_url: dead_letter.url.clone(), body, fifo })
}

/// How the reject of a message goes on.
#[derive(Debug, PartialEq, Eq)]
pub enum RejectStep {
    /// There is no dead-letter queue: the delete is queued, and the record is lost.
    Deleted,
    /// Send this; the delete depends on whether that succeeds.
    Forward(ForwardRequest),
    /// The body cannot be sent, so the message is left alone.
    Unforwardable,
}

/// The queued deletes after a reject of the message `id`, before anything was sent.
pub open spec fn deletes_after_reject(
    deletes: Seq<(u64, Seq<char>)>,
    id: u64,
    message: SqsInFlight,
    dead_letter: Option<DeadLetter>,
) -> Seq<(u64, Seq<char>)> {
    match dead_letter {
        Some(_) => deletes,
        None => deletes.push((id, message.receipt_handle@)),
    }
}

/// A reject of `message` is forwarded before it is settled.
pub open spec fn is_forwarded(message: SqsInFlight, dead_letter: Option<DeadLetter>) -> bool {
    dead_letter is Some && vstd::utf8::valid_utf8(message.body@)
}

pub open spec fn is_reject_step(
    message: SqsInFlight,
    dead_letter: Option<DeadLetter>,
    step: RejectStep,
) -> bool {
    match dead_letter {
        None => step is Deleted,
        Some(queue) => if is_forwarded(message, dead_letter) {
            step matches RejectStep::Forward(request) && request.forwards(message, queue)
        } else {
            step is Unforwardable
        },
    }
}

pub open spec fn target(dead_letter: Option<&DeadLetter>) -> Option<DeadLetter> {
    match dead_letter {
        Some(queue) => Some(*queue),
        None => None,
    }
}

/// Rejects a message: without a dead-letter queue its delete is queued at once; with one
/// the request to send is handed back, and nothing is deleted yet.
pub fn dead_letter_and_delete(
    dead_letter: Option<&DeadLetter>,
    message: &SqsInFlight,
    deletes: &mut DeleteBatcher,
    id: u64,
) -> (step: RejectStep)
    ensures
        final(deletes)@ == deletes_after_reject(old(deletes)@, id, *message, target(dead_letter)),
        is_reject_step(*message, target(dead_letter), step),
        dead_letter is None ==> step is Deleted && final(deletes)@ == old(deletes)@.push(
            (id, message.receipt_handle@),
        ),
        dead_letter is Some ==> final(deletes)@ == old(deletes)@ && (step is Forward
            <==> vstd::utf8::valid_utf8(message.body@)) && (step is Unforwardable
            <==> !vstd::utf8::valid_utf8(message.body@)),
        dead_letter matches Some(queue) ==> step matches RejectStep::Forward(request)
            ==> request.forwards(*message, *queue),
{
    match dead_letter {
        Some(queue) => match dead_letter_request(queue, message) {
            Some(request) => RejectStep::Forward(request),
            None => RejectStep::Unforwardable,
        },
        None => {
            deletes.push(id, message.receipt_handle.clone());
            RejectStep::Deleted
        },
    }
}

/// The queued deletes after the attempt to forward the message `id`.
pub open spec fn deletes_after_forward(
    deletes: Seq<(u64, Seq<char>)>,
    id: u64,
    message: SqsInFlight,
    sent: bool,
) -> Seq<(u64, Seq<char>)> {
    if sent {
        deletes.push((id, message.receipt_handle@))
    } else {
        deletes
    }
}

/// Takes note of how a forward went: only a message that was sent is deleted from its source.
pub fn note_forward(deletes: &mut DeleteBatcher, id: u64, message: &SqsInFlight, sent: bool)
    ensures
        final(deletes)@ == deletes_after_forward(old(deletes)@, id, *message, sent),
        sent ==> final(deletes)@ == old(deletes)@.push((id, message.receipt_handle@)),
        !sent ==> final(deletes)@ == old(deletes)@,
{
    if sent {
        deletes.push(id, message.receipt_handle.clone());
    }
}

/// What was done with a delivery.
#[derive(Debug, PartialEq, Eq)]
pub enum Settled {
    Added,
    Rejected,
    Fatal(String),
}

/// How the handling of a worker's outcome goes on.
#[derive(Debug, PartialEq, Eq)]
pub enum OutcomeStep {
    /// The record was added; the engine's response is to be printed, if there is one.
    Added { response: Option<String> },
    /// The record was rejected.
    Rejected { message: SqsInFlight, step: RejectStep },
    /// The record was rejected, but its message is not in flight.
    RejectedUnknown { info: RecordInfo },
    /// The engine failed. The message is left alone.
    Fatal(String),
}

/// The queued deletes after the outcome `action` for the delivery `id`, before anything
/// was sent.
pub open spec fn deletes_after_outcome(
    in_flight: Map<u64, SqsInFlight>,
    deletes: Seq<(u64, Seq<char>)>,
    id: u64,
    action: Action,
    dead_letter: Option<DeadLetter>,
) -> Seq<(u64, Seq<char>)> {
    if !in_flight.contains_key(id) {
        deletes
    } else {
        match action {
            Action::Ack(_) => deletes.push((id, in_flight[id].receipt_handle@)),
            Action::RejectNoRequeue => deletes_after_reject(
                deletes,
                id,
                in_flight[id],
                dead_letter,
            ),
            Action::Fatal(_) => deletes,
        }
    }
}

/// The counters after an outcome. A fatal one counts as neither.
pub open spec fn counters_after_outcome(counters: LoadCounters, action: Action) -> LoadCounters {
    match action {
        Action::Ack(_) => counters.with_add(),
        Action::RejectNoRequeue => counters.with_reject(),
        Action::Fatal(_) => counters,
    }
}

pub open spec fn is_outcome_step(
    in_flight: Map<u64, SqsInFlight>,
    outcome: Outcome,
    dead_letter: Option<DeadLetter>,
    step: OutcomeStep,
) -> bool {
    match outcome.action {
        Action::Ack(response) => step == (OutcomeStep::Added { response }),
        Action::RejectNoRequeue => if in_flight.contains_key(outcome.delivery_tag) {
            step matches OutcomeStep::Rejected { message, step: reject } && message
                == in_flight[outcome.delivery_tag] && is_reject_step(message, dead_letter, reject)
        } else {
            step == (OutcomeStep::RejectedUnknown { info: outcome.info })
        },
        Action::Fatal(reason) => step == OutcomeStep::Fatal(reason),
    }
}

/// Applies a worker's outcome: takes the message out of flight and, by what the worker
/// decided, queues its delete, hands back what to send to the dead-letter queue, or
/// leaves the message alone.
pub fn handle_outcome(
    dead_letter: Option<&DeadLetter>,
    in_flight: &mut InFlight,
    deletes: &mut DeleteBatcher,
    counters: &mut LoadCounters,
    outcome: Outcome,
) -> (step: OutcomeStep)
    ensures
        final(in_flight)@ == old(in_flight)@.remove(outcome.delivery_tag),
        final(deletes)@ == deletes_after_outcome(
            old(in_flight)@,
            old(deletes)@,
            outcome.delivery_tag,
            outcome.action,
            target(dead_letter),
        ),
        *final(counters) == counters_after_outcome(*old(counters), outcome.action),
        is_outcome_step(old(in_flight)@, outcome, target(dead_letter), step),
        outcome.action is Ack && old(in_flight)@.contains_key(outcome.delivery_tag) ==> final(deletes)@ == old(deletes)@.push(
            (
                outcome.delivery_tag,
                old(in_flight)@[outcome.delivery_tag].receipt_handle@,
            ),
        ),
        outcome.action is Fatal || !old(in_flight)@.contains_key(outcome.delivery_tag) ==> final(deletes)@ == old(deletes)@,
{
    let id: u64 = outcome.delivery_tag;
    let entry = in_flight.remove(id);
    match outcome.action {
        Action::Ack(response) => {
            counters.count_add();
            if let Some(message) = entry {
                deletes.push(id, message.receipt_handle);
            }
            OutcomeStep::Added { response }
        },
        Action::RejectNoRequeue => {
            counters.count_reject();
            match entry {
                Some(message) => {
                    let step = dead_letter_and_delete(dead_letter, &message, deletes, id);
                    OutcomeStep::Rejected { message, step }
                },
                None => OutcomeStep::RejectedUnknown { info: outcome.info },
            }
        },
        Action::Fatal(reason) => OutcomeStep::Fatal(reason),
    }
}

/// What a forwarded message carries: it goes to the dead-letter queue, with its body byte for
/// byte. To a FIFO queue, and only there, it goes under its own group, else its data source,
/// and with its own message id, else what names its record, to deduplicate by.
pub proof fn law_forward_carries_the_message(
    request: ForwardRequest,
    message: SqsInFlight,
    dead_letter: DeadLetter,
)
    requires
        request.forwards(message, dead_letter),
    ensures
        request.queue_url@ == dead_letter.url@,
        vstd::utf8::encode_utf8(request.body@) == message.body@,
        request.fifo is Some <==> dead_letter.fifo,
        request.fifo matches Some(keys) ==> {
            &&& message.message_group_id matches Some(group) ==> keys.group_id@ == group@
            &&& message.message_group_id is None ==> keys.group_id@ == message.info.data_source@
            &&& message.message_id matches Some(id) ==> keys.deduplication_id@ == id@
            &&& message.message_id is None ==> keys.deduplication_id@
                == message.info.data_source@.push('-') + message.info.record_id@
        },
{
    reveal_strlit("-");
    assert(message.info.data_source@ + "-"@ =~= message.info.data_source@.push('-'));
}

/// A reject is forwarded if there is a dead-letter queue and the body is text, and then
/// nothing is deleted yet. Without such a queue the delete is queued at once. A body that
/// is no text stays where it is.
pub proof fn law_rejects_are_preserved_first(
    message: SqsInFlight,
    dead_letter: Option<DeadLetter>,
    step: RejectStep,
    deletes: Seq<(u64, Seq<char>)>,
    id: u64,
)
    requires
        is_reject_step(message, dead_letter, step),
    ensures
        dead_letter is None ==> step is Deleted && deletes_after_reject(
            deletes,
            id,
            message,
            dead_letter,
        ) == deletes.push((id, message.receipt_handle@)),
        dead_letter is Some ==> deletes_after_reject(deletes, id, message, dead_letter)
            == deletes,
        dead_letter matches Some(queue) ==> vstd::utf8::valid_utf8(message.body@)
            ==> (step matches RejectStep::Forward(request) && request.forwards(message, queue)),
        dead_letter is Some ==> !vstd::utf8::valid_utf8(message.body@) ==> step is Unforwardable,
        deletes_after_forward(deletes, id, message, true) == deletes.push(
            (id, message.receipt_handle@),
        ),
        deletes_after_forward(deletes, id, message, false) == deletes,
{
}

/// What an outcome does to the message it is about. An added record's delete is queued, under
/// the handle the message came with. A rejected one goes the way of a reject. A fatal error
/// queues nothing. And so does the outcome of a message that is not in flight.
pub proof fn law_outcomes_settle_their_message(
    in_flight: Map<u64, SqsInFlight>,
    deletes: Seq<(u64, Seq<char>)>,
    outcome: Outcome,
    dead_letter: Option<DeadLetter>,
    step: OutcomeStep,
    counters: LoadCounters,
)
    requires
        is_outcome_step(in_flight, outcome, dead_letter, step),
    ensures
        ({
            let id = outcome.delivery_tag;
            let after = deletes_after_outcome(in_flight, deletes, id, outcome.action, dead_letter);
            let counted = counters_after_outcome(counters, outcome.action);
            match outcome.action {
                Action::Ack(response) => {
                    &&& step == (OutcomeStep::Added { response })
                    &&& counted == counters.with_add()
                    &&& in_flight.contains_key(id) ==> after == deletes.push(
                        (id, in_flight[id].receipt_handle@),
                    )
                    &&& !in_flight.contains_key(id) ==> after == deletes
                },
                Action::RejectNoRequeue => {
                    &&& counted == counters.with_reject()
                    &&& in_flight.contains_key(id) ==> (step matches OutcomeStep::Rejected {
                        message,
                        step: reject,
                    } && message == in_flight[id] && is_reject_step(message, dead_letter, reject))
                    &&& !in_flight.contains_key(id) ==> step == (OutcomeStep::RejectedUnknown {
                        info: outcome.info,
                    })
                    &&& dead_letter is Some || !in_flight.contains_key(id) ==> after == deletes
                    &&& dead_letter is None && in_flight.contains_key(id) ==> after
                        == deletes.push((id, in_flight[id].receipt_handle@))
                },
                Action::Fatal(reason) => {
                    &&& step == OutcomeStep::Fatal(reason)
                    &&& counted == counters
                    &&& after == deletes
                },
            }
        }),
{
}

/// The dead-letter queue that a run was given is the one that its rejects go to.
pub proof fn law_rejects_go_to_the_given_queue(dead_letter: Option<&DeadLetter>)
    ensures
        dead_letter matches Some(queue) ==> target(dead_letter) == Some(*queue),
        dead_letter is None ==> target(dead_letter) is None,
{
}

} // verus!
