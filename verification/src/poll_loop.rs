//! The polling loop: waits for room, receives messages, and sees each of them to the worker
//! pool or to the dead-letter queue. The loop is told what happened and says what to do next.
use vstd::prelude::*;

use crate::dead_letter::DeadLetter;
use crate::deletes::{is_batching, DeleteBatcher, DeleteEntry};
use crate::in_flight::{InFlight, SqsInFlight};
use crate::poll::{
    accept, receive_count, receive_room, reject_unparseable, withdraw, Delivery, Poller,
    ReceivedMessage,
};
use crate::record::{LoadCounters, LoadItem, RecordInfo};
use crate::settle::{
    deletes_after_forward, deletes_after_reject, is_reject_step, note_forward, target, RejectStep,
};

verus! {

/// Where the polling loop stands.
#[derive(Debug)]
pub enum PollPhase {
    /// About to look whether there is room.
    Top,
    /// No room; waiting for a moment.
    Waiting,
    /// A receive of up to `count` messages is under way.
    Receiving { count: i32 },
    /// A receive failed; waiting before the next.
    BackingOff,
    /// The body of this delivery is being parsed.
    Parsing(Delivery),
    /// The message `id` is being handed to the worker pool.
    Sending { id: u64 },
    /// An unparseable message is being rejected; `forwarding` if it is sent somewhere.
    Rejecting { id: u64, message: SqsInFlight, forwarding: bool },
    /// The queued deletes are being sent; the loop ends after them if `last`.
    Flushing { last: bool },
    Stopped,
}

/// What happened.
#[derive(Debug)]
pub enum PollEvent {
    /// The loop may go on, unless the run is ending.
    Check { running: bool },
    /// The wait is over, by time or by a shutdown.
    Waited { shutdown: bool },
    /// Messages arrived.
    Received(Vec<ReceivedMessage>),
    ReceiveFailed,
    /// A shutdown broke the receive off.
    ReceiveBroken,
    /// The wait after a failed receive is over, by time or by a shutdown.
    BackedOff { shutdown: bool },
    /// The body was parsed, or could not be (`None`); the clock read `now`.
    Parsed { info: Option<RecordInfo>, now: u64 },
    /// The worker pool took the item, or is gone.
    Sent { accepted: bool },
    /// A shutdown broke the hand-over off.
    SendBroken,
    /// The reject is through; `sent` if the message was forwarded successfully.
    Rejected { sent: bool },
    Flushed,
}

/// What to do next.
#[derive(Debug, PartialEq, Eq)]
pub enum PollAction {
    /// Look whether the run is still on.
    Check,
    /// Wait for a moment, or for a shutdown.
    Wait,
    /// Ask for up to `count` messages, until a shutdown.
    Receive { count: i32 },
    /// Wait before the next receive, or for a shutdown.
    BackOff,
    /// Parse the body of the delivery.
    Parse,
    /// Hand the item to the worker pool, until a shutdown.
    Dispatch(LoadItem),
    /// See the reject of the message through.
    Reject(RejectStep),
    /// Send these deletes.
    Flush(Vec<Vec<DeleteEntry>>),
    Stop,
}

/// The polling loop.
pub struct PollLoop {
    cap: usize,
    max_messages: i32,
    poller: Poller,
    poison_deletes: DeleteBatcher,
    /// The messages that are still to be taken in, the next one last.
    todo: Vec<ReceivedMessage>,
    phase: PollPhase,
}

/// What the polling loop knows.
pub struct PollState {
    pub cap: usize,
    pub max_messages: i32,
    pub next_id: u64,
    /// The queued deletes of unparseable messages.
    pub poison: Seq<(u64, Seq<char>)>,
    /// The messages that are still to be taken in, in order.
    pub todo: Seq<ReceivedMessage>,
    pub phase: PollPhase,
}

/// The delivery that a message makes under the id `id`.
pub open spec fn delivery_of(message: ReceivedMessage, id: u64) -> Delivery {
    Delivery {
        id,
        body: message.body->Some_0,
        receipt_handle: message.receipt_handle->Some_0,
        message_group_id: message.message_group_id,
        message_id: message.message_id,
    }
}

impl PollState {
    pub open spec fn initial(cap: usize, max_messages: i32) -> Self {
        PollState {
            cap,
            max_messages,
            next_id: 1,
            poison: Seq::empty(),
            todo: Seq::empty(),
            phase: PollPhase::Top,
        }
    }

    /// The event is one that the loop is waiting for.
    pub open spec fn expects(self, event: PollEvent) -> bool {
        match self.phase {
            PollPhase::Top => event is Check,
            PollPhase::Waiting => event is Waited,
            PollPhase::Receiving { .. } => event is Received || event is ReceiveFailed
                || event is ReceiveBroken,
            PollPhase::BackingOff => event is BackedOff,
            PollPhase::Parsing(_) => event is Parsed,
            PollPhase::Sending { .. } => event is Sent || event is SendBroken,
            PollPhase::Rejecting { .. } => event is Rejected,
            PollPhase::Flushing { .. } => event is Flushed,
            PollPhase::Stopped => false,
        }
    }

    /// There are ids enough for all messages that may still be taken in.
    pub open spec fn has_ids_for(self, event: PollEvent) -> bool {
        let waiting = match event {
            PollEvent::Received(messages) => messages@.len(),
            _ => self.todo.len(),
        };
        self.next_id + waiting <= u64::MAX
    }

    /// The number of messages that the loop has in hand: received, not in flight, and not
    /// settled either.
    pub open spec fn in_hand(self) -> nat {
        self.todo.len() + if self.phase is Parsing || self.phase is Rejecting {
            1nat
        } else {
            0nat
        }
    }

    pub open spec fn in_phase(self, phase: PollPhase) -> Self {
        PollState { phase, ..self }
    }

    /// The queued deletes go out.
    pub open spec fn flushing(self, last: bool) -> Self {
        PollState { poison: Seq::empty(), phase: PollPhase::Flushing { last }, ..self }
    }

    /// The loop turns to the next message that can be worked on; once there is none left,
    /// the deletes that have piled up go out.
    pub open spec fn advanced(self) -> Self
        decreases self.todo.len(),
    {
        if self.todo.len() == 0 {
            self.flushing(false)
        } else if self.todo[0].is_workable() {
            PollState {
                next_id: (self.next_id + 1) as u64,
                todo: self.todo.drop_first(),
                phase: PollPhase::Parsing(delivery_of(self.todo[0], self.next_id)),
                ..self
            }
        } else {
            PollState { todo: self.todo.drop_first(), ..self }.advanced()
        }
    }
}

/// The action goes with turning to the next message from `before`.
pub open spec fn is_advance_action(before: PollState, action: PollAction) -> bool {
    if before.advanced().phase is Parsing {
        action is Parse
    } else {
        action matches PollAction::Flush(batches) && is_batching(batches@, before.poison)
    }
}

/// The action sends the deletes that `before` had queued.
pub open spec fn is_flush_of(before: PollState, action: PollAction) -> bool {
    action matches PollAction::Flush(batches) && is_batching(batches@, before.poison)
}

/// What the loop and the run's books are after `event`, and what is to be done.
pub open spec fn is_poll_step(
    before: PollState,
    in_flight: Map<u64, SqsInFlight>,
    counters: LoadCounters,
    dead_letter: Option<DeadLetter>,
    event: PollEvent,
    after: PollState,
    in_flight_after: Map<u64, SqsInFlight>,
    counters_after: LoadCounters,
    action: PollAction,
) -> bool {
    match (before.phase, event) {
        (PollPhase::Top, PollEvent::Check { running }) => {
            &&& in_flight_after == in_flight
            &&& counters_after == counters
            &&& if !running {
                after == before.flushing(true) && is_flush_of(before, action)
            } else if in_flight.len() >= before.cap {
                after == before.in_phase(PollPhase::Waiting) && action is Wait
            } else {
                let count = receive_count(
                    in_flight.len() as usize,
                    before.cap,
                    before.max_messages,
                );
                after == before.in_phase(PollPhase::Receiving { count }) && action == (
                PollAction::Receive { count })
            }
        },
        (PollPhase::Waiting, PollEvent::Waited { shutdown }) => {
            &&& in_flight_after == in_flight
            &&& counters_after == counters
            &&& if shutdown {
                after == before.flushing(true) && is_flush_of(before, action)
            } else {
                after == before.in_phase(PollPhase::Top) && action is Check
            }
        },
        (PollPhase::Receiving { .. }, PollEvent::Received(messages)) => {
            let filled = PollState { todo: messages@, ..before };
            &&& in_flight_after == in_flight
            &&& counters_after == counters
            &&& after == filled.advanced()
            &&& is_advance_action(filled, action)
        },
        (PollPhase::Receiving { .. }, PollEvent::ReceiveFailed) => {
            &&& in_flight_after == in_flight
            &&& counters_after == counters
            &&& after == before.in_phase(PollPhase::BackingOff)
            &&& action is BackOff
        },
        (PollPhase::Receiving { .. }, PollEvent::ReceiveBroken) => {
            &&& in_flight_after == in_flight
            &&& counters_after == counters
            &&& after == before.flushing(true)
            &&& is_flush_of(before, action)
        },
        (PollPhase::BackingOff, PollEvent::BackedOff { shutdown }) => {
            &&& in_flight_after == in_flight
            &&& counters_after == counters
            &&& if shutdown {
                after == before.flushing(true) && is_flush_of(before, action)
            } else {
                after == before.in_phase(PollPhase::Top) && action is Check
            }
        },
        (PollPhase::Parsing(delivery), PollEvent::Parsed { info: Some(info), now }) => {
            &&& counters_after == counters
            &&& after == before.in_phase(PollPhase::Sending { id: delivery.id })
            &&& in_flight_after.contains_key(delivery.id)
            &&& delivery.is_kept_as(info, now, in_flight_after[delivery.id])
            &&& in_flight_after == in_flight.insert(delivery.id, in_flight_after[delivery.id])
            &&& action matches PollAction::Dispatch(item)
            &&& item.delivery_tag == delivery.id
            &&& item.body@ == vstd::utf8::encode_utf8(delivery.body@)
            &&& item.info == info
        },
        (PollPhase::Parsing(delivery), PollEvent::Parsed { info: None, now }) => {
            &&& in_flight_after == in_flight
            &&& counters_after == counters.with_reject()
            &&& action matches PollAction::Reject(step)
            &&& after.phase matches PollPhase::Rejecting { id, message, forwarding }
            &&& id == delivery.id
            &&& forwarding == step is Forward
            &&& message.info.data_source@ == Seq::<char>::empty()
            &&& message.info.record_id@ == Seq::<char>::empty()
            &&& delivery.is_kept_as(message.info, now, message)
            &&& is_reject_step(message, dead_letter, step)
            &&& step !is Unforwardable
            &&& after == PollState {
                poison: deletes_after_reject(before.poison, id, message, dead_letter),
                phase: after.phase,
                ..before
            }
        },
        (PollPhase::Sending { id }, PollEvent::Sent { accepted }) => {
            &&& counters_after == counters
            &&& if accepted {
                in_flight_after == in_flight && after == before.advanced() && is_advance_action(
                    before,
                    action,
                )
            } else {
                in_flight_after == in_flight.remove(id) && after == before.flushing(true)
                    && is_flush_of(before, action)
            }
        },
        (PollPhase::Sending { id }, PollEvent::SendBroken) => {
            &&& counters_after == counters
            &&& in_flight_after == in_flight.remove(id)
            &&& after == before.flushing(true)
            &&& is_flush_of(before, action)
        },
        (PollPhase::Rejecting { id, message, forwarding }, PollEvent::Rejected { sent }) => {
            let noted = PollState {
                poison: deletes_after_forward(before.poison, id, message, forwarding && sent),
                ..before
            };
            &&& in_flight_after == in_flight
            &&& counters_after == counters
            &&& after == noted.advanced()
            &&& is_advance_action(noted, action)
        },
        (PollPhase::Flushing { last }, PollEvent::Flushed) => {
            &&& in_flight_after == in_flight
            &&& counters_after == counters
            &&& if last {
                after == before.in_phase(PollPhase::Stopped) && action is Stop
            } else {
                after == before.in_phase(PollPhase::Top) && action is Check
            }
        },
        _ => false,
    }
}

impl View for PollLoop {
    type V = PollState;

    closed spec fn view(&self) -> PollState {
        PollState {
            cap: self.cap,
            max_messages: self.max_messages,
            next_id: self.poller@,
            poison: self.poison_deletes@,
            todo: self.todo@.reverse(),
            phase: self.phase,
        }
    }
}

impl PollLoop {
    pub fn new(cap: usize, max_messages: i32) -> (poll: Self)
        ensures
            poll@ == PollState::initial(cap, max_messages),
    {
        let poll = PollLoop {
            cap,
            max_messages,
            poller: Poller::new(),
            poison_deletes: DeleteBatcher::default(),
            todo: Vec::new(),
            phase: PollPhase::Top,
        };
        assert(poll@.todo =~= Seq::empty());
        poll
    }

    /// The delivery whose body is to be parsed.
    pub fn delivery(&self) -> (delivery: Option<&Delivery>)
        ensures
            match self@.phase {
                PollPhase::Parsing(d) => delivery == Some(&d),
                _ => delivery is None,
            },
    {
        match &self.phase {
            PollPhase::Parsing(delivery) => Some(delivery),
            _ => None,
        }
    }

    /// The message that is being rejected.
    pub fn rejected(&self) -> (message: Option<&SqsInFlight>)
        ensures
            match self@.phase {
                PollPhase::Rejecting { message: m, .. } => message == Some(&m),
                _ => message is None,
            },
    {
        match &self.phase {
            PollPhase::Rejecting { message, .. } => Some(message),
            _ => None,
        }
    }

    fn flush(&mut self, last: bool) -> (action: PollAction)
        ensures
            final(self)@ == old(self)@.flushing(last),
            is_flush_of(old(self)@, action),
    {
        self.phase = PollPhase::Flushing { last };
        PollAction::Flush(self.poison_deletes.flush())
    }

    fn advance(&mut self) -> (action: PollAction)
        requires
            old(self)@.next_id + old(self)@.todo.len() <= u64::MAX,
        ensures
            final(self)@ == old(self)@.advanced(),
            is_advance_action(old(self)@, action),
        decreases old(self)@.todo.len(),
    {
        let ghost before = self@;
        match self.todo.pop() {
            None => self.flush(false),
            Some(message) => {
                assert(before.todo[0] == message);
                assert(self@.todo =~= before.todo.drop_first());
                match self.poller.identify(message) {
                    Some(delivery) => {
                        assert(delivery == delivery_of(message, before.next_id));
                        self.phase = PollPhase::Parsing(delivery);
                        PollAction::Parse
                    },
                    None => self.advance(),
                }
            },
        }
    }

    fn fill(&mut self, messages: Vec<ReceivedMessage>)
        ensures
            final(self)@ == (PollState { todo: messages@, ..old(self)@ }),
    {
        let mut rest = messages;
        let mut todo: Vec<ReceivedMessage> = Vec::new();
        while rest.len() > 0
            invariant
                rest@ + todo@.reverse() =~= messages@,
            decreases rest.len(),
        {
            match rest.pop() {
                Some(message) => {
                    todo.push(message);
                },
                None => {},
            }
        }
        self.todo = todo;
        assert(self@.todo =~= messages@);
    }

    /// Goes one step: takes what happened into the books and says what to do next.
    pub fn step(
        &mut self,
        event: PollEvent,
        dead_letter: Option<&DeadLetter>,
        in_flight: &mut InFlight,
        counters: &mut LoadCounters,
    ) -> (action: PollAction)
        requires
            old(self)@.expects(event),
            old(self)@.has_ids_for(event),
        ensures
            is_poll_step(
                old(self)@,
                old(in_flight)@,
                *old(counters),
                target(dead_letter),
                event,
                final(self)@,
                final(in_flight)@,
                *final(counters),
                action,
            ),
    {
        let mut phase = PollPhase::Stopped;
        std::mem::swap(&mut self.phase, &mut phase);
        match (phase, event) {
            (PollPhase::Top, PollEvent::Check { running }) => {
                if !running {
                    self.flush(true)
                } else {
                    match receive_room(in_flight.len(), self.cap, self.max_messages) {
                        None => {
                            self.phase = PollPhase::Waiting;
                            PollAction::Wait
                        },
                        Some(count) => {
                            self.phase = PollPhase::Receiving { count };
                            PollAction::Receive { count }
                        },
                    }
                }
            },
            (PollPhase::Waiting, PollEvent::Waited { shutdown }) => {
                if shutdown {
                    self.flush(true)
                } else {
                    self.phase = PollPhase::Top;
                    PollAction::Check
                }
            },
            (PollPhase::Receiving { count }, PollEvent::Received(messages)) => {
                self.fill(messages);
                self.phase = PollPhase::Receiving { count };
                self.advance()
            },
            (PollPhase::Receiving { .. }, PollEvent::ReceiveFailed) => {
                self.phase = PollPhase::BackingOff;
                PollAction::BackOff
            },
            (PollPhase::Receiving { .. }, PollEvent::ReceiveBroken) => self.flush(true),
            (PollPhase::BackingOff, PollEvent::BackedOff { shutdown }) => {
                if shutdown {
                    self.flush(true)
                } else {
                    self.phase = PollPhase::Top;
                    PollAction::Check
                }
            },
            (PollPhase::Parsing(delivery), PollEvent::Parsed { info: Some(info), now }) => {
                self.phase = PollPhase::Sending { id: delivery.id };
                PollAction::Dispatch(accept(delivery, info, now, in_flight))
            },
            (PollPhase::Parsing(delivery), PollEvent::Parsed { info: None, now }) => {
                let id: u64 = delivery.id;
                let (message, step) = reject_unparseable(
                    delivery,
                    now,
                    dead_letter,
                    counters,
                    &mut self.poison_deletes,
                );
                let forwarding = match &step {
                    RejectStep::Forward(_) => true,
                    _ => false,
                };
                self.phase = PollPhase::Rejecting { id, message, forwarding };
                PollAction::Reject(step)
            },
            (PollPhase::Sending { id }, PollEvent::Sent { accepted }) => {
                if accepted {
                    self.phase = PollPhase::Sending { id };
                    self.advance()
                } else {
                    withdraw(id, in_flight);
                    self.flush(true)
                }
            },
            (PollPhase::Sending { id }, PollEvent::SendBroken) => {
                withdraw(id, in_flight);
                self.flush(true)
            },
            (PollPhase::Rejecting { id, message, forwarding }, PollEvent::Rejected { sent }) => {
                note_forward(&mut self.poison_deletes, id, &message, forwarding && sent);
                self.phase = PollPhase::Rejecting { id, message, forwarding };
                self.advance()
            },
            (PollPhase::Flushing { last }, PollEvent::Flushed) => {
                if last {
                    self.phase = PollPhase::Stopped;
                    PollAction::Stop
                } else {
                    self.phase = PollPhase::Top;
                    PollAction::Check
                }
            },
            _ => PollAction::Stop,
        }
    }
}

/// The state in which the loop turns to the next message, if it does so after `event`.
pub open spec fn advancing(before: PollState, event: PollEvent) -> PollState {
    match (before.phase, event) {
        (_, PollEvent::Received(messages)) => PollState { todo: messages@, ..before },
        (PollPhase::Rejecting { id, message, forwarding }, PollEvent::Rejected { sent }) => PollState {
            poison: deletes_after_forward(before.poison, id, message, forwarding && sent),
            ..before
        },
        _ => before,
    }
}

/// The loop keeps its settings, and counts ids up only: a message gets an id that none before
/// it had, and is rejected under that id, if it is. Once there were ids enough for the messages
/// of a receive, there are for each.
pub proof fn law_poll_loop_only_counts_up(
    before: PollState,
    in_flight: Map<u64, SqsInFlight>,
    counters: LoadCounters,
    dead_letter: Option<DeadLetter>,
    event: PollEvent,
    after: PollState,
    in_flight_after: Map<u64, SqsInFlight>,
    counters_after: LoadCounters,
    action: PollAction,
)
    requires
        before.has_ids_for(event),
        before.next_id + before.todo.len() <= u64::MAX,
        is_poll_step(
            before,
            in_flight,
            counters,
            dead_letter,
            event,
            after,
            in_flight_after,
            counters_after,
            action,
        ),
    ensures
        after.cap == before.cap,
        after.max_messages == before.max_messages,
        before.next_id <= after.next_id,
        after.phase matches PollPhase::Parsing(delivery) ==> before.next_id <= delivery.id
            < after.next_id,
        after.next_id + after.todo.len() <= u64::MAX,
        after.phase matches PollPhase::Rejecting { id, .. } ==> (
        before.phase matches PollPhase::Parsing(delivery) && delivery.id == id),
{
    lemma_advance_counts_up(advancing(before, event));
}

pub(crate) proof fn lemma_advance_counts_up(state: PollState)
    requires
        state.next_id + state.todo.len() <= u64::MAX,
    ensures
        state.advanced().cap == state.cap,
        state.advanced().max_messages == state.max_messages,
        state.next_id <= state.advanced().next_id,
        state.advanced().next_id + state.advanced().todo.len() <= u64::MAX,
        state.advanced().in_hand() <= state.todo.len(),
        state.advanced().phase is Parsing || state.advanced() == (PollState {
            todo: Seq::empty(),
            ..state
        }).flushing(false),
        state.advanced().phase matches PollPhase::Parsing(delivery) ==> state.next_id
            <= delivery.id < state.advanced().next_id && state.advanced().poison == state.poison,
    decreases state.todo.len(),
{
    if state.todo.len() > 0 && !state.todo[0].is_workable() {
        lemma_advance_counts_up(PollState { todo: state.todo.drop_first(), ..state });
    } else if state.todo.len() == 0 {
        assert(state.todo =~= Seq::empty());
    }
}

/// No delete of an unparseable message is left behind: while deletes go out, and once the
/// loop has stopped, none is queued; and the loop stops only after sending them.
pub open spec fn deletes_are_out(state: PollState) -> bool {
    state.phase is Flushing || state.phase is Stopped ==> state.poison.len() == 0
}

/// Every step of the loop keeps to [`deletes_are_out`], and only a flush precedes the end.
pub proof fn law_poll_loop_flushes_before_it_stops(
    before: PollState,
    in_flight: Map<u64, SqsInFlight>,
    counters: LoadCounters,
    dead_letter: Option<DeadLetter>,
    event: PollEvent,
    after: PollState,
    in_flight_after: Map<u64, SqsInFlight>,
    counters_after: LoadCounters,
    action: PollAction,
)
    requires
        before.has_ids_for(event),
        deletes_are_out(before),
        is_poll_step(
            before,
            in_flight,
            counters,
            dead_letter,
            event,
            after,
            in_flight_after,
            counters_after,
            action,
        ),
    ensures
        deletes_are_out(after),
        after.phase is Stopped ==> before.phase is Flushing && action is Stop,
        action is Stop ==> after.phase is Stopped,
{
    lemma_advance_counts_up(advancing(before, event));
}

/// The messages in flight and those that the loop has in hand do not exceed the cap together,
/// nor will they if the reply under way keeps to the request.
pub open spec fn is_within_cap(state: PollState, in_flight: Map<u64, SqsInFlight>) -> bool {
    &&& in_flight.dom().finite()
    &&& in_flight.len() + state.in_hand() <= state.cap
    &&& state.phase matches PollPhase::Receiving { count } ==> in_flight.len() + count <= state.cap
}

/// If `event` is a reply, it holds no more messages than were asked for.
pub open spec fn keeps_to_request(state: PollState, event: PollEvent) -> bool {
    match (state.phase, event) {
        (PollPhase::Receiving { count }, PollEvent::Received(messages)) => messages@.len() <= count,
        _ => true,
    }
}

/// Backpressure: as long as replies keep to the number of messages asked for, every step of
/// the loop stays within the cap. No more are asked for than fit; and at least one is, unless
/// the limit of a request is negative and the cap does not fit the count of a request.
pub proof fn law_poll_loop_stays_within_the_cap(
    before: PollState,
    in_flight: Map<u64, SqsInFlight>,
    counters: LoadCounters,
    dead_letter: Option<DeadLetter>,
    event: PollEvent,
    after: PollState,
    in_flight_after: Map<u64, SqsInFlight>,
    counters_after: LoadCounters,
    action: PollAction,
)
    requires
        before.has_ids_for(event),
        is_within_cap(before, in_flight),
        keeps_to_request(before, event),
        is_poll_step(
            before,
            in_flight,
            counters,
            dead_letter,
            event,
            after,
            in_flight_after,
            counters_after,
            action,
        ),
    ensures
        is_within_cap(after, in_flight_after),
        action matches PollAction::Receive { count } ==> in_flight_after.len() + count
            <= after.cap && (before.max_messages >= 0 || before.cap <= i32::MAX ==> 1 <= count),
{
    lemma_advance_counts_up(advancing(before, event));
}

/// The loop turns to the messages of a reply in order, and passes over those only that have no
/// body or no receipt handle: after a reply, after a hand-over and after a reject it turns to
/// the first message left that has both, under the next id, and to no message twice. Once there
/// is none left, the queued deletes go out. `todo` are the messages left to turn to; `at` is
/// the place of the one it turns to, or their number.
pub proof fn law_messages_are_turned_to_in_order(
    before: PollState,
    in_flight: Map<u64, SqsInFlight>,
    counters: LoadCounters,
    dead_letter: Option<DeadLetter>,
    event: PollEvent,
    after: PollState,
    in_flight_after: Map<u64, SqsInFlight>,
    counters_after: LoadCounters,
    action: PollAction,
    todo: Seq<ReceivedMessage>,
) -> (at: int)
    requires
        before.has_ids_for(event),
        is_poll_step(
            before,
            in_flight,
            counters,
            dead_letter,
            event,
            after,
            in_flight_after,
            counters_after,
            action,
        ),
        match event {
            PollEvent::Received(messages) => todo == messages@,
            PollEvent::Sent { accepted } => accepted && todo == before.todo,
            PollEvent::Rejected { .. } => todo == before.todo,
            _ => false,
        },
    ensures
        0 <= at <= todo.len(),
        forall|i: int|
            0 <= i < at ==> (#[trigger] todo[i]).body is None || todo[i].receipt_handle is None,
        at < todo.len() ==> {
            &&& action is Parse
            &&& after.phase matches PollPhase::Parsing(delivery)
            &&& todo[at].body == Some(delivery.body)
            &&& todo[at].receipt_handle == Some(delivery.receipt_handle)
            &&& delivery.message_group_id == todo[at].message_group_id
            &&& delivery.message_id == todo[at].message_id
            &&& delivery.id == before.next_id
            &&& after.next_id == before.next_id + 1
            &&& after.todo == todo.skip(at + 1)
        },
        at == todo.len() ==> {
            &&& action is Flush
            &&& after.phase == (PollPhase::Flushing { last: false })
            &&& after.next_id == before.next_id
            &&& after.todo.len() == 0
            &&& after.poison.len() == 0
        },
        after.cap == before.cap,
        after.max_messages == before.max_messages,
        in_flight_after == in_flight,
        counters_after == counters,
{
    lemma_turning(advancing(before, event))
}

proof fn lemma_turning(state: PollState) -> (at: int)
    requires
        state.next_id + state.todo.len() <= u64::MAX,
    ensures
        0 <= at <= state.todo.len(),
        forall|i: int|
            0 <= i < at ==> (#[trigger] state.todo[i]).body is None
                || state.todo[i].receipt_handle is None,
        at < state.todo.len() ==> state.todo[at].body is Some && state.todo[at].receipt_handle
            is Some && state.advanced() == (PollState {
            next_id: (state.next_id + 1) as u64,
            todo: state.todo.skip(at + 1),
            phase: PollPhase::Parsing(delivery_of(state.todo[at], state.next_id)),
            ..state
        }),
        at == state.todo.len() ==> state.advanced() == (PollState {
            poison: Seq::empty(),
            todo: Seq::empty(),
            phase: PollPhase::Flushing { last: false },
            ..state
        }),
    decreases state.todo.len(),
{
    if state.todo.len() == 0 {
        assert(state.todo =~= Seq::empty());
        0
    } else if state.todo[0].is_workable() {
        assert(state.todo.drop_first() =~= state.todo.skip(1));
        0
    } else {
        let rest = state.todo.drop_first();
        let at = lemma_turning(PollState { todo: rest, ..state });
        assert forall|i: int| 0 <= i < at + 1 implies (#[trigger] state.todo[i]).body is None
            || state.todo[i].receipt_handle is None by {
            if i > 0 {
                assert(rest[i - 1] == state.todo[i]);
            }
        }
        if at < rest.len() {
            assert(rest[at] == state.todo[at + 1]);
            assert(rest.skip(at + 1) =~= state.todo.skip(at + 2));
        }
        at + 1
    }
}

/// The deletes that a turn leaves queued, or sends: those that were queued, and that of a
/// rejected message if it was forwarded.
pub proof fn law_turns_keep_or_send_the_deletes(
    before: PollState,
    in_flight: Map<u64, SqsInFlight>,
    counters: LoadCounters,
    dead_letter: Option<DeadLetter>,
    event: PollEvent,
    after: PollState,
    in_flight_after: Map<u64, SqsInFlight>,
    counters_after: LoadCounters,
    action: PollAction,
)
    requires
        before.has_ids_for(event),
        is_poll_step(
            before,
            in_flight,
            counters,
            dead_letter,
            event,
            after,
            in_flight_after,
            counters_after,
            action,
        ),
        event is Received || event == (PollEvent::Sent { accepted: true }) || event is Rejected,
    ensures
        ({
            let queued = match (before.phase, event) {
                (
                    PollPhase::Rejecting { id, message, forwarding },
                    PollEvent::Rejected { sent },
                ) => if forwarding && sent {
                    before.poison.push((id, message.receipt_handle@))
                } else {
                    before.poison
                },
                _ => before.poison,
            };
            ||| action is Parse && after.poison == queued
            ||| action matches PollAction::Flush(batches) && is_batching(batches@, queued)
                && after.poison.len() == 0
        }),
{
    let at = lemma_turning(advancing(before, event));
}

/// A shutdown ends the loop wherever it waits, and so does a worker pool that is gone: the
/// queued deletes go out, nothing more is taken in, and a message that was being handed over is
/// taken back.
pub proof fn law_shutdown_ends_the_loop(
    before: PollState,
    in_flight: Map<u64, SqsInFlight>,
    counters: LoadCounters,
    dead_letter: Option<DeadLetter>,
    event: PollEvent,
    after: PollState,
    in_flight_after: Map<u64, SqsInFlight>,
    counters_after: LoadCounters,
    action: PollAction,
)
    requires
        is_poll_step(
            before,
            in_flight,
            counters,
            dead_letter,
            event,
            after,
            in_flight_after,
            counters_after,
            action,
        ),
        event == (PollEvent::Check { running: false }) || event == (PollEvent::Waited {
            shutdown: true,
        }) || event == (PollEvent::BackedOff { shutdown: true }) || event
            == PollEvent::ReceiveBroken || event == PollEvent::SendBroken || event == (
        PollEvent::Sent { accepted: false }),
    ensures
        after.phase == (PollPhase::Flushing { last: true }),
        action matches PollAction::Flush(batches) && is_batching(batches@, before.poison),
        after.poison.len() == 0,
        after.next_id == before.next_id,
        counters_after == counters,
        before.phase matches PollPhase::Sending { id } ==> in_flight_after == in_flight.remove(id),
        before.phase !is Sending ==> in_flight_after == in_flight,
{
}

/// What the loop does between two receives, when it is not to end: after a wait it looks for
/// room again, after a failed receive it waits, and after the last deletes of a loop it stops.
/// None of this touches a message.
pub proof fn law_waits_lead_back_to_the_next_receive(
    before: PollState,
    in_flight: Map<u64, SqsInFlight>,
    counters: LoadCounters,
    dead_letter: Option<DeadLetter>,
    event: PollEvent,
    after: PollState,
    in_flight_after: Map<u64, SqsInFlight>,
    counters_after: LoadCounters,
    action: PollAction,
)
    requires
        is_poll_step(
            before,
            in_flight,
            counters,
            dead_letter,
            event,
            after,
            in_flight_after,
            counters_after,
            action,
        ),
        event is ReceiveFailed || event is Flushed || event == (PollEvent::Waited {
            shutdown: false,
        }) || event == (PollEvent::BackedOff { shutdown: false }),
    ensures
        event is ReceiveFailed ==> after.phase is BackingOff && action is BackOff,
        event is Waited || event is BackedOff ==> after.phase is Top && action is Check,
        before.phase == (PollPhase::Flushing { last: false }) ==> after.phase is Top && action
            is Check,
        before.phase == (PollPhase::Flushing { last: true }) ==> after.phase is Stopped && action
            is Stop,
        after.poison == before.poison,
        after.todo == before.todo,
        after.next_id == before.next_id,
        after.cap == before.cap,
        after.max_messages == before.max_messages,
        in_flight_after == in_flight,
        counters_after == counters,
{
}

/// When there is no room the loop waits, and else it asks for as many messages as there is room
/// for and a request may hold.
pub proof fn law_loop_asks_when_there_is_room(
    before: PollState,
    in_flight: Map<u64, SqsInFlight>,
    counters: LoadCounters,
    dead_letter: Option<DeadLetter>,
    event: PollEvent,
    after: PollState,
    in_flight_after: Map<u64, SqsInFlight>,
    counters_after: LoadCounters,
    action: PollAction,
)
    requires
        in_flight.len() <= usize::MAX,
        is_poll_step(
            before,
            in_flight,
            counters,
            dead_letter,
            event,
            after,
            in_flight_after,
            counters_after,
            action,
        ),
        event == (PollEvent::Check { running: true }),
    ensures
        in_flight.len() >= before.cap ==> after.phase is Waiting && action is Wait,
        in_flight.len() < before.cap ==> {
            &&& action matches PollAction::Receive { count }
            &&& after.phase == (PollPhase::Receiving { count })
            &&& before.max_messages >= 1 ==> count == if before.cap - in_flight.len()
                < before.max_messages {
                before.cap - in_flight.len()
            } else {
                before.max_messages as int
            }
            &&& before.max_messages == 0 ==> count == 1
        },
        after.poison == before.poison,
        after.todo == before.todo,
        after.next_id == before.next_id,
        after.cap == before.cap,
        after.max_messages == before.max_messages,
        in_flight_after == in_flight,
        counters_after == counters,
{
}

/// A message whose body could be parsed is put in flight, whole, and handed over with its body
/// byte for byte, under its id.
pub proof fn law_parsed_messages_are_dispatched(
    before: PollState,
    in_flight: Map<u64, SqsInFlight>,
    counters: LoadCounters,
    dead_letter: Option<DeadLetter>,
    event: PollEvent,
    after: PollState,
    in_flight_after: Map<u64, SqsInFlight>,
    counters_after: LoadCounters,
    action: PollAction,
    delivery: Delivery,
    info: RecordInfo,
    now: u64,
)
    requires
        is_poll_step(
            before,
            in_flight,
            counters,
            dead_letter,
            event,
            after,
            in_flight_after,
            counters_after,
            action,
        ),
        before.phase == PollPhase::Parsing(delivery),
        event == (PollEvent::Parsed { info: Some(info), now }),
    ensures
        after == (PollState { phase: PollPhase::Sending { id: delivery.id }, ..before }),
        action matches PollAction::Dispatch(item) && item.delivery_tag == delivery.id && item.body@
            == vstd::utf8::encode_utf8(delivery.body@) && item.info == info,
        in_flight_after.dom() == in_flight.dom().insert(delivery.id),
        forall|other: u64|
            other != delivery.id && in_flight.contains_key(other) ==> #[trigger]
            in_flight_after[other] == in_flight[other],
        ({
            let entry = in_flight_after[delivery.id];
            &&& entry.body@ == vstd::utf8::encode_utf8(delivery.body@)
            &&& entry.receipt_handle == delivery.receipt_handle
            &&& entry.info == info
            &&& entry.started == now
            &&& entry.extended == 0
            &&& entry.message_group_id == delivery.message_group_id
            &&& entry.message_id == delivery.message_id
        }),
        counters_after == counters,
{
}

/// A message whose body could not be parsed is rejected at once, under its id, whole and with an
/// empty identity, and counts as one reject. With a dead-letter queue it is forwarded there,
/// and nothing is deleted yet; without one its delete is queued. It is never in flight.
pub proof fn law_unparseable_messages_are_rejected(
    before: PollState,
    in_flight: Map<u64, SqsInFlight>,
    counters: LoadCounters,
    dead_letter: Option<DeadLetter>,
    event: PollEvent,
    after: PollState,
    in_flight_after: Map<u64, SqsInFlight>,
    counters_after: LoadCounters,
    action: PollAction,
    delivery: Delivery,
    now: u64,
)
    requires
        is_poll_step(
            before,
            in_flight,
            counters,
            dead_letter,
            event,
            after,
            in_flight_after,
            counters_after,
            action,
        ),
        before.phase == PollPhase::Parsing(delivery),
        event == (PollEvent::Parsed { info: None, now }),
    ensures
        in_flight_after == in_flight,
        counters_after == counters.with_reject(),
        after.todo == before.todo,
        after.next_id == before.next_id,
        after.phase matches PollPhase::Rejecting { id, message, forwarding } && {
            &&& id == delivery.id
            &&& forwarding <==> dead_letter is Some
            &&& message.body@ == vstd::utf8::encode_utf8(delivery.body@)
            &&& message.receipt_handle == delivery.receipt_handle
            &&& message.message_group_id == delivery.message_group_id
            &&& message.message_id == delivery.message_id
            &&& message.info.data_source@.len() == 0
            &&& message.info.record_id@.len() == 0
            &&& dead_letter is None ==> action == PollAction::Reject(RejectStep::Deleted)
            &&& dead_letter matches Some(queue) ==> (action matches PollAction::Reject(
                RejectStep::Forward(request),
            ) && request.forwards(message, queue))
        },
        dead_letter is None ==> after.poison == before.poison.push(
            (delivery.id, delivery.receipt_handle@),
        ),
        dead_letter is Some ==> after.poison == before.poison,
{
    vstd::utf8::encode_utf8_valid_utf8(delivery.body@);
}

/// What the loop waits for in each phase, and what it has room for: an event that belongs to
/// the phase, and ids for all the messages it has in hand.
pub proof fn law_loop_takes_what_belongs_to_its_phase(state: PollState, event: PollEvent)
    ensures
        state.phase is Top && event is Check ==> state.expects(event),
        state.phase is Waiting && event is Waited ==> state.expects(event),
        state.phase is Receiving && (event is Received || event is ReceiveFailed || event
            is ReceiveBroken) ==> state.expects(event),
        state.phase is BackingOff && event is BackedOff ==> state.expects(event),
        state.phase is Parsing && event is Parsed ==> state.expects(event),
        state.phase is Sending && (event is Sent || event is SendBroken) ==> state.expects(event),
        state.phase is Rejecting && event is Rejected ==> state.expects(event),
        state.phase is Flushing && event is Flushed ==> state.expects(event),
        event matches PollEvent::Received(messages) ==> (state.has_ids_for(event)
            <==> state.next_id + messages@.len() <= u64::MAX),
        event !is Received ==> (state.has_ids_for(event) <==> state.next_id + state.todo.len()
            <= u64::MAX),
        PollState::initial(state.cap, state.max_messages).next_id == 1,
        PollState::initial(state.cap, state.max_messages).phase is Top,
        PollState::initial(state.cap, state.max_messages).todo.len() == 0,
        PollState::initial(state.cap, state.max_messages).poison.len() == 0,
        PollState::initial(state.cap, state.max_messages).cap == state.cap,
        PollState::initial(state.cap, state.max_messages).max_messages == state.max_messages,
{
}

} // verus!
