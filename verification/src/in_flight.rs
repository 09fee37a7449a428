//! Messages that were received and are not settled yet.
use std::collections::HashMap;

use vstd::prelude::*;

use crate::record::RecordInfo;
use crate::visibility::{
    extension_threshold, granted_visibility, visibility_extension, NANOS_PER_SEC,
};

verus! {

broadcast use vstd::std_specs::hash::group_hash_axioms;

/// A received-but-unsettled message.
#[derive(Debug, PartialEq, Eq)]
pub struct SqsInFlight {
    pub receipt_handle: String,
    /// The body as it was received, forwarded verbatim to the dead-letter queue on a reject.
    pub body: Vec<u8>,
    pub info: RecordInfo,
    /// When the message was received, in nanoseconds on a clock that never goes back.
    pub started: u64,
    /// The number of visibility extensions granted so far.
    pub extended: u32,
    /// The group of a message from a FIFO queue, reused on the dead-letter queue.
    pub message_group_id: Option<String>,
    /// The SQS message id, used to deduplicate on a FIFO dead-letter queue.
    pub message_id: Option<String>,
}

/// The nanoseconds from `started` to `now`, none if the clock reads earlier.
pub open spec fn age_nanos(now: u64, started: u64) -> u64 {
    if now >= started {
        (now - started) as u64
    } else {
        0
    }
}

impl SqsInFlight {
    /// The message has been in progress long enough for its next extension.
    pub open spec fn is_due(self, now: u64, long_record_secs: u64) -> bool {
        age_nanos(now, self.started) > extension_threshold(long_record_secs, self.extended)
            * NANOS_PER_SEC
    }

    /// The message with one more extension on its account.
    pub open spec fn extended_once(self) -> Self {
        SqsInFlight { extended: (self.extended + 1) as u32, ..self }
    }
}

/// The messages in flight after the reply to an extension of the message `id`: only one that
/// was granted is put on the message's account, if the message is still in flight.
pub open spec fn messages_after_extension(
    messages: Map<u64, SqsInFlight>,
    id: u64,
    granted: bool,
) -> Map<u64, SqsInFlight> {
    if granted && messages.contains_key(id) {
        messages.insert(id, messages[id].extended_once())
    } else {
        messages
    }
}

/// A message that is due stays due until an extension is granted: if the extension fails, the
/// next heartbeat tries again.
pub proof fn law_failed_extension_is_tried_again(
    messages: Map<u64, SqsInFlight>,
    id: u64,
    now: u64,
    next_beat: u64,
    long_record_secs: u64,
)
    requires
        messages.contains_key(id),
        messages[id].is_due(now, long_record_secs),
        now <= next_beat,
    ensures
        messages_after_extension(messages, id, false).contains_key(id),
        messages_after_extension(messages, id, false)[id].is_due(next_beat, long_record_secs),
{
}

/// A visibility extension to be asked of SQS.
#[derive(Debug, PartialEq, Eq)]
pub struct Extension {
    pub id: u64,
    pub receipt_handle: String,
    /// The new visibility timeout in seconds.
    pub visibility: i32,
    /// How often the message has been extended once this extension is granted.
    pub times: u32,
    pub info: RecordInfo,
    /// The age of the message in nanoseconds.
    pub age: u64,
}

impl Extension {
    /// The extension is the one that the message `id`, due at `now`, gets.
    pub open spec fn is_for(
        self,
        id: u64,
        message: SqsInFlight,
        now: u64,
        long_record_secs: u64,
    ) -> bool {
        &&& self.id == id
        &&& self.receipt_handle == message.receipt_handle
        &&& self.visibility == granted_visibility(long_record_secs, message.extended)
        &&& self.times == message.extended + 1
        &&& self.info == message.info
        &&& self.age == age_nanos(now, message.started)
    }
}

/// The outcome of one heartbeat.
#[derive(Debug, PartialEq, Eq)]
pub struct HeartbeatReport {
    pub extensions: Vec<Extension>,
    /// At least as many records are stuck as there are workers.
    pub all_stuck: bool,
}

/// `extensions` holds one extension for each message of `messages` that is due, and no other.
pub open spec fn are_extensions(
    extensions: Seq<Extension>,
    messages: Map<u64, SqsInFlight>,
    now: u64,
    long_record_secs: u64,
) -> bool {
    &&& forall|i: int|
        0 <= i < extensions.len() ==> {
            let id = (#[trigger] extensions[i]).id;
            &&& messages.contains_key(id)
            &&& messages[id].is_due(now, long_record_secs)
            &&& extensions[i].is_for(id, messages[id], now, long_record_secs)
        }
    &&& forall|i: int, j: int|
        0 <= i < j < extensions.len() ==> extensions[i].id != extensions[j].id
    &&& forall|id: u64| #[trigger]
        messages.contains_key(id) && messages[id].is_due(now, long_record_secs) ==> exists|i: int|
            0 <= i < extensions.len() && (#[trigger] extensions[i]).id == id
}

/// The messages in flight, by the id that each was given when it was received.
pub struct InFlight {
    entries: HashMap<u64, SqsInFlight>,
}

impl View for InFlight {
    type V = Map<u64, SqsInFlight>;

    closed spec fn view(&self) -> Map<u64, SqsInFlight> {
        self.entries@
    }
}

impl InFlight {
    pub fn new() -> (in_flight: Self)
        ensures
            in_flight@ == Map::<u64, SqsInFlight>::empty(),
    {
        InFlight { entries: HashMap::new() }
    }

    pub fn len(&self) -> (n: usize)
        ensures
            n == self@.len(),
    {
        self.entries.len()
    }

    pub fn insert(&mut self, id: u64, message: SqsInFlight)
        ensures
            final(self)@ == old(self)@.insert(id, message),
    {
        self.entries.insert(id, message);
    }

    /// Takes the message `id` out, if it is there.
    pub fn remove(&mut self, id: u64) -> (message: Option<SqsInFlight>)
        ensures
            final(self)@ == old(self)@.remove(id),
            message is Some <==> old(self)@.contains_key(id),
            message matches Some(m) ==> m == old(self)@[id],
    {
        self.entries.remove(&id)
    }

    /// The ids of the messages in flight, each once.
    pub fn ids(&self) -> (ids: Vec<u64>)
        ensures
            ids@.no_duplicates(),
            forall|id: u64| ids@.contains(id) <==> self@.contains_key(id),
    {
        let mut ids: Vec<u64> = Vec::new();
        let ghost keys = vstd::std_specs::iter::IteratorSpec::remaining(&self.entries.keys());
        for id in it: self.entries.keys()
            invariant
                it.seq() == keys,
                ids.len() == it.index(),
                forall|k: int| 0 <= k < ids.len() ==> ids@[k] == *keys[k],
        {
            ids.push(*id);
        }
        proof {
            assert(keys.unref() =~= ids@);
            assert(ids@.to_set() == self@.dom());
            assert forall|id: u64| ids@.contains(id) <==> self@.contains_key(id) by {
                assert(ids@.to_set().contains(id) <==> ids@.contains(id));
                assert(self@.dom().contains(id) <==> self@.contains_key(id));
            }
            assert forall|i: int, j: int|
                0 <= i < ids@.len() && 0 <= j < ids@.len() && i != j implies ids@[i]
                != ids@[j] by {
                assert(keys[i] != keys[j]);
            }
        }
        ids
    }

    /// One heartbeat at `now`: reports the extensions to ask for, one for every message past
    /// its current threshold, and whether the records that are due are enough to occupy every
    /// worker. Nothing is granted yet.
    pub fn extend_long_records(
        &self,
        now: u64,
        long_record_secs: u64,
        max_workers: usize,
    ) -> (report: HeartbeatReport)
        requires
            forall|id: u64| #[trigger]
                self@.contains_key(id) && self@[id].is_due(now, long_record_secs)
                    ==> self@[id].extended < u32::MAX,
        ensures
            are_extensions(report.extensions@, self@, now, long_record_secs),
            forall|e: int|
                0 <= e < report.extensions@.len() ==> self@.contains_key(
                    (#[trigger] report.extensions@[e]).id,
                ) && now > self@[report.extensions@[e].id].started,
            report.all_stuck == (report.extensions@.len() >= max_workers),
    {
        let ids = self.ids();
        let mut extensions: Vec<Extension> = Vec::new();
        let mut i: usize = 0;
        while i < ids.len()
            invariant
                ids@.no_duplicates(),
                forall|id: u64| ids@.contains(id) <==> self@.contains_key(id),
                forall|id: u64| #[trigger]
                    self@.contains_key(id) && self@[id].is_due(now, long_record_secs)
                        ==> self@[id].extended < u32::MAX,
                i <= ids.len(),
                forall|e: int|
                    0 <= e < extensions.len() ==> {
                        let id = (#[trigger] extensions@[e]).id;
                        &&& self@.contains_key(id)
                        &&& self@[id].is_due(now, long_record_secs)
                        &&& extensions@[e].is_for(id, self@[id], now, long_record_secs)
                        &&& exists|k: int| 0 <= k < i && ids@[k] == id
                    },
                forall|e: int, f: int|
                    0 <= e < f < extensions.len() ==> extensions@[e].id != extensions@[f].id,
                forall|k: int|
                    0 <= k < i && self@[#[trigger] ids@[k]].is_due(now, long_record_secs)
                        ==> exists|e: int|
                        0 <= e < extensions.len() && (#[trigger] extensions@[e]).id == ids@[k],
            decreases ids.len() - i,
        {
            let id: u64 = ids[i];
            assert(ids@.contains(id));
            let ghost earlier = extensions@;
            if let Some(message) = self.entries.get(&id) {
                let age: u64 = if now >= message.started {
                    now - message.started
                } else {
                    0
                };
                let secs: u64 = age / NANOS_PER_SEC;
                let subsec_nanos: u32 = (age % NANOS_PER_SEC) as u32;
                if let Some(visibility) = visibility_extension(
                    secs,
                    subsec_nanos,
                    long_record_secs,
                    message.extended,
                ) {
                    extensions.push(
                        Extension {
                            id,
                            receipt_handle: message.receipt_handle.clone(),
                            visibility: visibility as i32,
                            times: message.extended + 1,
                            info: message.info.clone(),
                            age,
                        },
                    );
                    proof {
                        assert forall|e: int| 0 <= e < earlier.len() implies (
                        #[trigger] earlier[e]).id != id by {
                            let k = choose|k: int| 0 <= k < i && ids@[k] == earlier[e].id;
                            assert(ids@[k] != ids@[i as int]);
                        }
                        assert(extensions@ =~= earlier.push(extensions@.last()));
                        assert(extensions@.last().is_for(id, self@[id], now, long_record_secs));
                    }
                }
            }
            proof {
                assert forall|k: int|
                    0 <= k < i + 1 && self@[#[trigger] ids@[k]].is_due(
                        now,
                        long_record_secs,
                    ) implies exists|e: int|
                    0 <= e < extensions.len() && (#[trigger] extensions@[e]).id == ids@[k] by {
                    if k < i {
                        let e = choose|e: int|
                            0 <= e < earlier.len() && (#[trigger] earlier[e]).id == ids@[k];
                        assert(extensions@[e].id == ids@[k]);
                    } else {
                        assert(extensions@[extensions.len() - 1].id == id);
                    }
                }
            }
            i = i + 1;
        }
        proof {
            assert forall|id: u64| #[trigger]
                self@.contains_key(id) && self@[id].is_due(
                    now,
                    long_record_secs,
                ) implies exists|e: int|
                0 <= e < extensions.len() && (#[trigger] extensions@[e]).id == id by {
                assert(ids@.contains(id));
                let k = choose|k: int| 0 <= k < ids@.len() && ids@[k] == id;
                assert(self@[ids@[k]].is_due(now, long_record_secs));
            }
        }
        let all_stuck = extensions.len() >= max_workers;
        HeartbeatReport { extensions, all_stuck }
    }

    /// Takes note of the reply to an extension of the message `id`. Only a granted one counts;
    /// a message that was settled in the meantime is not touched.
    pub fn note_extension(&mut self, id: u64, granted: bool)
        requires
            granted && old(self)@.contains_key(id) ==> old(self)@[id].extended < u32::MAX,
        ensures
            final(self)@ == messages_after_extension(old(self)@, id, granted),
            final(self)@.dom() == old(self)@.dom(),
            !granted ==> final(self)@ == old(self)@,
            forall|other: u64| #[trigger]
                old(self)@.contains_key(other) && other != id ==> final(self)@[other] == old(self)@[other],
            granted && old(self)@.contains_key(id) ==> final(self)@[id].extended == old(self)@[id].extended + 1 && final(self)@[id] == (SqsInFlight {
                extended: final(self)@[id].extended,
                ..old(self)@[id]
            }),
    {
        if granted {
            match self.entries.remove(&id) {
                Some(mut message) => {
                    message.extended = message.extended + 1;
                    self.entries.insert(id, message);
                    assert(self@ =~= messages_after_extension(old(self)@, id, granted));
                },
                None => {
                    assert(self@ =~= old(self)@);
                },
            }
        }
    }
}

/// What a heartbeat asks for, written out: an extension for exactly those messages that have
/// been in progress for longer than `long_record_secs` seconds for every extension they had and
/// once more, one for each; and it asks for `long_record_secs` seconds for every extension they
/// had and two more times, but no more than twelve hours.
pub proof fn law_heartbeat_asks_for_what_is_overdue(
    extensions: Seq<Extension>,
    messages: Map<u64, SqsInFlight>,
    now: u64,
    long_record_secs: u64,
)
    requires
        are_extensions(extensions, messages, now, long_record_secs),
    ensures
        forall|id: u64| #[trigger]
            messages.contains_key(id) ==> ((exists|e: int|
                0 <= e < extensions.len() && (#[trigger] extensions[e]).id == id) <==> now
                - messages[id].started > long_record_secs * (messages[id].extended + 1)
                * 1_000_000_000),
        forall|e: int|
            0 <= e < extensions.len() ==> {
                let extension = #[trigger] extensions[e];
                let message = messages[extension.id];
                let wish = long_record_secs * (message.extended + 2);
                &&& messages.contains_key(extension.id)
                &&& extension.receipt_handle == message.receipt_handle
                &&& extension.info == message.info
                &&& extension.times == message.extended + 1
                &&& extension.age == now - message.started
                &&& extension.visibility == if wish < 43_200 {
                    wish
                } else {
                    43_200
                }
            },
        forall|e: int, f: int|
            0 <= e < f < extensions.len() ==> extensions[e].id != extensions[f].id,
{
    assert forall|id: u64| #[trigger] messages.contains_key(id) implies (messages[id].is_due(
        now,
        long_record_secs,
    ) <==> now - messages[id].started > long_record_secs * (messages[id].extended + 1)
        * 1_000_000_000) by {
        let extended = messages[id].extended;
        assert(long_record_secs * (extended + 1) >= 0) by (nonlinear_arith);
    }
    assert forall|e: int| 0 <= e < extensions.len() implies (now - messages[(
    #[trigger] extensions[e]).id].started > 0) by {
        let extended = messages[extensions[e].id].extended;
        assert(messages.contains_key(extensions[e].id));
        assert(long_record_secs * (extended + 1) >= 0) by (nonlinear_arith);
    }
}

/// An extension that was granted adds one to the account of its message, and nothing else
/// changes: no other message, and nothing else about this one. One that was not granted changes
/// nothing.
pub proof fn law_granted_extension_counts_once(
    messages: Map<u64, SqsInFlight>,
    id: u64,
    other: u64,
)
    requires
        messages.contains_key(id) ==> messages[id].extended < u32::MAX,
    ensures
        messages_after_extension(messages, id, false) == messages,
        !messages.contains_key(id) ==> messages_after_extension(messages, id, true) == messages,
        messages_after_extension(messages, id, true).dom() == messages.dom(),
        other != id ==> messages_after_extension(messages, id, true)[other] == messages[other],
        messages.contains_key(id) ==> {
            let after = messages_after_extension(messages, id, true)[id];
            &&& after.extended == messages[id].extended + 1
            &&& after.receipt_handle == messages[id].receipt_handle
            &&& after.body == messages[id].body
            &&& after.info == messages[id].info
            &&& after.started == messages[id].started
            &&& after.message_group_id == messages[id].message_group_id
            &&& after.message_id == messages[id].message_id
        },
{
    assert(messages_after_extension(messages, id, true).dom() =~= messages.dom());
}

} // verus!
