//! Deleting settled messages in batches.
use vstd::prelude::*;

use crate::text::{decimal, decimal_text, law_decimal_is_injective};

verus! {

/// SQS's hard maximum of entries per `DeleteMessageBatch`.
pub const DELETE_BATCH_MAX: usize = 10;

/// One entry of a `DeleteMessageBatch` request.
#[derive(Debug, PartialEq, Eq)]
pub struct DeleteEntry {
    pub id: String,
    pub receipt_handle: String,
}

/// Accumulates receipt handles and hands them out in batches.
#[derive(Debug)]
pub struct DeleteBatcher {
    pending: Vec<(u64, String)>,
}

/// The messages to delete, by id and receipt handle, in the order they were settled.
pub open spec fn pending_view(pending: Seq<(u64, String)>) -> Seq<(u64, Seq<char>)> {
    pending.map_values(|p: (u64, String)| (p.0, p.1@))
}

impl View for DeleteBatcher {
    type V = Seq<(u64, Seq<char>)>;

    closed spec fn view(&self) -> Seq<(u64, Seq<char>)> {
        pending_view(self.pending@)
    }
}

impl Default for DeleteBatcher {
    fn default() -> (batcher: Self)
        ensures
            batcher@ == Seq::<(u64, Seq<char>)>::empty(),
    {
        let batcher = DeleteBatcher { pending: Vec::new() };
        assert(batcher@ =~= Seq::empty());
        batcher
    }
}

impl DeleteEntry {
    /// The entry deletes this message.
    pub open spec fn deletes(self, message: (u64, Seq<char>)) -> bool {
        self.id@ == decimal_text(message.0 as nat) && self.receipt_handle@ == message.1
    }
}

/// The number of entries in batch `b` of `n` messages.
pub open spec fn batch_len(n: nat, b: int) -> int {
    if n - b * DELETE_BATCH_MAX < DELETE_BATCH_MAX {
        n - b * DELETE_BATCH_MAX
    } else {
        DELETE_BATCH_MAX as int
    }
}

/// `batches` holds one entry for each of `messages`, in order, in as many full batches
/// as there are and one more for the rest.
pub open spec fn is_batching(
    batches: Seq<Vec<DeleteEntry>>,
    messages: Seq<(u64, Seq<char>)>,
) -> bool {
    &&& batches.len() == (messages.len() + DELETE_BATCH_MAX - 1) / DELETE_BATCH_MAX as int
    &&& forall|b: int|
        0 <= b < batches.len() ==> (#[trigger] batches[b])@.len() == batch_len(messages.len(), b)
    &&& forall|b: int, e: int|
        0 <= b < batches.len() && 0 <= e < batches[b]@.len() ==> (#[trigger] batches[b]@[e]).deletes(
            messages[b * DELETE_BATCH_MAX + e],
        )
}

impl DeleteBatcher {
    /// Queues the delete of the message `id` with this receipt handle.
    pub fn push(&mut self, id: u64, receipt_handle: String)
        ensures
            final(self)@ == old(self)@.push((id, receipt_handle@)),
    {
        self.pending.push((id, receipt_handle));
        assert(self@ =~= old(self)@.push((id, receipt_handle@)));
    }

    pub fn len(&self) -> (n: usize)
        ensures
            n == self@.len(),
    {
        self.pending.len()
    }

    fn next_batch(&mut self) -> (batch: Vec<DeleteEntry>)
        ensures
            batch@.len() == batch_len(old(self)@.len(), 0),
            forall|e: int|
                0 <= e < batch@.len() ==> (#[trigger] batch@[e]).deletes(old(self)@[e]),
            final(self)@ == old(self)@.skip(batch@.len() as int),
    {
        let take: usize = if self.pending.len() < DELETE_BATCH_MAX {
            self.pending.len()
        } else {
            DELETE_BATCH_MAX
        };
        let mut rest = self.pending.split_off(take);
        std::mem::swap(&mut self.pending, &mut rest);
        let mut batch: Vec<DeleteEntry> = Vec::new();
        let mut i: usize = 0;
        while i < rest.len()
            invariant
                i <= rest.len(),
                batch.len() == i,
                forall|e: int|
                    0 <= e < i ==> (#[trigger] batch@[e]).deletes((rest@[e].0, rest@[e].1@)),
            decreases rest.len() - i,
        {
            batch.push(DeleteEntry { id: decimal(rest[i].0), receipt_handle: rest[i].1.clone() });
            i = i + 1;
        }
        assert(self@ =~= old(self)@.skip(take as int));
        assert forall|e: int| 0 <= e < batch@.len() implies (#[trigger] batch@[e]).deletes(
            old(self)@[e],
        ) by {
            assert(rest@[e] == old(self).pending@[e]);
        }
        batch
    }

    /// Takes everything that is queued, in batches of at most [`DELETE_BATCH_MAX`]. Nothing
    /// stays queued: a delete that fails is not tried again, and the message comes back
    /// when its visibility timeout ends.
    pub fn flush(&mut self) -> (batches: Vec<Vec<DeleteEntry>>)
        ensures
            final(self)@ == Seq::<(u64, Seq<char>)>::empty(),
            is_batching(batches@, old(self)@),
    {
        let mut batches: Vec<Vec<DeleteEntry>> = Vec::new();
        let ghost messages = self@;
        assert(messages.skip(0) =~= messages);
        while self.len() > 0
            invariant
                messages == old(self)@,
                batches.len() * DELETE_BATCH_MAX <= messages.len() || self@.len() == 0,
                self@.len() == 0 || self@ == messages.skip(
                    batches.len() * DELETE_BATCH_MAX as int,
                ),
                self@.len() == 0 ==> batches.len() == (messages.len() + DELETE_BATCH_MAX - 1)
                    / DELETE_BATCH_MAX as int,
                forall|b: int|
                    0 <= b < batches.len() ==> (#[trigger] batches@[b])@.len() == batch_len(
                        messages.len(),
                        b,
                    ),
                forall|b: int, e: int|
                    0 <= b < batches.len() && 0 <= e < batches@[b]@.len() ==> (
                    #[trigger] batches@[b]@[e]).deletes(messages[b * DELETE_BATCH_MAX + e]),
            decreases self@.len(),
        {
            let ghost done = batches.len() * DELETE_BATCH_MAX;
            let ghost before = self@;
            let batch = self.next_batch();
            proof {
                assert forall|e: int| 0 <= e < batch@.len() implies (#[trigger] batch@[e]).deletes(
                    messages[done + e],
                ) by {
                    assert(before[e] == messages[done + e]);
                }
                if batch@.len() == DELETE_BATCH_MAX {
                    assert(self@ =~= messages.skip(done + DELETE_BATCH_MAX));
                }
            }
            batches.push(batch);
        }
        assert(self@ =~= Seq::empty());
        batches
    }
}

/// Batching neither loses nor repeats: every message is in exactly one place.
pub proof fn law_every_message_is_in_one_batch(
    batches: Seq<Vec<DeleteEntry>>,
    messages: Seq<(u64, Seq<char>)>,
    i: int,
)
    requires
        is_batching(batches, messages),
        0 <= i < messages.len(),
    ensures
        0 <= i / (DELETE_BATCH_MAX as int) < batches.len(),
        i % (DELETE_BATCH_MAX as int) < batches[i / (DELETE_BATCH_MAX as int)]@.len(),
        batches[i / (DELETE_BATCH_MAX as int)]@[i % (DELETE_BATCH_MAX as int)].deletes(messages[i]),
{
    let b = i / (DELETE_BATCH_MAX as int);
    let e = i % (DELETE_BATCH_MAX as int);
    assert(batches[b]@.len() == batch_len(messages.len(), b));
    assert(batches[b]@[e].deletes(messages[b * DELETE_BATCH_MAX + e]));
}

/// No request breaks SQS's rules for a batch: it has between one and
/// [`DELETE_BATCH_MAX`] entries, and no two of them share an id, if no two messages do.
pub proof fn law_batches_are_acceptable(
    batches: Seq<Vec<DeleteEntry>>,
    messages: Seq<(u64, Seq<char>)>,
    b: int,
)
    requires
        is_batching(batches, messages),
        forall|i: int, j: int| 0 <= i < j < messages.len() ==> messages[i].0 != messages[j].0,
        0 <= b < batches.len(),
    ensures
        1 <= batches[b]@.len() <= DELETE_BATCH_MAX,
        forall|i: int, j: int|
            0 <= i < j < batches[b]@.len() ==> batches[b]@[i].id@ != batches[b]@[j].id@,
{
    assert(batches[b]@.len() == batch_len(messages.len(), b));
    assert forall|i: int, j: int| 0 <= i < j < batches[b]@.len() implies batches[b]@[i].id@
        != batches[b]@[j].id@ by {
        let m = messages[b * DELETE_BATCH_MAX + i];
        let n = messages[b * DELETE_BATCH_MAX + j];
        assert(batches[b]@[i].deletes(m));
        assert(batches[b]@[j].deletes(n));
        if batches[b]@[i].id@ == batches[b]@[j].id@ {
            law_decimal_is_injective(m.0 as nat, n.0 as nat);
        }
    }
}

/// Batches tell which messages they delete, and in which order.
pub proof fn law_batches_tell_what_they_delete(
    batches: Seq<Vec<DeleteEntry>>,
    a: Seq<(u64, Seq<char>)>,
    b: Seq<(u64, Seq<char>)>,
)
    requires
        is_batching(batches, a),
        is_batching(batches, b),
    ensures
        a == b,
{
    if batches.len() > 0 {
        let last = batches.len() - 1;
        assert(batches[last]@.len() == batch_len(a.len(), last));
        assert(batches[last]@.len() == batch_len(b.len(), last));
    }
    assert(a.len() == b.len());
    assert forall|i: int| 0 <= i < a.len() implies a[i] == b[i] by {
        law_every_message_is_in_one_batch(batches, a, i);
        law_every_message_is_in_one_batch(batches, b, i);
        law_decimal_is_injective(a[i].0 as nat, b[i].0 as nat);
    }
    assert(a =~= b);
}

/// Batches take the queue in order, ten at a time. The `i`-th message of the queue is entry
/// `i % 10` of batch `i / 10`, under its id in decimal and with its receipt handle; all batches
/// are full but the last, which has the rest; and there are no other entries.
pub proof fn law_batches_take_the_queue_in_order(
    batches: Seq<Vec<DeleteEntry>>,
    messages: Seq<(u64, Seq<char>)>,
)
    requires
        is_batching(batches, messages),
    ensures
        messages.len() == 0 ==> batches.len() == 0,
        messages.len() > 0 ==> 10 * (batches.len() - 1) < messages.len() <= 10 * batches.len(),
        forall|b: int| 0 <= b < batches.len() - 1 ==> (#[trigger] batches[b])@.len() == 10,
        batches.len() > 0 ==> batches.last()@.len() == messages.len() - 10 * (batches.len() - 1),
        forall|i: int|
            0 <= i < messages.len() ==> batches[i / 10]@[i % 10].receipt_handle@
                == (#[trigger] messages[i]).1 && batches[i / 10]@[i % 10].id@ == decimal_text(
                messages[i].0 as nat,
            ),
{
    assert(DELETE_BATCH_MAX == 10);
    assert forall|b: int| 0 <= b < batches.len() - 1 implies (#[trigger] batches[b])@.len()
        == 10 by {
        assert(batches[b]@.len() == batch_len(messages.len(), b));
    }
    if batches.len() > 0 {
        assert(batches[batches.len() - 1]@.len() == batch_len(
            messages.len(),
            batches.len() - 1,
        ));
    }
    assert forall|i: int| 0 <= i < messages.len() implies batches[i / 10]@[i % 10].receipt_handle@
        == (#[trigger] messages[i]).1 && batches[i / 10]@[i % 10].id@ == decimal_text(
        messages[i].0 as nat,
    ) by {
        law_every_message_is_in_one_batch(batches, messages, i);
    }
}

} // verus!
