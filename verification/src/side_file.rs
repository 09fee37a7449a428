//! The side file of a whole file load: which lines are in it, and in which order.
use vstd::prelude::*;

use crate::loader::{
    books_after, is_consume_step, is_feed_step, law_lines_are_kept_verbatim, ConsumeStep, FeedStep,
    LoadEvent, LoaderState,
};
use crate::reader::{is_read_step, load_event, ReadAction, ReadEvent, ReadPhase};
use crate::record::{LoadCounters, Outcome};
use crate::reject::{file_line, file_of, WriteIo};

verus! {

/// The side file, as a load has filled it so far.
pub struct SideFile {
    /// The rejected lines whose write was not tried yet, as they stand in the input.
    pub rejected: Map<u64, Seq<u8>>,
    /// What the books said to append for each of them.
    pub planned: Map<u64, Seq<u8>>,
    /// The rejected lines whose write succeeded, in order.
    pub lines: Seq<Seq<u8>>,
    /// What was appended.
    pub bytes: Seq<u8>,
}

impl SideFile {
    pub open spec fn empty() -> Self {
        SideFile {
            rejected: Map::empty(),
            planned: Map::empty(),
            lines: Seq::empty(),
            bytes: Seq::empty(),
        }
    }

    pub open spec fn with_reject(self, line_no: u64, line: Seq<u8>, planned: Seq<u8>) -> Self {
        SideFile {
            rejected: self.rejected.insert(line_no, line),
            planned: self.planned.insert(line_no, planned),
            ..self
        }
    }

    /// The side file after `event`, which met the books `books`.
    pub open spec fn after(self, books: LoaderState, event: LoadEvent) -> Self {
        match event {
            LoadEvent::Fed { pending, step: FeedStep::Reject(plan), .. } => self.with_reject(
                pending.line_no,
                vstd::utf8::encode_utf8(pending.line@),
                plan.bytes@,
            ),
            LoadEvent::Finished { outcome, step: ConsumeStep::Reject { plan, .. } } => {
                self.with_reject(
                    outcome.delivery_tag,
                    books.in_flight[outcome.delivery_tag],
                    plan.bytes@,
                )
            },
            LoadEvent::RejectWritten { line_no, io } => SideFile {
                rejected: self.rejected.remove(line_no),
                planned: self.planned.remove(line_no),
                lines: if io is Written {
                    self.lines.push(self.rejected[line_no])
                } else {
                    self.lines
                },
                bytes: if io is Written {
                    self.bytes + self.planned[line_no]
                } else {
                    self.bytes
                },
            },
            _ => self,
        }
    }
}

/// The side file of a load that started from the books `start`, after `events`.
pub open spec fn side_file_of(start: LoaderState, events: Seq<LoadEvent>) -> SideFile
    decreases events.len(),
{
    if events.len() == 0 {
        SideFile::empty()
    } else {
        side_file_of(start, events.drop_last()).after(
            books_after(start, events.drop_last()),
            events.last(),
        )
    }
}

/// `event` can happen: a call hands back what its contract says, and a write is tried only of
/// a line that was rejected.
pub open spec fn can_happen(books: LoaderState, file: SideFile, event: LoadEvent) -> bool {
    match event {
        LoadEvent::Fed { pending, parsed, step } => is_feed_step(books, pending, parsed, step),
        LoadEvent::Finished { outcome, step } => is_consume_step(books, outcome, step),
        LoadEvent::RejectWritten { line_no, io } => file.rejected.contains_key(line_no)
            && books.sink.can_take(io),
        _ => true,
    }
}

/// `events` are a load: each of them can happen after those before it.
pub open spec fn is_load(start: LoaderState, events: Seq<LoadEvent>) -> bool
    decreases events.len(),
{
    events.len() == 0 || is_load(start, events.drop_last()) && can_happen(
        books_after(start, events.drop_last()),
        side_file_of(start, events.drop_last()),
        events.last(),
    )
}

proof fn lemma_plans_are_lines(start: LoaderState, events: Seq<LoadEvent>)
    requires
        is_load(start, events),
    ensures
        forall|line_no: u64| #[trigger]
            side_file_of(start, events).rejected.contains_key(line_no) ==> side_file_of(
                start,
                events,
            ).planned[line_no] == file_line(side_file_of(start, events).rejected[line_no]),
    decreases events.len(),
{
    if events.len() > 0 {
        lemma_plans_are_lines(start, events.drop_last());
    }
}

/// The side file holds the rejected lines. However the events of a load interleave, what was
/// appended are the rejected lines whose write succeeded, in order, each with a line break of
/// its own; and the count of written lines is their number.
pub proof fn law_side_file_holds_the_rejected_lines(start: LoaderState, events: Seq<LoadEvent>)
    requires
        start.sink.written == 0,
        is_load(start, events),
    ensures
        side_file_of(start, events).bytes == file_of(side_file_of(start, events).lines),
        books_after(start, events).sink.written == side_file_of(start, events).lines.len(),
    decreases events.len(),
{
    if events.len() > 0 {
        let earlier = events.drop_last();
        let before = side_file_of(start, earlier);
        law_side_file_holds_the_rejected_lines(start, earlier);
        lemma_plans_are_lines(start, earlier);
        if let LoadEvent::RejectWritten { line_no, io } = events.last() {
            let line = before.rejected[line_no];
            assert(before.lines.push(line).drop_last() =~= before.lines);
        }
    }
}

/// A line that was fed reads `line`.
pub open spec fn was_fed(events: Seq<LoadEvent>, line: Seq<u8>) -> bool {
    exists|k: int|
        0 <= k < events.len() && (#[trigger] events[k] matches LoadEvent::Fed { pending, .. }
            && vstd::utf8::encode_utf8(pending.line@) == line)
}

/// Every line in the side file is one of the input, verbatim: a line that was fed in the
/// course of the load, with its white space and all. So is every line still to be written.
pub proof fn law_side_file_lines_are_verbatim(start: LoaderState, events: Seq<LoadEvent>)
    requires
        start.in_flight == Map::<u64, Seq<u8>>::empty(),
        is_load(start, events),
    ensures
        forall|i: int|
            0 <= i < side_file_of(start, events).lines.len() ==> was_fed(
                events,
                #[trigger] side_file_of(start, events).lines[i],
            ),
        forall|line_no: u64| #[trigger]
            side_file_of(start, events).rejected.contains_key(line_no) ==> was_fed(
                events,
                side_file_of(start, events).rejected[line_no],
            ),
    decreases events.len(),
{
    if events.len() > 0 {
        let earlier = events.drop_last();
        let before = side_file_of(start, earlier);
        let books = books_after(start, earlier);
        let file = side_file_of(start, events);
        law_side_file_lines_are_verbatim(start, earlier);
        assert forall|line: Seq<u8>| #[trigger] was_fed(earlier, line) implies was_fed(
            events,
            line,
        ) by {
            let k = choose|k: int|
                0 <= k < earlier.len() && (#[trigger] earlier[k] matches LoadEvent::Fed {
                    pending,
                    ..
                } && vstd::utf8::encode_utf8(pending.line@) == line);
            assert(events[k] == earlier[k]);
        }
        assert(events[events.len() - 1] == events.last());
        if let LoadEvent::Finished { outcome, step: ConsumeStep::Reject { .. } } = events.last() {
            let tag = outcome.delivery_tag;
            law_lines_are_kept_verbatim(start, earlier, tag);
            let k = choose|k: int|
                0 <= k < earlier.len() && (#[trigger] earlier[k] matches LoadEvent::Fed {
                    pending,
                    ..
                } && pending.line_no == tag && vstd::utf8::encode_utf8(pending.line@)
                    == books.in_flight[tag]);
            assert(earlier[k] is Fed);
            assert(was_fed(earlier, books.in_flight[tag]));
        }
        assert forall|i: int| 0 <= i < file.lines.len() implies was_fed(
            events,
            #[trigger] file.lines[i],
        ) by {
            if i < before.lines.len() {
                assert(was_fed(earlier, before.lines[i]));
            } else {
                let line_no = events.last()->RejectWritten_line_no;
                assert(was_fed(earlier, before.rejected[line_no]));
            }
        }
        assert forall|line_no: u64| #[trigger] file.rejected.contains_key(
            line_no,
        ) implies was_fed(events, file.rejected[line_no]) by {
            if before.rejected.contains_key(line_no) {
                assert(was_fed(earlier, before.rejected[line_no]));
            }
        }
    }
}

/// The line that the reader is rejecting is one that is still to be written.
pub open spec fn knows_reject(file: SideFile, phase: ReadPhase) -> bool {
    phase matches ReadPhase::Rejecting { line_no } ==> file.rejected.contains_key(line_no)
}

/// What the reader does is part of a load: every step of it can happen.
pub proof fn law_read_steps_can_happen(
    file: SideFile,
    before: ReadPhase,
    books: LoaderState,
    counters: LoadCounters,
    event: ReadEvent,
    after: ReadPhase,
    books_after: LoaderState,
    counters_after: LoadCounters,
    action: ReadAction,
)
    requires
        knows_reject(file, before),
        before.has_room_for(books, event),
        is_read_step(
            before,
            books,
            counters,
            event,
            after,
            books_after,
            counters_after,
            action,
        ),
    ensures
        match load_event(before, event, action) {
            Some(done) => can_happen(books, file, done) && knows_reject(
                file.after(books, done),
                after,
            ),
            None => knows_reject(file, after),
        },
{
}

/// What the consumer does is part of a load: a worker's reject of a line that is with the
/// workers makes that line one that is still to be written, until its write is tried.
pub proof fn law_consumer_steps_can_happen(
    file: SideFile,
    books: LoaderState,
    outcome: Outcome,
    step: ConsumeStep,
    io: WriteIo,
)
    requires
        is_consume_step(books, outcome, step),
        step is Reject,
        books.sink.can_take(io),
    ensures
        ({
            let consumed = LoadEvent::Finished { outcome, step };
            let written = LoadEvent::RejectWritten { line_no: outcome.delivery_tag, io };
            &&& can_happen(books, file, consumed)
            &&& can_happen(books.after(consumed), file.after(books, consumed), written)
            &&& file.after(books, consumed).rejected[outcome.delivery_tag]
                == books.in_flight[outcome.delivery_tag]
        }),
{
}

} // verus!
