//! Loading newline-delimited records from a file.
//!
//! A reader feeds the lines of the file to the worker pool, and a consumer takes the
//! workers' outcomes. Both keep their books here: which lines are complete, which are
//! being worked on, and which were rejected.
use std::collections::HashMap;

use vstd::prelude::*;
use vstd::string::*;

use crate::record::{Action, LoadCounters, LoadItem, Outcome, RecordInfo};
use crate::reject::{RejectSink, SinkState, WriteIo, WritePlan};
use crate::resume::{is_watermark, leaves_a_gap, lines_before, ResumeTracker};
use crate::text::{
    is_white_space, law_trimming_takes_white_space_off_both_ends, trim, trimmed,
};

verus! {

broadcast use vstd::std_specs::hash::group_hash_axioms;

/// How often progress is reported, in lines read.
pub const PROGRESS_EVERY: u64 = 50_000;

/// The books of a file load.
pub struct FileLoader {
    skip: u64,
    line_no: u64,
    want_info: bool,
    resume: ResumeTracker,
    in_flight: HashMap<u64, Vec<u8>>,
    sink: RejectSink,
}

/// What the books of a file load say.
pub struct LoaderState {
    /// The number of lines at the start of the file that this run does not look at.
    pub skip: u64,
    /// The number of lines read, the skipped ones included.
    pub line_no: u64,
    /// Whether the engine's responses are to be printed.
    pub want_info: bool,
    /// The lines that are complete, those before the start included.
    pub done: Set<u64>,
    /// The lines that are with the workers, as they stand in the file.
    pub in_flight: Map<u64, Seq<u8>>,
    pub sink: SinkState,
}

/// A line that is to be parsed.
#[derive(Debug, PartialEq, Eq)]
pub struct PendingLine {
    pub line_no: u64,
    /// The line as it stands in the file.
    pub line: String,
    /// The record on it: the line without its surrounding white space.
    pub record: String,
}

/// What to do with a line that was read.
#[derive(Debug, PartialEq, Eq)]
pub enum LineStep {
    /// It belongs to the part of the file that is skipped.
    Skipped,
    /// There is nothing on it.
    Blank,
    /// Parse the record on it.
    Parse(PendingLine),
}

/// What to do with a record that was parsed, or could not be.
#[derive(Debug, PartialEq, Eq)]
pub enum FeedStep {
    /// Hand it to the worker pool.
    Dispatch(LoadItem),
    /// Write its line to the side file.
    Reject(WritePlan),
}

/// What to do about a worker's outcome.
#[derive(Debug, PartialEq, Eq)]
pub enum ConsumeStep {
    /// The record was added; the response is to be printed, if there is one.
    Added { response: Option<String> },
    /// Write the line to the side file.
    Reject { line: Vec<u8>, plan: WritePlan },
    /// The record was rejected, but its line is not with the workers.
    RejectUnknown,
    /// The engine failed. The line did not load.
    Fatal(String),
}

impl LoaderState {
    /// The books at the start of a run.
    pub open spec fn initial(skip: u64, want_info: bool, reject_path: Seq<char>) -> Self {
        LoaderState {
            skip,
            line_no: 0,
            want_info,
            done: lines_before((skip + 1) as u64),
            in_flight: Map::empty(),
            sink: SinkState { path: reject_path, open: false, written: 0 },
        }
    }

    /// `line` may be completed: some line number stays open.
    pub open spec fn can_complete(self, line: u64) -> bool {
        leaves_a_gap(self.done.insert(line))
    }

    pub open spec fn with_done(self, line: u64) -> Self {
        LoaderState { done: self.done.insert(line), ..self }
    }

    /// The number of the line that is read next.
    pub open spec fn next_line(self) -> u64 {
        (self.line_no + 1) as u64
    }

    /// The next line, if it reads `line`, is blank and not skipped.
    pub open spec fn next_is_blank(self, line: Seq<char>) -> bool {
        self.next_line() > self.skip && trimmed(line).len() == 0
    }

    /// The books after the next line, `line`, was read.
    pub open spec fn after_line(self, line: Seq<char>) -> Self {
        let counted = LoaderState { line_no: self.next_line(), ..self };
        if self.next_is_blank(line) {
            counted.with_done(self.next_line())
        } else {
            counted
        }
    }

    /// The books after the record on `line` was parsed.
    pub open spec fn after_parsed(self, line_no: u64, line: Seq<char>) -> Self {
        LoaderState {
            in_flight: self.in_flight.insert(line_no, vstd::utf8::encode_utf8(line)),
            ..self
        }
    }

    /// The books after a line was fed. One whose record could not be parsed (`None`) changes
    /// nothing until it is written to the side file.
    pub open spec fn after_fed(self, pending: PendingLine, parsed: Option<RecordInfo>) -> Self {
        match parsed {
            Some(_) => self.after_parsed(pending.line_no, pending.line@),
            None => self,
        }
    }

    /// The books after the worker pool did not take a line.
    pub open spec fn after_send_failed(self, line_no: u64) -> Self {
        LoaderState { in_flight: self.in_flight.remove(line_no), ..self }
    }

    /// The books after an attempt to write a rejected line to the side file.
    pub open spec fn after_reject_written(self, line_no: u64, io: WriteIo) -> Self {
        LoaderState { sink: self.sink.after(io), ..self.with_done(line_no) }
    }

    /// An outcome completes its line at once: the record was added, or it was rejected and
    /// there is no line to write.
    pub open spec fn outcome_completes(self, tag: u64, action: Action) -> bool {
        match action {
            Action::Ack(_) => true,
            Action::RejectNoRequeue => !self.in_flight.contains_key(tag),
            Action::Fatal(_) => false,
        }
    }

    /// The books after a worker's outcome.
    pub open spec fn after_outcome(self, tag: u64, action: Action) -> Self {
        let returned = LoaderState { in_flight: self.in_flight.remove(tag), ..self };
        if self.outcome_completes(tag, action) {
            returned.with_done(tag)
        } else {
            returned
        }
    }
}

/// The counters after the attempt to parse a record.
pub open spec fn counters_after_parse(
    counters: LoadCounters,
    parsed: Option<RecordInfo>,
) -> LoadCounters {
    match parsed {
        Some(_) => counters,
        None => counters.with_reject(),
    }
}

/// The counters after a worker's outcome.
pub open spec fn counters_after_result(counters: LoadCounters, action: Action) -> LoadCounters {
    match action {
        Action::Ack(_) => counters.with_add(),
        Action::RejectNoRequeue => counters.with_reject(),
        Action::Fatal(_) => counters.with_error(),
    }
}

impl View for FileLoader {
    type V = LoaderState;

    closed spec fn view(&self) -> LoaderState {
        LoaderState {
            skip: self.skip,
            line_no: self.line_no,
            want_info: self.want_info,
            done: self.resume@,
            in_flight: self.in_flight@.map_values(|line: Vec<u8>| line@),
            sink: self.sink@,
        }
    }
}

pub open spec fn is_line_step(state: LoaderState, line: Seq<char>, step: LineStep) -> bool {
    if state.next_line() <= state.skip {
        step is Skipped
    } else if trimmed(line).len() == 0 {
        step is Blank
    } else {
        step matches LineStep::Parse(pending) && pending.line_no == state.next_line()
            && pending.line@ == line && pending.record@ == trimmed(line)
    }
}

pub open spec fn is_feed_step(
    state: LoaderState,
    pending: PendingLine,
    parsed: Option<RecordInfo>,
    step: FeedStep,
) -> bool {
    match parsed {
        Some(info) => step matches FeedStep::Dispatch(item) && item.delivery_tag == pending.line_no
            && item.body@ == vstd::utf8::encode_utf8(pending.record@) && item.info == info,
        None => step matches FeedStep::Reject(plan) && plan.writes(
            vstd::utf8::encode_utf8(pending.line@),
            state.sink,
        ),
    }
}

pub open spec fn is_consume_step(state: LoaderState, outcome: Outcome, step: ConsumeStep) -> bool {
    let tag = outcome.delivery_tag;
    match outcome.action {
        Action::Ack(response) => step == (ConsumeStep::Added {
            response: if state.want_info {
                response
            } else {
                None
            },
        }),
        Action::RejectNoRequeue => if state.in_flight.contains_key(tag) {
            step matches ConsumeStep::Reject { line, plan } && line@ == state.in_flight[tag]
                && plan.writes(state.in_flight[tag], state.sink)
        } else {
            step is RejectUnknown
        },
        Action::Fatal(reason) => step == ConsumeStep::Fatal(reason),
    }
}

impl FileLoader {
    pub closed spec fn wf(&self) -> bool {
        self.resume.wf() && self.resume@.contains(0)
    }

    /// The books of a run that skips the first `skip` lines.
    pub fn new(skip: u64, want_info: bool, reject_path: String) -> (loader: Self)
        requires
            skip < u64::MAX,
        ensures
            loader.wf(),
            loader@ == LoaderState::initial(skip, want_info, reject_path@),
    {
        let loader = FileLoader {
            skip,
            line_no: 0,
            want_info,
            resume: ResumeTracker::new(skip + 1),
            in_flight: HashMap::new(),
            sink: RejectSink::new(reject_path),
        };
        assert(loader@.in_flight =~= Map::empty());
        loader
    }

    /// Takes the next line of the file. A skipped line is only counted; a blank one is
    /// complete at once; anything else is to be parsed.
    pub fn read_line(&mut self, line: &str) -> (step: LineStep)
        requires
            old(self).wf(),
            old(self)@.line_no < u64::MAX,
            old(self)@.next_is_blank(line@) ==> old(self)@.can_complete(old(self)@.next_line()),
        ensures
            final(self).wf(),
            final(self)@ == old(self)@.after_line(line@),
            is_line_step(old(self)@, line@, step),
            final(self)@.line_no == old(self)@.line_no + 1,
            step is Skipped <==> old(self)@.line_no < old(self)@.skip,
            step is Blank ==> final(self)@.done == old(self)@.done.insert(final(self)@.line_no),
            step !is Blank ==> final(self)@.done == old(self)@.done,
            step matches LineStep::Parse(pending) ==> pending.line@ == line@ && pending.line_no
                == final(self)@.line_no && pending.record@ == trimmed(line@)
                && pending.record@.len() > 0,
    {
        self.line_no = self.line_no + 1;
        if self.line_no <= self.skip {
            return LineStep::Skipped;
        }
        let record = trim(line);
        if record.is_empty() {
            self.resume.complete(self.line_no);
            return LineStep::Blank;
        }
        LineStep::Parse(
            PendingLine {
                line_no: self.line_no,
                line: line.to_string(),
                record: record.to_string(),
            },
        )
    }

    /// Whether the line just read is one at which progress is reported.
    pub fn progress_due(&self) -> (due: bool)
        ensures
            due == (self@.line_no > self@.skip && self@.line_no % PROGRESS_EVERY == 0),
            due == (self@.line_no > self@.skip && self@.line_no % 50_000 == 0),
    {
        self.line_no > self.skip && self.line_no % PROGRESS_EVERY == 0
    }

    /// Goes on with a line once its record was parsed, or could not be (`None`). The line
    /// is in flight before it is handed over, so that its outcome finds it.
    pub fn feed(
        &mut self,
        pending: PendingLine,
        parsed: Option<RecordInfo>,
        counters: &mut LoadCounters,
    ) -> (step: FeedStep)
        requires
            old(self).wf(),
        ensures
            final(self).wf(),
            final(self)@ == old(self)@.after_fed(pending, parsed),
            *final(counters) == counters_after_parse(*old(counters), parsed),
            step is Dispatch <==> parsed is Some,
            final(self)@.done == old(self)@.done,
            is_feed_step(old(self)@, pending, parsed, step),
    {
        let line = pending.line.as_str().as_bytes_vec();
        match parsed {
            Some(info) => {
                self.in_flight.insert(pending.line_no, line);
                assert(self@.in_flight =~= old(self)@.in_flight.insert(pending.line_no, line@));
                let body = pending.record.as_str().as_bytes_vec();
                FeedStep::Dispatch(LoadItem { delivery_tag: pending.line_no, body, info })
            },
            None => {
                counters.count_reject();
                FeedStep::Reject(self.sink.write_line(line.as_slice()))
            },
        }
    }

    /// Takes back a line that the worker pool did not take, because it is gone. The line
    /// is not complete.
    pub fn send_failed(&mut self, line_no: u64)
        requires
            old(self).wf(),
        ensures
            final(self).wf(),
            final(self)@ == old(self)@.after_send_failed(line_no),
    {
        let _ = self.in_flight.remove(&line_no);
        assert(self@.in_flight =~= old(self)@.in_flight.remove(line_no));
    }

    /// Takes note of how the write of a rejected line went. The line is complete either
    /// way: stopping the load would lose more.
    pub fn reject_written(&mut self, line_no: u64, io: WriteIo) -> (written: bool)
        requires
            old(self).wf(),
            old(self)@.can_complete(line_no),
            old(self)@.sink.can_take(io),
        ensures
            final(self).wf(),
            final(self)@ == old(self)@.after_reject_written(line_no, io),
            written == (io is Written),
            final(self)@.done == old(self)@.done.insert(line_no),
            final(self)@.in_flight == old(self)@.in_flight,
    {
        let written = self.sink.note_write(io);
        self.resume.complete(line_no);
        written
    }

    /// Takes a worker's outcome. The watermark does not move past a line on which the
    /// engine failed, nor yet past a rejected line that is still to be written.
    pub fn consume(&mut self, outcome: Outcome, counters: &mut LoadCounters) -> (step: ConsumeStep)
        requires
            old(self).wf(),
            old(self)@.outcome_completes(outcome.delivery_tag, outcome.action) ==> old(
                self,
            )@.can_complete(outcome.delivery_tag),
        ensures
            final(self).wf(),
            final(self)@ == old(self)@.after_outcome(outcome.delivery_tag, outcome.action),
            *final(counters) == counters_after_result(*old(counters), outcome.action),
            final(self)@.in_flight == old(self)@.in_flight.remove(outcome.delivery_tag),
            outcome.action is Ack ==> final(self)@.done == old(self)@.done.insert(
                outcome.delivery_tag,
            ),
            outcome.action is Fatal ==> final(self)@.done == old(self)@.done,
            outcome.action is RejectNoRequeue && old(self)@.in_flight.contains_key(
                outcome.delivery_tag,
            ) ==> final(self)@.done == old(self)@.done,
            is_consume_step(old(self)@, outcome, step),
    {
        let tag: u64 = outcome.delivery_tag;
        let line = self.in_flight.remove(&tag);
        assert(self@.in_flight =~= old(self)@.in_flight.remove(tag));
        match outcome.action {
            Action::Ack(response) => {
                counters.count_add();
                self.resume.complete(tag);
                if self.want_info {
                    ConsumeStep::Added { response }
                } else {
                    ConsumeStep::Added { response: None }
                }
            },
            Action::RejectNoRequeue => {
                counters.count_reject();
                match line {
                    Some(line) => {
                        let plan = self.sink.write_line(line.as_slice());
                        ConsumeStep::Reject { line, plan }
                    },
                    None => {
                        self.resume.complete(tag);
                        ConsumeStep::RejectUnknown
                    },
                }
            },
            Action::Fatal(reason) => {
                counters.count_error();
                ConsumeStep::Fatal(reason)
            },
        }
    }

    pub fn lines_read(&self) -> (n: u64)
        ensures
            n == self@.line_no,
    {
        self.line_no
    }

    pub fn reject_path(&self) -> (path: &str)
        ensures
            path@ == self@.sink.path,
    {
        self.sink.path()
    }

    pub fn rejects_written(&self) -> (n: u64)
        ensures
            n == self@.sink.written,
    {
        self.sink.written()
    }

    /// The number of lines that a resumed run may skip.
    pub fn watermark(&self) -> (line: u64)
        requires
            self.wf(),
        ensures
            is_watermark(self@.done, line),
    {
        self.resume.watermark()
    }
}

/// Something that happens in a file load: a call on its books, with what the call handed back
/// where that matters.
pub enum LoadEvent {
    /// The next line was read.
    Line(Seq<char>),
    /// A line was fed, once its record was parsed or could not be.
    Fed { pending: PendingLine, parsed: Option<RecordInfo>, step: FeedStep },
    /// The worker pool did not take a line.
    SendFailed { line_no: u64 },
    /// A rejected line was written to the side file, or the write failed.
    RejectWritten { line_no: u64, io: WriteIo },
    /// A worker reported its outcome.
    Finished { outcome: Outcome, step: ConsumeStep },
}

impl LoaderState {
    pub open spec fn after(self, event: LoadEvent) -> Self {
        match event {
            LoadEvent::Line(line) => self.after_line(line),
            LoadEvent::Fed { pending, parsed, .. } => self.after_fed(pending, parsed),
            LoadEvent::SendFailed { line_no } => self.after_send_failed(line_no),
            LoadEvent::RejectWritten { line_no, io } => self.after_reject_written(line_no, io),
            LoadEvent::Finished { outcome, .. } => self.after_outcome(
                outcome.delivery_tag,
                outcome.action,
            ),
        }
    }

    /// `event` settles `line`: the line is blank, its record was added, or it was rejected
    /// and the side file was tried.
    pub open spec fn is_settled_by(self, line: u64, event: LoadEvent) -> bool {
        match event {
            LoadEvent::Line(text) => self.next_is_blank(text) && line == self.next_line(),
            LoadEvent::RejectWritten { line_no, .. } => line == line_no,
            LoadEvent::Finished { outcome, .. } => line == outcome.delivery_tag
                && self.outcome_completes(outcome.delivery_tag, outcome.action),
            _ => false,
        }
    }
}

/// The books of a run that started from `start`, after `events`.
pub open spec fn books_after(start: LoaderState, events: Seq<LoadEvent>) -> LoaderState
    decreases events.len(),
{
    if events.len() == 0 {
        start
    } else {
        books_after(start, events.drop_last()).after(events.last())
    }
}

/// `line` was settled in the course of `events`.
pub open spec fn was_settled(start: LoaderState, events: Seq<LoadEvent>, line: u64) -> bool
    decreases events.len(),
{
    events.len() > 0 && (books_after(start, events.drop_last()).is_settled_by(line, events.last())
        || was_settled(start, events.drop_last(), line))
}

/// The complete lines of a run are those before its start and those that were settled:
/// added, rejected, or blank. A line that is only read, parsed, handed over or withdrawn
/// is not complete, and neither is one on which the engine failed.
pub proof fn law_complete_lines_were_settled(
    start: LoaderState,
    events: Seq<LoadEvent>,
    line: u64,
)
    ensures
        books_after(start, events).done.contains(line) <==> start.done.contains(line)
            || was_settled(start, events, line),
    decreases events.len(),
{
    if events.len() > 0 {
        law_complete_lines_were_settled(start, events.drop_last(), line);
    }
}

/// A resume never skips an unprocessed line, and reprocesses as little as it can. However
/// the events of a run interleave, every line after the skipped ones up to the watermark
/// was settled, and the line after the watermark was not.
pub proof fn law_resume_skips_settled_lines_only(
    skip: u64,
    want_info: bool,
    reject_path: Seq<char>,
    events: Seq<LoadEvent>,
    watermark: u64,
)
    requires
        skip < u64::MAX,
        is_watermark(
            books_after(LoaderState::initial(skip, want_info, reject_path), events).done,
            watermark,
        ),
    ensures
        ({
            let start = LoaderState::initial(skip, want_info, reject_path);
            &&& skip <= watermark
            &&& forall|line: u64| skip < line <= watermark ==> was_settled(start, events, line)
            &&& !was_settled(start, events, (watermark + 1) as u64)
        }),
{
    let start = LoaderState::initial(skip, want_info, reject_path);
    let done = books_after(start, events).done;
    law_complete_lines_were_settled(start, events, (watermark + 1) as u64);
    assert(!done.contains((watermark + 1) as u64));
    assert forall|line: u64| skip < line <= watermark implies was_settled(
        start,
        events,
        line,
    ) by {
        law_complete_lines_were_settled(start, events, line);
        assert(done.contains(line));
    }
}

/// A line is kept verbatim while its record is with the workers: what would be written to
/// the side file is the line as it was read.
pub proof fn law_lines_are_kept_verbatim(start: LoaderState, events: Seq<LoadEvent>, line_no: u64)
    requires
        start.in_flight == Map::<u64, Seq<u8>>::empty(),
        books_after(start, events).in_flight.contains_key(line_no),
    ensures
        exists|k: int|
            0 <= k < events.len() && (#[trigger] events[k] matches LoadEvent::Fed {
                pending,
                ..
            } && pending.line_no == line_no && vstd::utf8::encode_utf8(pending.line@) == books_after(
                start,
                events,
            ).in_flight[line_no]),
    decreases events.len(),
{
    let earlier = events.drop_last();
    let before = books_after(start, earlier);
    assert(books_after(start, events) == before.after(events.last()));
    if before.in_flight.contains_key(line_no) {
        law_lines_are_kept_verbatim(start, earlier, line_no);
        let k = choose|k: int|
            0 <= k < earlier.len() && (#[trigger] earlier[k] matches LoadEvent::Fed {
                pending,
                ..
            } && pending.line_no == line_no && vstd::utf8::encode_utf8(pending.line@)
                == before.in_flight[line_no]);
        assert(events[k] == earlier[k]);
    }
    assert(events[events.len() - 1] == events.last());
}

/// What an outcome does to its line, by the outcome itself. The line is with the workers no
/// more. An addition completes it, in every load. A fatal error never does. A reject completes
/// it at once only if there is no line to write. Nothing else changes.
pub proof fn law_outcomes_complete_their_line_or_not(books: LoaderState, tag: u64, action: Action)
    ensures
        action is Ack ==> books.after_outcome(tag, action).done == books.done.insert(tag),
        action is Fatal ==> books.after_outcome(tag, action).done == books.done,
        action is RejectNoRequeue && books.in_flight.contains_key(tag) ==> books.after_outcome(
            tag,
            action,
        ).done == books.done,
        action is RejectNoRequeue && !books.in_flight.contains_key(tag) ==> books.after_outcome(
            tag,
            action,
        ).done == books.done.insert(tag),
        books.after_outcome(tag, action).in_flight == books.in_flight.remove(tag),
        books.after_outcome(tag, action).sink == books.sink,
        books.after_outcome(tag, action).line_no == books.line_no,
        books.after_outcome(tag, action).skip == books.skip,
        books.after_outcome(tag, action).want_info == books.want_info,
{
}

/// What reading, feeding, a failed hand-over and a write do to the books. Reading a line counts
/// it, and completes it exactly if it is beyond the skipped ones and all white space. Feeding
/// keeps the line of a parsed record, byte for byte, and completes nothing. A line that was not
/// taken is with the workers no more, and not complete. A line whose write was tried is
/// complete.
pub proof fn law_calls_complete_what_they_settle(
    books: LoaderState,
    line: Seq<char>,
    pending: PendingLine,
    parsed: Option<RecordInfo>,
    line_no: u64,
    io: WriteIo,
)
    requires
        books.line_no < u64::MAX,
    ensures
        ({
            let read = books.after_line(line);
            let blank = forall|i: int| 0 <= i < line.len() ==> is_white_space(#[trigger] line[i]);
            &&& read.line_no == books.line_no + 1
            &&& books.line_no >= books.skip && blank ==> read.done == books.done.insert(
                read.line_no,
            )
            &&& books.line_no < books.skip || !blank ==> read.done == books.done
            &&& read.in_flight == books.in_flight && read.sink == books.sink && read.skip
                == books.skip
        }),
        ({
            let fed = books.after_fed(pending, parsed);
            &&& parsed is Some ==> fed.in_flight == books.in_flight.insert(
                pending.line_no,
                vstd::utf8::encode_utf8(pending.line@),
            )
            &&& parsed is None ==> fed.in_flight == books.in_flight
            &&& fed.done == books.done && fed.sink == books.sink && fed.line_no == books.line_no
        }),
        books.after_send_failed(line_no).in_flight == books.in_flight.remove(line_no),
        books.after_send_failed(line_no).done == books.done,
        books.after_send_failed(line_no).sink == books.sink,
        books.after_send_failed(line_no).line_no == books.line_no,
        books.after_reject_written(line_no, io).done == books.done.insert(line_no),
        books.after_reject_written(line_no, io).in_flight == books.in_flight,
        books.after_reject_written(line_no, io).sink == books.sink.after(io),
        books.after_reject_written(line_no, io).line_no == books.line_no,
{
    lemma_blank_is_all_white_space(line);
}

proof fn lemma_blank_is_all_white_space(line: Seq<char>)
    ensures
        trimmed(line).len() == 0 <==> forall|i: int|
            0 <= i < line.len() ==> is_white_space(#[trigger] line[i]),
{
    let (start, end) = law_trimming_takes_white_space_off_both_ends(line);
    if start < end {
        assert(!is_white_space(line[start]));
    } else {
        assert forall|i: int| 0 <= i < line.len() implies is_white_space(#[trigger] line[i]) by {
            if i >= start {
                assert(end <= i);
            }
        }
    }
}

/// A line on which the engine failed holds the watermark. In every load, whatever its settings:
/// if a line was not complete at the start, every outcome that was reported for it is fatal, no
/// write of it was tried, and it is not a line of white space alone, then it is not complete at
/// the end, and the watermark is below it. So a resume loads it.
pub proof fn law_failed_lines_hold_the_watermark(
    start: LoaderState,
    events: Seq<LoadEvent>,
    line_no: u64,
)
    requires
        !start.done.contains(line_no),
        forall|k: int|
            #![trigger events[k]]
            0 <= k < events.len() ==> match events[k] {
                LoadEvent::Finished { outcome, .. } => outcome.delivery_tag == line_no
                    ==> outcome.action is Fatal,
                LoadEvent::RejectWritten { line_no: n, .. } => n != line_no,
                LoadEvent::Line(text) => {
                    let read = books_after(start, events.take(k)).line_no;
                    &&& read < u64::MAX
                    &&& read + 1 == line_no ==> exists|i: int|
                        0 <= i < text.len() && !is_white_space(#[trigger] text[i])
                },
                _ => true,
            },
    ensures
        !books_after(start, events).done.contains(line_no),
        forall|watermark: u64|
            is_watermark(books_after(start, events).done, watermark) ==> watermark < line_no,
    decreases events.len(),
{
    if events.len() > 0 {
        let earlier = events.drop_last();
        let books = books_after(start, earlier);
        let last = events.len() - 1;
        assert forall|k: int| #![trigger earlier[k]] 0 <= k < earlier.len() implies match earlier[k] {
            LoadEvent::Finished { outcome, .. } => outcome.delivery_tag == line_no
                ==> outcome.action is Fatal,
            LoadEvent::RejectWritten { line_no: n, .. } => n != line_no,
            LoadEvent::Line(text) => {
                let read = books_after(start, earlier.take(k)).line_no;
                &&& read < u64::MAX
                &&& read + 1 == line_no ==> exists|i: int|
                    0 <= i < text.len() && !is_white_space(#[trigger] text[i])
            },
            _ => true,
        } by {
            assert(earlier[k] == events[k]);
            assert(earlier.take(k) =~= events.take(k));
        }
        law_failed_lines_hold_the_watermark(start, earlier, line_no);
        assert(events[last] == events.last());
        assert(events.take(last) =~= earlier);
        if let LoadEvent::Line(text) = events.last() {
            lemma_blank_is_all_white_space(text);
        }
    }
}

/// Complete lines stay complete, whatever happens after them; and an added line, a rejected one
/// whose write was tried, and a blank one become so.
pub proof fn law_settled_lines_are_complete(books: LoaderState, event: LoadEvent, line_no: u64)
    requires
        event is Line ==> books.line_no < u64::MAX,
    ensures
        books.done.contains(line_no) ==> books.after(event).done.contains(line_no),
        event matches LoadEvent::Finished { outcome, .. } ==> outcome.action is Ack
            ==> books.after(event).done.contains(outcome.delivery_tag),
        event matches LoadEvent::RejectWritten { line_no: n, .. } ==> books.after(
            event,
        ).done.contains(n),
        event matches LoadEvent::Line(text) ==> books.line_no >= books.skip && (forall|i: int|
            0 <= i < text.len() ==> is_white_space(#[trigger] text[i])) ==> books.after(
            event,
        ).done.contains((books.line_no + 1) as u64),
{
    if let LoadEvent::Line(text) = event {
        lemma_blank_is_all_white_space(text);
    }
}

/// What is to be done with a line that was read: nothing if it is one of the skipped lines, or
/// all white space; and else the record on it is parsed, which is the line without the white
/// space at its ends.
pub proof fn law_lines_are_parsed_unless_skipped_or_blank(
    books: LoaderState,
    line: Seq<char>,
    step: LineStep,
)
    requires
        books.line_no < u64::MAX,
        is_line_step(books, line, step),
    ensures
        step is Skipped <==> books.line_no < books.skip,
        step is Blank <==> books.line_no >= books.skip && forall|i: int|
            0 <= i < line.len() ==> is_white_space(#[trigger] line[i]),
        step matches LineStep::Parse(pending) ==> pending.line_no == books.line_no + 1
            && pending.line@ == line && pending.record@ == trimmed(line),
{
    lemma_blank_is_all_white_space(line);
}

/// What is to be done with a record: one that was parsed is handed over under its line number,
/// as it stands on the line; and the line of one that could not be is written, byte for byte.
pub proof fn law_records_are_dispatched_or_written(
    books: LoaderState,
    pending: PendingLine,
    parsed: Option<RecordInfo>,
    step: FeedStep,
    counters: LoadCounters,
)
    requires
        is_feed_step(books, pending, parsed, step),
    ensures
        parsed matches Some(info) ==> (step matches FeedStep::Dispatch(item) && item.delivery_tag
            == pending.line_no && item.info == info && item.body@ == vstd::utf8::encode_utf8(
            pending.record@,
        )),
        parsed is None ==> (step matches FeedStep::Reject(plan) && plan.bytes@
            == vstd::utf8::encode_utf8(pending.line@).push(10u8) && plan.open_first
            == !books.sink.open),
        parsed is Some ==> counters_after_parse(counters, parsed) == counters,
        parsed is None ==> counters_after_parse(counters, parsed) == counters.with_reject(),
{
}

/// What is to be done about an outcome: a response is printed if responses are wanted; a
/// rejected line is written, byte for byte as it is with the workers; a fatal error is passed
/// on. Each is counted as what it is.
pub proof fn law_outcomes_are_acted_on(
    books: LoaderState,
    outcome: Outcome,
    step: ConsumeStep,
    counters: LoadCounters,
)
    requires
        is_consume_step(books, outcome, step),
    ensures
        match outcome.action {
            Action::Ack(response) => {
                &&& books.want_info ==> step == (ConsumeStep::Added { response })
                &&& !books.want_info ==> step == (ConsumeStep::Added { response: None })
                &&& counters_after_result(counters, outcome.action) == counters.with_add()
            },
            Action::RejectNoRequeue => {
                &&& books.in_flight.contains_key(outcome.delivery_tag) ==> (
                step matches ConsumeStep::Reject { line, plan } && line@
                    == books.in_flight[outcome.delivery_tag] && plan.bytes@ == line@.push(10u8)
                    && plan.open_first == !books.sink.open)
                &&& !books.in_flight.contains_key(outcome.delivery_tag) ==> step is RejectUnknown
                &&& counters_after_result(counters, outcome.action) == counters.with_reject()
            },
            Action::Fatal(reason) => {
                &&& step == ConsumeStep::Fatal(reason)
                &&& counters_after_result(counters, outcome.action) == counters.with_error()
            },
        },
{
}

/// Where a load starts: no line was read, the lines up to the skipped ones count as complete
/// and no others, nothing is with the workers, and the side file is at its path, not open, and
/// has no lines. And a line may be completed unless it is the last number there is left.
pub proof fn law_loads_start_after_the_skipped_lines(
    skip: u64,
    want_info: bool,
    reject_path: Seq<char>,
    line_no: u64,
    books: LoaderState,
)
    requires
        skip < u64::MAX,
    ensures
        ({
            let start = LoaderState::initial(skip, want_info, reject_path);
            &&& start.done.contains(line_no) <==> line_no <= skip
            &&& start.line_no == 0
            &&& start.skip == skip
            &&& start.want_info == want_info
            &&& start.in_flight == Map::<u64, Seq<u8>>::empty()
            &&& start.sink.path == reject_path
            &&& !start.sink.open
            &&& start.sink.written == 0
        }),
        books.can_complete(line_no) <==> exists|other: u64|
            other != line_no && !books.done.contains(other),
{
    if books.can_complete(line_no) {
        let other = choose|other: u64| !books.done.insert(line_no).contains(other);
        assert(other != line_no && !books.done.contains(other));
    }
    if exists|other: u64| other != line_no && !books.done.contains(other) {
        let other = choose|other: u64| other != line_no && !books.done.contains(other);
        assert(!books.done.insert(line_no).contains(other));
    }
}

} // verus!
