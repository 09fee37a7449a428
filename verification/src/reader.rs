//! The reader of a file load: takes the file line by line and sees each line to the worker
//! pool or to the side file. The reader is told what happened and says what to do next.
use vstd::prelude::*;
use vstd::string::*;

use crate::loader::{
    counters_after_parse, is_feed_step, is_line_step,
    law_lines_are_parsed_unless_skipped_or_blank, FeedStep, FileLoader, LineStep, LoadEvent, LoaderState,
    PendingLine,
};
use crate::record::{LoadCounters, LoadItem, RecordInfo};
use crate::reject::{WriteIo, WritePlan};
use crate::text::{decimal, decimal_text, is_white_space, trimmed};

verus! {

/// Where the reader stands.
#[derive(Debug)]
pub enum ReadPhase {
    /// The next line is being fetched.
    Fetching,
    /// The record on this line is being parsed.
    Parsing(PendingLine),
    /// The record on the line is being handed to the worker pool.
    Sending { line_no: u64 },
    /// The line is being written to the side file.
    Rejecting { line_no: u64 },
    Stopped,
}

/// What happened.
#[derive(Debug)]
pub enum ReadEvent {
    /// The file gave its next line or an error, or is at its end (`None`); `running` unless
    /// the run is ending.
    Fetched { running: bool, line: Option<Result<String, String>> },
    /// The record was parsed, or could not be (`None`).
    Parsed { info: Option<RecordInfo> },
    /// The worker pool took the item, or is gone.
    Sent { accepted: bool },
    /// The line was written to the side file, or not.
    RejectWritten { io: WriteIo },
}

/// What to do next.
#[derive(Debug, PartialEq, Eq)]
pub enum ReadAction {
    /// Fetch the next line, and look whether the run is still on.
    Fetch,
    /// Parse the record.
    Parse,
    /// Hand the item to the worker pool.
    Dispatch(LoadItem),
    /// Write this to the side file.
    Reject(WritePlan),
    /// Stop reading: the number of lines read, or what went wrong.
    Done(Result<u64, String>),
}

/// The reader of a file.
#[derive(Debug)]
pub struct FileReader {
    phase: ReadPhase,
}

pub open spec fn read_error_text(line_no: u64, reason: Seq<char>) -> Seq<char> {
    "read error at line "@ + decimal_text(line_no as nat) + ": "@ + reason
}

impl ReadPhase {
    /// The event is one that the reader is waiting for.
    pub open spec fn expects(self, event: ReadEvent) -> bool {
        match self {
            ReadPhase::Fetching => event is Fetched,
            ReadPhase::Parsing(_) => event is Parsed,
            ReadPhase::Sending { .. } => event is Sent,
            ReadPhase::Rejecting { .. } => event is RejectWritten,
            ReadPhase::Stopped => false,
        }
    }

    /// The line numbers and counts of the books have room for the event.
    pub open spec fn has_room_for(self, books: LoaderState, event: ReadEvent) -> bool {
        match event {
            ReadEvent::Fetched { running: true, line: Some(line) } => {
                &&& books.line_no < u64::MAX
                &&& line matches Ok(text) ==> books.next_is_blank(text@) ==> books.can_complete(
                    books.next_line(),
                )
            },
            ReadEvent::RejectWritten { io } => {
                &&& books.sink.can_take(io)
                &&& self matches ReadPhase::Rejecting { line_no } ==> books.can_complete(line_no)
            },
            _ => true,
        }
    }
}

/// Where the reader, the books of the load and the counters stand after `event`, and what is
/// to be done.
pub open spec fn is_read_step(
    before: ReadPhase,
    books: LoaderState,
    counters: LoadCounters,
    event: ReadEvent,
    after: ReadPhase,
    books_after: LoaderState,
    counters_after: LoadCounters,
    action: ReadAction,
) -> bool {
    &&& counters_after == match event {
        ReadEvent::Parsed { info } => counters_after_parse(counters, info),
        _ => counters,
    }
    &&& match (before, event) {
        (ReadPhase::Fetching, ReadEvent::Fetched { running, line }) => if !running || line is None {
            &&& books_after == books
            &&& after is Stopped
            &&& action == ReadAction::Done(Ok(books.line_no))
        } else {
            match line->Some_0 {
                Ok(text) => {
                    &&& books_after == books.after_line(text@)
                    &&& match after {
                        ReadPhase::Parsing(pending) => action is Parse && is_line_step(
                            books,
                            text@,
                            LineStep::Parse(pending),
                        ),
                        ReadPhase::Fetching => action is Fetch && (is_line_step(
                            books,
                            text@,
                            LineStep::Skipped,
                        ) || is_line_step(books, text@, LineStep::Blank)),
                        _ => false,
                    }
                },
                Err(reason) => {
                    &&& books_after == books
                    &&& after is Stopped
                    &&& action matches ReadAction::Done(Err(error))
                    &&& error@ == read_error_text(books.next_line(), reason@)
                },
            }
        },
        (ReadPhase::Parsing(pending), ReadEvent::Parsed { info: Some(info) }) => {
            &&& books_after == books.after_fed(pending, Some(info))
            &&& after == (ReadPhase::Sending { line_no: pending.line_no })
            &&& action matches ReadAction::Dispatch(item)
            &&& is_feed_step(books, pending, Some(info), FeedStep::Dispatch(item))
        },
        (ReadPhase::Parsing(pending), ReadEvent::Parsed { info: None }) => {
            &&& books_after == books.after_fed(pending, None)
            &&& after == (ReadPhase::Rejecting { line_no: pending.line_no })
            &&& action matches ReadAction::Reject(plan)
            &&& is_feed_step(books, pending, None, FeedStep::Reject(plan))
        },
        (ReadPhase::Sending { line_no }, ReadEvent::Sent { accepted }) => if accepted {
            books_after == books && after is Fetching && action is Fetch
        } else {
            books_after == books.after_send_failed(line_no) && after is Stopped && action
                == ReadAction::Done(Ok(books.line_no))
        },
        (ReadPhase::Rejecting { line_no }, ReadEvent::RejectWritten { io }) => {
            &&& books_after == books.after_reject_written(line_no, io)
            &&& after is Fetching
            &&& action is Fetch
        },
        _ => false,
    }
}

impl View for FileReader {
    type V = ReadPhase;

    closed spec fn view(&self) -> ReadPhase {
        self.phase
    }
}

impl FileReader {
    pub fn new() -> (reader: Self)
        ensures
            reader@ is Fetching,
    {
        FileReader { phase: ReadPhase::Fetching }
    }

    /// The record that is to be parsed.
    pub fn record(&self) -> (record: Option<&str>)
        ensures
            match self@ {
                ReadPhase::Parsing(pending) => record matches Some(text) && text@
                    == pending.record@,
                _ => record is None,
            },
    {
        match &self.phase {
            ReadPhase::Parsing(pending) => Some(pending.record.as_str()),
            _ => None,
        }
    }

    /// Goes one step: takes what happened into the books and says what to do next.
    pub fn step(
        &mut self,
        event: ReadEvent,
        loader: &mut FileLoader,
        counters: &mut LoadCounters,
    ) -> (action: ReadAction)
        requires
            old(loader).wf(),
            old(self)@.expects(event),
            old(self)@.has_room_for(old(loader)@, event),
        ensures
            final(loader).wf(),
            is_read_step(
                old(self)@,
                old(loader)@,
                *old(counters),
                event,
                final(self)@,
                final(loader)@,
                *final(counters),
                action,
            ),
    {
        let mut phase = ReadPhase::Stopped;
        std::mem::swap(&mut self.phase, &mut phase);
        match (phase, event) {
            (ReadPhase::Fetching, ReadEvent::Fetched { running, line }) => {
                if !running {
                    return ReadAction::Done(Ok(loader.lines_read()));
                }
                match line {
                    None => ReadAction::Done(Ok(loader.lines_read())),
                    Some(Err(reason)) => {
                        let mut error = "read error at line ".to_string();
                        error.append(decimal(loader.lines_read() + 1).as_str());
                        error.append(": ");
                        error.append(reason.as_str());
                        ReadAction::Done(Err(error))
                    },
                    Some(Ok(text)) => match loader.read_line(text.as_str()) {
                        LineStep::Parse(pending) => {
                            self.phase = ReadPhase::Parsing(pending);
                            ReadAction::Parse
                        },
                        _ => {
                            self.phase = ReadPhase::Fetching;
                            ReadAction::Fetch
                        },
                    },
                }
            },
            (ReadPhase::Parsing(pending), ReadEvent::Parsed { info }) => {
                let line_no: u64 = pending.line_no;
                match loader.feed(pending, info, counters) {
                    FeedStep::Dispatch(item) => {
                        self.phase = ReadPhase::Sending { line_no };
                        ReadAction::Dispatch(item)
                    },
                    FeedStep::Reject(plan) => {
                        self.phase = ReadPhase::Rejecting { line_no };
                        ReadAction::Reject(plan)
                    },
                }
            },
            (ReadPhase::Sending { line_no }, ReadEvent::Sent { accepted }) => {
                if accepted {
                    self.phase = ReadPhase::Fetching;
                    ReadAction::Fetch
                } else {
                    loader.send_failed(line_no);
                    ReadAction::Done(Ok(loader.lines_read()))
                }
            },
            (ReadPhase::Rejecting { line_no }, ReadEvent::RejectWritten { io }) => {
                loader.reject_written(line_no, io);
                self.phase = ReadPhase::Fetching;
                ReadAction::Fetch
            },
            _ => ReadAction::Done(Ok(loader.lines_read())),
        }
    }
}

/// What a step of the reader did to the books.
pub open spec fn load_event(
    before: ReadPhase,
    event: ReadEvent,
    action: ReadAction,
) -> Option<LoadEvent> {
    match (before, event) {
        (ReadPhase::Fetching, ReadEvent::Fetched { running, line }) => match line {
            Some(Ok(text)) => if running {
                Some(LoadEvent::Line(text@))
            } else {
                None
            },
            _ => None,
        },
        (ReadPhase::Parsing(pending), ReadEvent::Parsed { info }) => match action {
            ReadAction::Dispatch(item) => Some(
                LoadEvent::Fed { pending, parsed: info, step: FeedStep::Dispatch(item) },
            ),
            ReadAction::Reject(plan) => Some(
                LoadEvent::Fed { pending, parsed: info, step: FeedStep::Reject(plan) },
            ),
            _ => None,
        },
        (ReadPhase::Sending { line_no }, ReadEvent::Sent { accepted }) => if accepted {
            None
        } else {
            Some(LoadEvent::SendFailed { line_no })
        },
        (ReadPhase::Rejecting { line_no }, ReadEvent::RejectWritten { io }) => Some(
            LoadEvent::RejectWritten { line_no, io },
        ),
        _ => None,
    }
}

/// Every step of the reader is one in the books of the load, so that what holds of all
/// books holds of every run of the reader. And a line goes on under the number that it has
/// in the file, as it stands there.
pub proof fn law_read_steps_show_in_the_books(
    before: ReadPhase,
    books: LoaderState,
    counters: LoadCounters,
    event: ReadEvent,
    after: ReadPhase,
    books_after: LoaderState,
    counters_after: LoadCounters,
    action: ReadAction,
)
    requires
        is_read_step(
            before,
            books,
            counters,
            event,
            after,
            books_after,
            counters_after,
            action,
        ),
    ensures
        books_after == match load_event(before, event, action) {
            Some(done) => books.after(done),
            None => books,
        },
        after matches ReadPhase::Parsing(pending) ==> {
            &&& load_event(before, event, action) == Some(LoadEvent::Line(pending.line@))
            &&& pending.line_no == books_after.line_no
            &&& pending.record@ == trimmed(pending.line@)
        },
        after matches ReadPhase::Sending { line_no } ==> (before matches ReadPhase::Parsing(pending)
            && pending.line_no == line_no),
        after matches ReadPhase::Rejecting { line_no } ==> (before matches ReadPhase::Parsing(
            pending,
        ) && pending.line_no == line_no),
{
}

/// Every line read after the skipped ones is accounted for: it is complete, with the workers,
/// in the hands of the reader, being written to the side file after a worker's reject
/// (`writing`), or was left unloaded because the engine or the worker pool failed (`failed`).
pub open spec fn is_accounted(
    phase: ReadPhase,
    books: LoaderState,
    writing: Set<u64>,
    failed: Set<u64>,
) -> bool {
    forall|line_no: u64|
        books.skip < line_no <= books.line_no ==> {
            ||| #[trigger] books.done.contains(line_no)
            ||| books.in_flight.contains_key(line_no)
            ||| writing.contains(line_no)
            ||| failed.contains(line_no)
            ||| match phase {
                ReadPhase::Parsing(pending) => pending.line_no == line_no,
                ReadPhase::Rejecting { line_no: n } => n == line_no,
                _ => false,
            }
        }
}

/// The reader loses no line: what it has read stays accounted for, and the only line that it
/// leaves unloaded is one that the worker pool did not take.
pub proof fn law_reader_loses_no_line(
    before: ReadPhase,
    books: LoaderState,
    counters: LoadCounters,
    event: ReadEvent,
    after: ReadPhase,
    books_after: LoaderState,
    counters_after: LoadCounters,
    action: ReadAction,
    writing: Set<u64>,
    failed: Set<u64>,
)
    requires
        is_accounted(before, books, writing, failed),
        before.has_room_for(books, event),
        is_read_step(
            before,
            books,
            counters,
            event,
            after,
            books_after,
            counters_after,
            action,
        ),
    ensures
        is_accounted(
            after,
            books_after,
            writing,
            match load_event(before, event, action) {
                Some(LoadEvent::SendFailed { line_no }) => failed.insert(line_no),
                _ => failed,
            },
        ),
{
}

/// The consumer loses no line: a worker's outcome completes its line, has it written to the
/// side file, or leaves it unloaded because the engine failed; and once the write was tried
/// the line is complete.
pub proof fn law_consumer_loses_no_line(
    phase: ReadPhase,
    books: LoaderState,
    event: LoadEvent,
    writing: Set<u64>,
    failed: Set<u64>,
)
    requires
        is_accounted(phase, books, writing, failed),
        event is Finished || event is RejectWritten,
    ensures
        is_accounted(
            phase,
            books.after(event),
            match event {
                LoadEvent::Finished { outcome, .. } => if outcome.action is RejectNoRequeue
                    && books.in_flight.contains_key(outcome.delivery_tag) {
                    writing.insert(outcome.delivery_tag)
                } else {
                    writing
                },
                LoadEvent::RejectWritten { line_no, .. } => writing.remove(line_no),
                _ => writing,
            },
            match event {
                LoadEvent::Finished { outcome, .. } => if outcome.action is Fatal {
                    failed.insert(outcome.delivery_tag)
                } else {
                    failed
                },
                _ => failed,
            },
        ),
{
}

/// Reading ends at the end of the file, on a shutdown, on a read error and when the worker pool
/// is gone; a shutdown comes before the line or the error that was fetched with it. It ends
/// with the number of lines read, or with the number of the line that could not be read and the
/// reason.
pub proof fn law_reading_ends(
    before: ReadPhase,
    books: LoaderState,
    counters: LoadCounters,
    event: ReadEvent,
    after: ReadPhase,
    books_after: LoaderState,
    counters_after: LoadCounters,
    action: ReadAction,
)
    requires
        is_read_step(
            before,
            books,
            counters,
            event,
            after,
            books_after,
            counters_after,
            action,
        ),
    ensures
        event matches ReadEvent::Fetched { running, line } ==> !running || line is None ==> after
            is Stopped && action == ReadAction::Done(Ok(books.line_no)) && books_after == books,
        event matches ReadEvent::Fetched { running: true, line: Some(Err(reason)) } ==> after is Stopped && books_after == books && (action matches ReadAction::Done(
            Err(error),
        ) && error@ == "read error at line "@ + decimal_text(((books.line_no + 1) as u64) as nat)
            + ": "@ + reason@),
        event == (ReadEvent::Sent { accepted: false }) ==> after is Stopped && action
            == ReadAction::Done(Ok(books.line_no)),
        event matches ReadEvent::Sent { accepted } ==> before matches ReadPhase::Sending {
            line_no,
        } ==> !accepted ==> books_after.in_flight == books.in_flight.remove(line_no)
            && books_after.done == books.done,
        after is Stopped ==> action is Done,
        action is Done ==> after is Stopped,
{
}

/// Reading goes on otherwise: every line is counted, and one that is neither skipped nor blank
/// is parsed; a parsed record is handed over and an unparseable line is written; and then the
/// next line is fetched.
pub proof fn law_reading_goes_on(
    before: ReadPhase,
    books: LoaderState,
    counters: LoadCounters,
    event: ReadEvent,
    after: ReadPhase,
    books_after: LoaderState,
    counters_after: LoadCounters,
    action: ReadAction,
)
    requires
        books.line_no < u64::MAX,
        is_read_step(
            before,
            books,
            counters,
            event,
            after,
            books_after,
            counters_after,
            action,
        ),
    ensures
        event matches ReadEvent::Fetched { running: true, line: Some(Ok(text)) } ==> {
            let blank = forall|i: int| 0 <= i < text@.len() ==> is_white_space(#[trigger] text@[i]);
            &&& books_after.line_no == books.line_no + 1
            &&& books.line_no < books.skip || blank ==> after is Fetching && action is Fetch
            &&& books.line_no >= books.skip && !blank ==> action is Parse && (
            after matches ReadPhase::Parsing(pending) && pending.line@ == text@ && pending.record@
                == trimmed(text@) && pending.line_no == books.line_no + 1)
        },
        event matches ReadEvent::Parsed { info } ==> before matches ReadPhase::Parsing(
            pending,
        ) ==> match info {
            Some(i) => {
                &&& after == (ReadPhase::Sending { line_no: pending.line_no })
                &&& action matches ReadAction::Dispatch(item) && item.delivery_tag
                    == pending.line_no && item.info == i && item.body@ == vstd::utf8::encode_utf8(
                    pending.record@,
                )
                &&& counters_after == counters
            },
            None => {
                &&& after == (ReadPhase::Rejecting { line_no: pending.line_no })
                &&& action matches ReadAction::Reject(plan) && plan.bytes@
                    == vstd::utf8::encode_utf8(pending.line@).push(10u8)
                &&& counters_after == counters.with_reject()
            },
        },
        event == (ReadEvent::Sent { accepted: true }) ==> after is Fetching && action is Fetch
            && books_after == books,
        event matches ReadEvent::RejectWritten { io } ==> before matches ReadPhase::Rejecting {
            line_no,
        } ==> after is Fetching && action is Fetch && books_after.done == books.done.insert(
            line_no,
        ) && books_after.sink == books.sink.after(io),
        event !is Parsed ==> counters_after == counters,
{
    if let ReadEvent::Fetched { running: true, line: Some(Ok(text)) } = event {
        let step = match after {
            ReadPhase::Parsing(pending) => LineStep::Parse(pending),
            _ => if books.next_line() <= books.skip {
                LineStep::Skipped
            } else {
                LineStep::Blank
            },
        };
        law_lines_are_parsed_unless_skipped_or_blank(books, text@, step);
    }
}

/// What the reader waits for in each phase, and what it asks of the books: a number for the
/// next line, and room to complete and to count.
pub proof fn law_reader_takes_what_belongs_to_its_phase(
    phase: ReadPhase,
    books: LoaderState,
    event: ReadEvent,
)
    ensures
        phase is Fetching && event is Fetched ==> phase.expects(event),
        phase is Parsing && event is Parsed ==> phase.expects(event),
        phase is Sending && event is Sent ==> phase.expects(event),
        phase is Rejecting && event is RejectWritten ==> phase.expects(event),
        books.line_no < u64::MAX - 1 && books.sink.written < u64::MAX && !books.done.contains(
            u64::MAX,
        ) && (phase matches ReadPhase::Rejecting { line_no } ==> line_no < u64::MAX)
            ==> phase.has_room_for(books, event),
{
    if !books.done.contains(u64::MAX) {
        assert forall|line_no: u64| line_no < u64::MAX implies #[trigger] books.can_complete(
            line_no,
        ) by {
            assert(!books.done.insert(line_no).contains(u64::MAX));
        }
    }
}

} // verus!
