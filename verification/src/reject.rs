//! The side file that keeps rejected input lines.
//!
//! A file has no dead-letter queue, so every rejected line is appended verbatim to a side
//! file, one line each, and can be loaded again later by pointing the loader at it.
use vstd::prelude::*;

verus! {

/// How an attempt to write a line to the side file went.
#[derive(Debug, Clone, Copy, PartialEq, Eq)]
pub enum WriteIo {
    /// The file was not open yet and could not be opened.
    OpenFailed,
    /// The file is open, but the write failed.
    WriteFailed,
    Written,
}

/// What it takes to write one line.
#[derive(Debug, PartialEq, Eq)]
pub struct WritePlan {
    /// Open the file for appending first, and create it if it is not there.
    pub open_first: bool,
    /// What to append, in a single write.
    pub bytes: Vec<u8>,
}

/// The append-only side file. It is opened on the first write, so that a clean load leaves
/// nothing behind.
#[derive(Debug)]
pub struct RejectSink {
    path: String,
    open: bool,
    written: u64,
}

/// The state of the side file.
pub struct SinkState {
    pub path: Seq<char>,
    pub open: bool,
    pub written: u64,
}

impl SinkState {
    /// The state after an attempt to write a line.
    pub open spec fn after(self, io: WriteIo) -> SinkState {
        match io {
            WriteIo::OpenFailed => self,
            WriteIo::WriteFailed => SinkState { open: true, ..self },
            WriteIo::Written => SinkState {
                open: true,
                written: (self.written + 1) as u64,
                ..self
            },
        }
    }

    /// The count of written lines has room for this attempt.
    pub open spec fn can_take(self, io: WriteIo) -> bool {
        io is Written ==> self.written < u64::MAX
    }
}

impl View for RejectSink {
    type V = SinkState;

    closed spec fn view(&self) -> SinkState {
        SinkState { path: self.path@, open: self.open, written: self.written }
    }
}

/// A line as it stands in the side file.
pub open spec fn file_line(line: Seq<u8>) -> Seq<u8> {
    line.push(10u8)
}

impl WritePlan {
    pub open spec fn writes(self, line: Seq<u8>, sink: SinkState) -> bool {
        self.open_first == !sink.open && self.bytes@ == file_line(line)
    }
}

impl RejectSink {
    pub fn new(path: String) -> (sink: Self)
        ensures
            sink@ == (SinkState { path: path@, open: false, written: 0 }),
    {
        RejectSink { path, open: false, written: 0 }
    }

    pub fn path(&self) -> (path: &str)
        ensures
            path@ == self@.path,
    {
        self.path.as_str()
    }

    pub fn written(&self) -> (written: u64)
        ensures
            written == self@.written,
    {
        self.written
    }

    /// What it takes to append `line`, which has no line break of its own.
    pub fn write_line(&self, line: &[u8]) -> (plan: WritePlan)
        ensures
            plan.writes(line@, self@),
            plan.bytes@.len() == line@.len() + 1,
            forall|i: int| 0 <= i < line@.len() ==> plan.bytes@[i] == line@[i],
            plan.bytes@.last() == 10,
            plan.open_first == !self@.open,
    {
        let mut bytes = vstd::slice::slice_to_vec(line);
        bytes.push(10u8);
        WritePlan { open_first: !self.open, bytes }
    }

    /// Takes note of how the write went. Only a line that was written counts; a file that
    /// could not be opened is tried again with the next line.
    pub fn note_write(&mut self, io: WriteIo) -> (written: bool)
        requires
            old(self)@.can_take(io),
        ensures
            final(self)@ == old(self)@.after(io),
            written == (io is Written),
            final(self)@.path == old(self)@.path,
            final(self)@.open == (old(self)@.open || io !is OpenFailed),
            final(self)@.written == old(self)@.written + if io is Written {
                1int
            } else {
                0int
            },
    {
        match io {
            WriteIo::OpenFailed => false,
            WriteIo::WriteFailed => {
                self.open = true;
                false
            },
            WriteIo::Written => {
                self.open = true;
                self.written = self.written + 1;
                true
            },
        }
    }
}

/// What a side file holds after `lines` have been appended to an empty one.
pub open spec fn file_of(lines: Seq<Seq<u8>>) -> Seq<u8>
    decreases lines.len(),
{
    if lines.len() == 0 {
        Seq::empty()
    } else {
        file_of(lines.drop_last()) + file_line(lines.last())
    }
}

/// A resumed run adds to the side file: it then holds the lines of both runs, in order.
pub proof fn law_side_file_grows(first: Seq<Seq<u8>>, second: Seq<Seq<u8>>)
    ensures
        file_of(first + second) == file_of(first) + file_of(second),
    decreases second.len(),
{
    if second.len() == 0 {
        assert(first + second =~= first);
        assert(file_of(first) + file_of(second) =~= file_of(first));
    } else {
        law_side_file_grows(first, second.drop_last());
        assert((first + second).drop_last() =~= first + second.drop_last());
        assert((first + second).last() == second.last());
        assert(file_of(first + second) =~= file_of(first) + file_of(second));
    }
}

/// The rejected lines can be read back: no two lists of lines, none with a line break in
/// it, make the same side file.
pub proof fn law_side_file_reads_back(a: Seq<Seq<u8>>, b: Seq<Seq<u8>>)
    requires
        forall|i: int| 0 <= i < a.len() ==> !(#[trigger] a[i]).contains(10u8),
        forall|i: int| 0 <= i < b.len() ==> !(#[trigger] b[i]).contains(10u8),
        file_of(a) == file_of(b),
    ensures
        a == b,
    decreases a.len(),
{
    let fa = file_of(a);
    let fb = file_of(b);
    if a.len() == 0 && b.len() == 0 {
        assert(a =~= b);
    } else if a.len() == 0 {
        assert(fb.len() > 0);
    } else if b.len() == 0 {
        assert(fa.len() > 0);
    } else {
        let ha = file_of(a.drop_last());
        let hb = file_of(b.drop_last());
        let la = a.last();
        let lb = b.last();
        assert(!la.contains(10u8)) by {
            assert(a[a.len() - 1] == la);
        }
        assert(!lb.contains(10u8)) by {
            assert(b[b.len() - 1] == lb);
        }
        assert(fa.len() == ha.len() + la.len() + 1);
        assert(fb.len() == hb.len() + lb.len() + 1);
        lemma_file_ends_in_line_break(a.drop_last());
        lemma_file_ends_in_line_break(b.drop_last());
        if ha.len() < hb.len() {
            assert(fb[hb.len() - 1] == 10u8);
            assert(fa[hb.len() - 1] == la[hb.len() - 1 - ha.len()]);
        } else if hb.len() < ha.len() {
            assert(fa[ha.len() - 1] == 10u8);
            assert(fb[ha.len() - 1] == lb[ha.len() - 1 - hb.len()]);
        } else {
            assert forall|i: int| 0 <= i < ha.len() implies ha[i] == hb[i] by {
                assert(fa[i] == fb[i]);
            }
            assert(ha =~= hb);
            assert forall|i: int| 0 <= i < la.len() implies la[i] == lb[i] by {
                assert(fa[ha.len() + i] == fb[ha.len() + i]);
            }
            assert(la =~= lb);
            law_side_file_reads_back(a.drop_last(), b.drop_last());
            assert(a =~= a.drop_last().push(la));
            assert(b =~= b.drop_last().push(lb));
        }
    }
}

proof fn lemma_file_ends_in_line_break(lines: Seq<Seq<u8>>)
    ensures
        file_of(lines).len() > 0 ==> file_of(lines).last() == 10u8,
{
}

/// The side file after a series of attempts.
pub open spec fn sink_after(sink: SinkState, attempts: Seq<WriteIo>) -> SinkState
    decreases attempts.len(),
{
    if attempts.len() == 0 {
        sink
    } else {
        sink_after(sink, attempts.drop_last()).after(attempts.last())
    }
}

/// How many of `attempts` wrote their line.
pub open spec fn lines_written(attempts: Seq<WriteIo>) -> nat
    decreases attempts.len(),
{
    if attempts.len() == 0 {
        0
    } else {
        lines_written(attempts.drop_last()) + if attempts.last() is Written {
            1nat
        } else {
            0nat
        }
    }
}

/// The count is the number of lines that were written, and the file is open exactly if
/// some attempt came past opening it: without a reject it never is.
pub proof fn law_sink_counts_and_is_lazy(path: Seq<char>, attempts: Seq<WriteIo>)
    requires
        lines_written(attempts) <= u64::MAX,
    ensures
        ({
            let sink = sink_after(SinkState { path, open: false, written: 0 }, attempts);
            &&& sink.path == path
            &&& sink.written == lines_written(attempts)
            &&& sink.open <==> exists|i: int|
                0 <= i < attempts.len() && #[trigger] attempts[i] !is OpenFailed
        }),
    decreases attempts.len(),
{
    if attempts.len() > 0 {
        let earlier = attempts.drop_last();
        law_sink_counts_and_is_lazy(path, earlier);
        assert(attempts[attempts.len() - 1] == attempts.last());
        assert forall|i: int| 0 <= i < earlier.len() implies earlier[i] == #[trigger]
            attempts[i] by {}
        let before = sink_after(SinkState { path, open: false, written: 0 }, earlier);
        if before.open {
            let i = choose|i: int| 0 <= i < earlier.len() && #[trigger] earlier[i] !is OpenFailed;
            assert(attempts[i] !is OpenFailed);
        }
        if exists|i: int| 0 <= i < attempts.len() && #[trigger] attempts[i] !is OpenFailed {
            let i = choose|i: int|
                0 <= i < attempts.len() && #[trigger] attempts[i] !is OpenFailed;
            if i < earlier.len() {
                assert(earlier[i] !is OpenFailed);
            }
        }
    }
}

/// What is appended for a line is the line, byte for byte, and one line break after it.
pub proof fn law_written_line_is_the_line(plan: WritePlan, line: Seq<u8>, sink: SinkState)
    requires
        plan.writes(line, sink),
    ensures
        plan.bytes@.len() == line.len() + 1,
        forall|i: int| 0 <= i < line.len() ==> plan.bytes@[i] == line[i],
        plan.bytes@[line.len() as int] == 10,
        plan.open_first <==> !sink.open,
{
}

/// The place in the side file at which line `i` of `lines` begins.
pub open spec fn line_start(lines: Seq<Seq<u8>>, i: int) -> int
    decreases i,
{
    if i <= 0 {
        0
    } else {
        line_start(lines, i - 1) + lines[i - 1].len() + 1
    }
}

/// The side file gives the rejected lines back. Each of them stands in it byte for byte, where
/// the one before it ends, with a line break behind it; and there is nothing else in the file.
/// So, as no line holds a line break, the file splits at its line breaks into these lines.
pub proof fn law_side_file_gives_the_lines_back(lines: Seq<Seq<u8>>, i: int)
    requires
        0 <= i < lines.len(),
    ensures
        0 <= line_start(lines, i),
        line_start(lines, i + 1) <= file_of(lines).len(),
        forall|j: int|
            0 <= j < lines[i].len() ==> file_of(lines)[line_start(lines, i) + j]
                == #[trigger] lines[i][j],
        file_of(lines)[line_start(lines, i) + lines[i].len()] == 10,
        file_of(lines).len() == line_start(lines, lines.len() as int),
    decreases lines.len(),
{
    let earlier = lines.drop_last();
    let head = file_of(earlier);
    lemma_file_len(lines);
    lemma_file_len(earlier);
    lemma_starts_are_ordered(lines, 0, i);
    lemma_starts_are_ordered(lines, i + 1, lines.len() as int);
    lemma_starts_agree(lines, earlier, i);
    lemma_starts_agree(lines, earlier, earlier.len() as int);
    assert(file_of(lines) == head + file_line(lines.last()));
    if i < earlier.len() {
        law_side_file_gives_the_lines_back(earlier, i);
        lemma_starts_agree(lines, earlier, i + 1);
        assert forall|j: int| 0 <= j < lines[i].len() implies file_of(lines)[line_start(lines, i)
            + j] == #[trigger] lines[i][j] by {
            assert(earlier[i][j] == lines[i][j]);
        }
    }
}

proof fn lemma_file_len(lines: Seq<Seq<u8>>)
    ensures
        file_of(lines).len() == line_start(lines, lines.len() as int),
    decreases lines.len(),
{
    if lines.len() > 0 {
        lemma_file_len(lines.drop_last());
        lemma_starts_agree(lines, lines.drop_last(), lines.len() - 1);
    }
}

proof fn lemma_starts_agree(lines: Seq<Seq<u8>>, earlier: Seq<Seq<u8>>, i: int)
    requires
        lines.len() > 0,
        earlier == lines.drop_last(),
        i <= earlier.len(),
    ensures
        line_start(lines, i) == line_start(earlier, i),
        line_start(lines, i) >= 0,
    decreases i,
{
    if i > 0 {
        lemma_starts_agree(lines, earlier, i - 1);
    }
}

proof fn lemma_starts_are_ordered(lines: Seq<Seq<u8>>, i: int, j: int)
    requires
        0 <= i <= j,
    ensures
        line_start(lines, i) <= line_start(lines, j),
    decreases j - i,
{
    if i < j {
        lemma_starts_are_ordered(lines, i, j - 1);
    }
}

/// A side file is opened by the first attempt that comes past opening it, and stays open; it
/// counts the attempts that wrote, one by one; and it stays where it is.
pub proof fn law_attempts_open_and_count(sink: SinkState, io: WriteIo)
    requires
        io == WriteIo::Written ==> sink.written < u64::MAX,
    ensures
        sink.can_take(io),
        sink.after(io).path == sink.path,
        sink.after(io).open <==> sink.open || io == WriteIo::WriteFailed || io == WriteIo::Written,
        io == WriteIo::Written ==> sink.after(io).written == sink.written + 1,
        io != WriteIo::Written ==> sink.after(io).written == sink.written,
{
}

} // verus!
