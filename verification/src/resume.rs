//! The contiguous-completion watermark that makes an interrupted load resumable.
//!
//! Records are processed out of order, so "lines read" is no safe resume point: a
//! late line may finish before an earlier one is even dispatched. The watermark is
//! the highest line such that every line up to and including it has completed.
use std::collections::HashSet;

use vstd::prelude::*;

verus! {

broadcast use vstd::std_specs::hash::group_hash_axioms;

/// Tracks the contiguous-completion watermark for a resumable load.
///
/// `next` is the lowest line number not yet known to be complete; `out_of_order`
/// holds the completed lines above that gap.
pub struct ResumeTracker {
    next: u64,
    out_of_order: HashSet<u64>,
}

/// `line` is the highest line up to which, itself included, every line of `done` is there.
pub open spec fn is_watermark(done: Set<u64>, line: u64) -> bool {
    &&& line < u64::MAX
    &&& forall|l: u64| l <= line ==> done.contains(l)
    &&& !done.contains((line + 1) as u64)
}

/// Some line number is outside `done`.
pub open spec fn leaves_a_gap(done: Set<u64>) -> bool {
    exists|l: u64| !done.contains(l)
}

/// The lines that a run starting at `first_line` counts as complete before it reads any.
pub open spec fn lines_before(first_line: u64) -> Set<u64> {
    Set::new(|l: u64| l < first_line)
}

/// The view of a tracker is the set of complete lines, those before the start included.
impl View for ResumeTracker {
    type V = Set<u64>;

    closed spec fn view(&self) -> Set<u64> {
        Set::new(|l: u64| l < self.next || self.out_of_order@.contains(l))
    }
}

impl ResumeTracker {
    pub closed spec fn wf(&self) -> bool {
        forall|l: u64| #[trigger] self.out_of_order@.contains(l) ==> l > self.next
    }

    /// A tracker for a run whose first line is `first_line` (the skipped lines plus one).
    pub fn new(first_line: u64) -> (tracker: Self)
        ensures
            tracker.wf(),
            tracker@ == lines_before(first_line),
    {
        let tracker = Self { next: first_line, out_of_order: HashSet::new() };
        assert(tracker@ =~= lines_before(first_line));
        tracker
    }

    /// Records that `line` has completed and moves `next` over every line that is now
    /// contiguous. A line that is complete already changes nothing.
    ///
    /// The number after the last contiguous line has to exist, so one line number
    /// stays open.
    pub fn complete(&mut self, line: u64)
        requires
            old(self).wf(),
            leaves_a_gap(old(self)@.insert(line)),
        ensures
            final(self).wf(),
            final(self)@ == old(self)@.insert(line),
    {
        if line < self.next {
            assert(self@ =~= old(self)@.insert(line));
            return ;
        }
        let ghost target = self@.insert(line);
        let ghost gap = choose|l: u64| !target.contains(l);
        self.out_of_order.insert(line);
        while self.out_of_order.remove(&self.next)
            invariant
                self@ == target,
                !target.contains(gap),
                forall|l: u64| #[trigger] self.out_of_order@.contains(l) ==> l >= self.next,
            ensures
                self@ == target,
                self.wf(),
            decreases u64::MAX - self.next,
        {
            self.next = self.next + 1;
        }
    }

    /// The highest line with every line before it complete: the number of lines that a
    /// resumed run may skip.
    ///
    /// Line 0 counts as complete for every tracker whose first line is at least 1.
    pub fn watermark(&self) -> (line: u64)
        requires
            self.wf(),
            self@.contains(0),
        ensures
            is_watermark(self@, line),
    {
        self.next - 1
    }
}

/// The complete lines of a run that starts at `first_line`, after `lines` have completed
/// in that order.
pub open spec fn completed(first_line: u64, lines: Seq<u64>) -> Set<u64>
    decreases lines.len(),
{
    if lines.len() == 0 {
        lines_before(first_line)
    } else {
        completed(first_line, lines.drop_last()).insert(lines.last())
    }
}

proof fn lemma_completed_is_membership(first_line: u64, lines: Seq<u64>)
    ensures
        forall|l: u64| #[trigger]
            completed(first_line, lines).contains(l) <==> l < first_line || lines.contains(l),
    decreases lines.len(),
{
    if lines.len() > 0 {
        lemma_completed_is_membership(first_line, lines.drop_last());
        assert forall|l: u64| #[trigger] completed(first_line, lines).contains(l) <==> l
            < first_line || lines.contains(l) by {
            let before = completed(first_line, lines.drop_last());
            assert(completed(first_line, lines) == before.insert(lines.last()));
            assert(before.contains(l) <==> l < first_line || lines.drop_last().contains(l));
            if lines.contains(l) {
                let i = choose|i: int| 0 <= i < lines.len() && lines[i] == l;
                if i < lines.len() - 1 {
                    assert(lines.drop_last()[i] == l);
                }
            }
            if lines.drop_last().contains(l) {
                let i = choose|i: int|
                    0 <= i < lines.drop_last().len() && lines.drop_last()[i] == l;
                assert(lines[i] == l);
            }
            assert(lines[lines.len() - 1] == lines.last());
        }
    }
}

/// A resume at the watermark is safe and loses nothing: whatever the order in which the
/// lines of a run completed, every line from the first one up to the watermark is among
/// them, and the line after the watermark is not.
pub proof fn law_watermark_is_safe_and_highest(first_line: u64, lines: Seq<u64>, watermark: u64)
    requires
        is_watermark(completed(first_line, lines), watermark),
    ensures
        forall|l: u64| first_line <= l <= watermark ==> lines.contains(l),
        first_line <= watermark + 1,
        !lines.contains((watermark + 1) as u64),
{
    lemma_completed_is_membership(first_line, lines);
    assert forall|l: u64| first_line <= l <= watermark implies lines.contains(l) by {
        assert(completed(first_line, lines).contains(l));
    }
    assert(!completed(first_line, lines).contains((watermark + 1) as u64));
}

/// Only which lines have completed matters: not the order, and not how often.
pub proof fn law_order_and_repeats_are_irrelevant(first_line: u64, a: Seq<u64>, b: Seq<u64>)
    requires
        forall|l: u64| a.contains(l) <==> b.contains(l),
    ensures
        completed(first_line, a) == completed(first_line, b),
{
    lemma_completed_is_membership(first_line, a);
    lemma_completed_is_membership(first_line, b);
    assert forall|l: u64|
        completed(first_line, a).contains(l) == completed(first_line, b).contains(l) by {
        assert(completed(first_line, a).contains(l) <==> l < first_line || a.contains(l));
        assert(completed(first_line, b).contains(l) <==> l < first_line || b.contains(l));
    }
    assert(completed(first_line, a) =~= completed(first_line, b));
}

/// Before any line has completed, the watermark of a run is the number of lines it skips.
pub proof fn law_fresh_watermark_is_the_skip_count(skip: u64)
    requires
        skip < u64::MAX,
    ensures
        is_watermark(completed((skip + 1) as u64, Seq::empty()), skip),
{
}

/// There is at most one watermark, and one more completion never moves it back.
pub proof fn law_watermark_never_retreats(done: Set<u64>, line: u64, before: u64, after: u64)
    requires
        is_watermark(done, before),
        is_watermark(done.insert(line), after),
    ensures
        before <= after,
        done.contains(line) ==> before == after,
{
    if done.contains(line) {
        assert(done.insert(line) =~= done);
        if after < before {
            assert(done.contains((after + 1) as u64));
        }
        if before < after {
            assert(done.contains((before + 1) as u64));
        }
    } else if after < before {
        assert(done.insert(line).contains((after + 1) as u64));
    }
}

/// What a watermark is: every line up to it is complete, and the one after it is not.
pub proof fn law_watermark_is_the_last_before_the_first_gap(
    done: Set<u64>,
    watermark: u64,
    line: u64,
)
    requires
        is_watermark(done, watermark),
    ensures
        watermark < u64::MAX,
        line <= watermark ==> done.contains(line),
        line == watermark + 1 ==> !done.contains(line),
        leaves_a_gap(done),
{
    assert(!done.contains((watermark + 1) as u64));
}

/// A set of complete lines leaves a gap if any line number is not in it; and the lines before a
/// first line are those with a lower number.
pub proof fn law_gaps_and_starts(done: Set<u64>, first_line: u64, line: u64)
    ensures
        !done.contains(line) ==> leaves_a_gap(done),
        leaves_a_gap(done) ==> exists|l: u64| !done.contains(l),
        lines_before(first_line).contains(line) <==> line < first_line,
{
}

} // verus!
