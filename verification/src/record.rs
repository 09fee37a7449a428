//! Records on their way through the worker pool.
use vstd::prelude::*;

verus! {

/// What identifies a record.
#[derive(Debug, PartialEq, Eq)]
pub struct RecordInfo {
    pub data_source: String,
    pub record_id: String,
}

impl RecordInfo {
    /// The identity of a message that could not even be parsed.
    pub fn empty() -> (info: Self)
        ensures
            info.data_source@ == Seq::<char>::empty(),
            info.record_id@ == Seq::<char>::empty(),
    {
        RecordInfo { data_source: String::new(), record_id: String::new() }
    }
}

impl Clone for RecordInfo {
    fn clone(&self) -> (copy: Self)
        ensures
            copy == *self,
    {
        RecordInfo { data_source: self.data_source.clone(), record_id: self.record_id.clone() }
    }
}

/// A record handed to the worker pool. The tag comes back with its outcome.
#[derive(Debug, PartialEq, Eq)]
pub struct LoadItem {
    pub delivery_tag: u64,
    pub body: Vec<u8>,
    pub info: RecordInfo,
}

/// What a worker decided about a record.
#[derive(Debug, PartialEq, Eq)]
pub enum Action {
    /// The record was added; the engine's response, if one was asked for.
    Ack(Option<String>),
    /// The record is bad and must not be tried again.
    RejectNoRequeue,
    /// The engine failed in a way that stops the run.
    Fatal(String),
}

/// A worker's report on one record.
#[derive(Debug, PartialEq, Eq)]
pub struct Outcome {
    pub delivery_tag: u64,
    pub info: RecordInfo,
    pub action: Action,
}

/// Which queue a worker serves first.
#[derive(Debug, Clone, Copy, PartialEq, Eq)]
pub enum Class {
    RedoPreferring,
    LoadPreferring,
}

/// Counts of what became of the records of the process, over all its runs and threads. They
/// wrap around at the end of their range, as atomic counters do.
#[derive(Debug, Clone, Copy, PartialEq, Eq)]
pub struct LoadCounters {
    pub adds_processed: usize,
    pub adds_rejected: usize,
    pub errors: usize,
}

impl LoadCounters {
    pub fn new() -> (counters: Self)
        ensures
            counters.adds_processed == 0,
            counters.adds_rejected == 0,
            counters.errors == 0,
    {
        LoadCounters { adds_processed: 0, adds_rejected: 0, errors: 0 }
    }

    /// One more record was added.
    pub open spec fn with_add(self) -> Self {
        LoadCounters { adds_processed: self.adds_processed.wrapping_add(1), ..self }
    }

    /// One more record was rejected.
    pub open spec fn with_reject(self) -> Self {
        LoadCounters { adds_rejected: self.adds_rejected.wrapping_add(1), ..self }
    }

    /// One more engine error was reported.
    pub open spec fn with_error(self) -> Self {
        LoadCounters { errors: self.errors.wrapping_add(1), ..self }
    }

    pub fn count_add(&mut self)
        ensures
            *final(self) == old(self).with_add(),
            final(self).adds_processed == old(self).adds_processed.wrapping_add(1),
            final(self).adds_rejected == old(self).adds_rejected,
            final(self).errors == old(self).errors,
    {
        self.adds_processed = self.adds_processed.wrapping_add(1);
    }

    pub fn count_reject(&mut self)
        ensures
            *final(self) == old(self).with_reject(),
            final(self).adds_rejected == old(self).adds_rejected.wrapping_add(1),
            final(self).adds_processed == old(self).adds_processed,
            final(self).errors == old(self).errors,
    {
        self.adds_rejected = self.adds_rejected.wrapping_add(1);
    }

    pub fn count_error(&mut self)
        ensures
            *final(self) == old(self).with_error(),
            final(self).errors == old(self).errors.wrapping_add(1),
            final(self).adds_processed == old(self).adds_processed,
            final(self).adds_rejected == old(self).adds_rejected,
    {
        self.errors = self.errors.wrapping_add(1);
    }
}

/// Each count stands for itself: counting an addition, a reject or an error adds one to that
/// count, as long as it has room, and leaves the other two alone.
pub proof fn law_counts_are_separate(counters: LoadCounters)
    ensures
        counters.adds_processed < usize::MAX ==> counters.with_add().adds_processed
            == counters.adds_processed + 1,
        counters.with_add().adds_rejected == counters.adds_rejected,
        counters.with_add().errors == counters.errors,
        counters.adds_rejected < usize::MAX ==> counters.with_reject().adds_rejected
            == counters.adds_rejected + 1,
        counters.with_reject().adds_processed == counters.adds_processed,
        counters.with_reject().errors == counters.errors,
        counters.errors < usize::MAX ==> counters.with_error().errors == counters.errors + 1,
        counters.with_error().adds_processed == counters.adds_processed,
        counters.with_error().adds_rejected == counters.adds_rejected,
{
}

} // verus!
