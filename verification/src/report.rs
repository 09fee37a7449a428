//! What a run prints about itself, and how a file load ends.
//!
//! Tools scrape these lines, so their text is fixed here.
use vstd::prelude::*;
use vstd::string::*;

use crate::loader::FileLoader;
use crate::record::{LoadCounters, RecordInfo};
use crate::resume::is_watermark;
use crate::text::{decimal, decimal_text};

verus! {

pub open spec fn number_text(n: usize) -> Seq<char> {
    decimal_text(n as nat)
}

pub open spec fn total_text(adds: usize, redos: usize, dropped: usize, errors: usize) -> Seq<char> {
    "Processed total of "@ + number_text(adds) + " adds, "@ + number_text(redos)
        + " redo records ("@ + number_text(dropped) + " redo dropped, "@ + number_text(errors)
        + " errors)"@
}

/// The line with the totals of a run.
pub fn total_line(adds: usize, redos: usize, dropped: usize, errors: usize) -> (line: String)
    ensures
        line@ == total_text(adds, redos, dropped, errors),
        line@ == "Processed total of "@ + decimal_text(adds as nat) + " adds, "@ + decimal_text(
            redos as nat,
        ) + " redo records ("@ + decimal_text(dropped as nat) + " redo dropped, "@ + decimal_text(
            errors as nat,
        ) + " errors)"@,
{
    let mut line = "Processed total of ".to_string();
    line.append(decimal(adds as u64).as_str());
    line.append(" adds, ");
    line.append(decimal(redos as u64).as_str());
    line.append(" redo records (");
    line.append(decimal(dropped as u64).as_str());
    line.append(" redo dropped, ");
    line.append(decimal(errors as u64).as_str());
    line.append(" errors)");
    line
}

pub open spec fn file_load_text(
    rejected: usize,
    written: u64,
    reject_path: Seq<char>,
    watermark: u64,
) -> Seq<char> {
    "File load: "@ + number_text(rejected) + " record(s) dead-lettered ("@ + decimal_text(
        written as nat,
    ) + " written to "@ + reject_path + "); safe resume with --skip-lines "@ + decimal_text(
        watermark as nat,
    )
}

/// The line that tells how a file load can be resumed.
pub fn file_load_line(
    rejected: usize,
    written: u64,
    reject_path: &str,
    watermark: u64,
) -> (line: String)
    ensures
        line@ == file_load_text(rejected, written, reject_path@, watermark),
        line@ == "File load: "@ + decimal_text(rejected as nat) + " record(s) dead-lettered ("@
            + decimal_text(written as nat) + " written to "@ + reject_path@
            + "); safe resume with --skip-lines "@ + decimal_text(watermark as nat),
{
    let mut line = "File load: ".to_string();
    line.append(decimal(rejected as u64).as_str());
    line.append(" record(s) dead-lettered (");
    line.append(decimal(written).as_str());
    line.append(" written to ");
    line.append(reject_path);
    line.append("); safe resume with --skip-lines ");
    line.append(decimal(watermark).as_str());
    line
}

pub open spec fn record_text(info: RecordInfo) -> Seq<char> {
    info.data_source@ + " : "@ + info.record_id@
}

/// The line that announces that a rejected record is sent to the dead-letter queue.
pub fn sending_line(info: &RecordInfo) -> (line: String)
    ensures
        line@ == "Sending to deadletter: "@ + record_text(*info),
        line@ == "Sending to deadletter: "@ + info.data_source@ + " : "@ + info.record_id@,
{
    let mut line = "Sending to deadletter: ".to_string();
    line.append(info.data_source.as_str());
    line.append(" : ");
    line.append(info.record_id.as_str());
    assert(line@ =~= "Sending to deadletter: "@ + record_text(*info));
    line
}

/// The line that announces the dead-letter queue at the start of a run.
pub fn dead_letter_line(url: &str) -> (line: String)
    ensures
        line@ == "DeadLetter: "@ + url@,
{
    "DeadLetter: ".to_string().concat(url)
}

/// The warning at the start of a run that was allowed to do without a dead-letter queue.
pub fn no_dead_letter_line(queue_url: &str) -> (line: String)
    ensures
        line@ == "NO dead-letter queue: "@ + queue_url@
            + " has no RedrivePolicy and --dead-letter-queue-url is unset. --allow-no-dlq given: rejected records (bad data / retry timeout) will be DELETED and lost. Only the application log will name them."@,
{
    let mut line = "NO dead-letter queue: ".to_string();
    line.append(queue_url);
    line.append(
        " has no RedrivePolicy and --dead-letter-queue-url is unset. --allow-no-dlq given: rejected records (bad data / retry timeout) will be DELETED and lost. Only the application log will name them.",
    );
    line
}

/// The line that names a rejected record that is deleted and lost, with the text of its body.
pub fn deleted_line(info: &RecordInfo, body: &str) -> (line: String)
    ensures
        line@ == "REJECTING (no DLQ, --allow-no-dlq): deleting "@ + record_text(*info)
            + "; body follows: "@ + body@,
        line@ == "REJECTING (no DLQ, --allow-no-dlq): deleting "@ + info.data_source@ + " : "@
            + info.record_id@ + "; body follows: "@ + body@,
{
    let mut line = "REJECTING (no DLQ, --allow-no-dlq): deleting ".to_string();
    line.append(info.data_source.as_str());
    line.append(" : ");
    line.append(info.record_id.as_str());
    line.append("; body follows: ");
    line.append(body);
    assert(line@ =~= "REJECTING (no DLQ, --allow-no-dlq): deleting "@ + record_text(*info)
        + "; body follows: "@ + body@);
    line
}

/// The line that warns that no worker is free.
pub fn all_stuck_line(max_workers: usize) -> (line: String)
    ensures
        line@ == "All "@ + number_text(max_workers)
            + " threads are stuck on long running records"@,
        line@ == "All "@ + decimal_text(max_workers as nat)
            + " threads are stuck on long running records"@,
{
    let mut line = "All ".to_string();
    line.append(decimal(max_workers as u64).as_str());
    line.append(" threads are stuck on long running records");
    line
}

/// Why a file load failed.
#[derive(Debug, PartialEq, Eq)]
pub enum LoadFailure {
    /// The file could not be read.
    ReadFailed(String),
    /// A worker reported a fatal engine error.
    WorkerFatal,
    /// The load completed, but some rejected lines are not in the side file.
    RejectsUnwritten { count: u64, reject_path: String },
}

impl LoadFailure {
    pub open spec fn message_text(self) -> Seq<char> {
        match self {
            LoadFailure::ReadFailed(reason) => "file read failed: "@ + reason@,
            LoadFailure::WorkerFatal => "a worker reported a fatal engine error during file load"@,
            LoadFailure::RejectsUnwritten { count, reject_path } => decimal_text(count as nat)
                + " rejected record(s) could NOT be written to "@ + reject_path@
                + "; their bodies are in the log"@,
        }
    }

    pub fn message(&self) -> (message: String)
        ensures
            message@ == self.message_text(),
    {
        match self {
            LoadFailure::ReadFailed(reason) => "file read failed: ".to_string().concat(
                reason.as_str(),
            ),
            LoadFailure::WorkerFatal => {
                "a worker reported a fatal engine error during file load".to_string()
            },
            LoadFailure::RejectsUnwritten { count, reject_path } => {
                let mut message = decimal(*count);
                message.append(" rejected record(s) could NOT be written to ");
                message.append(reject_path.as_str());
                message.append("; their bodies are in the log");
                message
            },
        }
    }
}

/// The rejected lines that are not in the side file.
pub open spec fn unwritten_rejects(rejected: usize, written: u64) -> u64 {
    if rejected > written {
        (rejected - written) as u64
    } else {
        0
    }
}

/// How a file load ends. A read error comes first, then a fatal worker, then rejects that
/// exist only in the log.
pub fn load_result(
    read: Result<u64, String>,
    worker_fatal: bool,
    rejected: usize,
    written: u64,
    reject_path: &str,
) -> (result: Result<(), LoadFailure>)
    ensures
        result is Ok <==> read is Ok && !worker_fatal && unwritten_rejects(rejected, written) == 0,
        read matches Err(reason) ==> result == Err::<(), _>(LoadFailure::ReadFailed(reason)),
        read is Ok && worker_fatal ==> result == Err::<(), _>(LoadFailure::WorkerFatal),
        result is Ok <==> read is Ok && !worker_fatal && rejected <= written,
        result matches Err(LoadFailure::RejectsUnwritten { count, .. }) ==> count == rejected
            - written,
        read is Ok && !worker_fatal && unwritten_rejects(rejected, written) != 0 ==> (
        result matches Err(LoadFailure::RejectsUnwritten { count, reject_path: path }) && count
            == unwritten_rejects(rejected, written) && path@ == reject_path@),
{
    match read {
        Err(reason) => Err(LoadFailure::ReadFailed(reason)),
        Ok(_) => {
            let unwritten: u64 = (rejected as u64).saturating_sub(written);
            if worker_fatal {
                Err(LoadFailure::WorkerFatal)
            } else if unwritten != 0 {
                Err(
                    LoadFailure::RejectsUnwritten {
                        count: unwritten,
                        reject_path: reject_path.to_string(),
                    },
                )
            } else {
                Ok(())
            }
        },
    }
}

/// The end of a file load.
#[derive(Debug, PartialEq, Eq)]
pub struct LoadReport {
    pub total_line: String,
    pub file_load_line: String,
    pub watermark: u64,
    pub result: Result<(), LoadFailure>,
}

impl FileLoader {
    /// Closes the books: what to print, where to resume, and whether the load succeeded. The
    /// counts are those of the process as they stand at the end.
    pub fn finish(
        &self,
        read: Result<u64, String>,
        worker_fatal: bool,
        counters: &LoadCounters,
    ) -> (report: LoadReport)
        requires
            self.wf(),
        ensures
            is_watermark(self@.done, report.watermark),
            report.result is Ok <==> read is Ok && !worker_fatal && counters.adds_rejected
                <= self@.sink.written,
            report.result matches Err(LoadFailure::RejectsUnwritten { count, .. }) ==> count
                == counters.adds_rejected - self@.sink.written,
            report.total_line@ == total_text(
                counters.adds_processed,
                0,
                0,
                counters.errors,
            ),
            report.file_load_line@ == file_load_text(
                counters.adds_rejected,
                self@.sink.written,
                self@.sink.path,
                report.watermark,
            ),
            report.result is Ok <==> read is Ok && !worker_fatal && unwritten_rejects(
                counters.adds_rejected,
                self@.sink.written,
            ) == 0,
            read matches Err(reason) ==> report.result == Err::<(), _>(
                LoadFailure::ReadFailed(reason),
            ),
            read is Ok && worker_fatal ==> report.result == Err::<(), _>(LoadFailure::WorkerFatal),
            read is Ok && !worker_fatal && unwritten_rejects(
                counters.adds_rejected,
                self@.sink.written,
            ) != 0 ==> (report.result matches Err(
                LoadFailure::RejectsUnwritten { count, reject_path },
            ) && count == unwritten_rejects(counters.adds_rejected, self@.sink.written)
                && reject_path@ == self@.sink.path),
    {
        let written: u64 = self.rejects_written();
        let watermark: u64 = self.watermark();
        LoadReport {
            total_line: total_line(counters.adds_processed, 0, 0, counters.errors),
            file_load_line: file_load_line(
                counters.adds_rejected,
                written,
                self.reject_path(),
                watermark,
            ),
            watermark,
            result: load_result(
                read,
                worker_fatal,
                counters.adds_rejected,
                written,
                self.reject_path(),
            ),
        }
    }
}

/// What the totals of a run and the end of a load read, and what failures of a load say.
pub proof fn law_report_texts_read(
    adds: usize,
    redos: usize,
    dropped: usize,
    errors: usize,
    written: u64,
    reject_path: Seq<char>,
    watermark: u64,
    failure: LoadFailure,
)
    ensures
        total_text(adds, redos, dropped, errors) == "Processed total of "@ + decimal_text(
            adds as nat,
        ) + " adds, "@ + decimal_text(redos as nat) + " redo records ("@ + decimal_text(
            dropped as nat,
        ) + " redo dropped, "@ + decimal_text(errors as nat) + " errors)"@,
        file_load_text(adds, written, reject_path, watermark) == "File load: "@ + decimal_text(
            adds as nat,
        ) + " record(s) dead-lettered ("@ + decimal_text(written as nat) + " written to "@
            + reject_path + "); safe resume with --skip-lines "@ + decimal_text(watermark as nat),
        match failure {
            LoadFailure::ReadFailed(reason) => failure.message_text() == "file read failed: "@
                + reason@,
            LoadFailure::WorkerFatal => failure.message_text()
                == "a worker reported a fatal engine error during file load"@,
            LoadFailure::RejectsUnwritten { count, reject_path: path } => failure.message_text()
                == decimal_text(count as nat) + " rejected record(s) could NOT be written to "@
                + path@ + "; their bodies are in the log"@,
        },
{
}

/// The rejects that exist only in the log are those beyond the written ones.
pub proof fn law_unwritten_rejects_are_those_beyond_the_written(rejected: usize, written: u64)
    ensures
        rejected >= written ==> unwritten_rejects(rejected, written) == rejected - written,
        rejected <= written ==> unwritten_rejects(rejected, written) == 0,
{
}

} // verus!
