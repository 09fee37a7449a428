use sz_combined_consumer::loader::{ConsumeStep, FeedStep, FileLoader, LineStep};
use sz_combined_consumer::reader::{FileReader, ReadAction, ReadEvent};
use sz_combined_consumer::record::{Action, LoadCounters, LoadItem, Outcome, RecordInfo};
use sz_combined_consumer::reject::WriteIo;
use sz_combined_consumer::report::{load_result, LoadFailure};

fn loader(skip: u64) -> FileLoader {
    FileLoader::new(skip, true, "in.rejected.jsonl".to_string())
}

/// Records are texts like `SOURCE/ID`.
fn parse(record: &str) -> Option<RecordInfo> {
    let (source, id) = record.split_once('/')?;
    Some(RecordInfo {
        data_source: source.to_string(),
        record_id: id.to_string(),
    })
}

fn outcome(tag: u64, action: Action) -> Outcome {
    Outcome {
        delivery_tag: tag,
        info: RecordInfo::empty(),
        action,
    }
}

/// Reads `lines` to the end, with a pool that takes `pool` items. Gives the items, the side
/// file and the end of the reader.
fn read_all(
    loader: &mut FileLoader,
    counters: &mut LoadCounters,
    lines: &[&str],
    pool: usize,
) -> (Vec<LoadItem>, Vec<u8>, Result<u64, String>) {
    let mut reader = FileReader::new();
    let mut items = Vec::new();
    let mut side_file = Vec::new();
    let mut next = lines.iter();
    let mut action = ReadAction::Fetch;
    loop {
        let event = match action {
            ReadAction::Fetch => ReadEvent::Fetched {
                running: true,
                line: next.next().map(|line| Ok(line.to_string())),
            },
            ReadAction::Parse => ReadEvent::Parsed {
                info: parse(reader.record().unwrap()),
            },
            ReadAction::Dispatch(item) => {
                let accepted = items.len() < pool;
                if accepted {
                    items.push(item);
                }
                ReadEvent::Sent { accepted }
            }
            ReadAction::Reject(plan) => {
                side_file.extend_from_slice(&plan.bytes);
                ReadEvent::RejectWritten {
                    io: WriteIo::Written,
                }
            }
            ReadAction::Done(end) => return (items, side_file, end),
        };
        action = reader.step(event, loader, counters);
    }
}

#[test]
fn lines_are_fed_under_their_number_in_the_file() {
    let mut counts = LoadCounters::new();
    let mut books = loader(2);
    let lines = ["S/1", "S/2", "S/3", "  ", " S/5 \r", "junk", "S/7"];
    let (items, side_file, end) = read_all(&mut books, &mut counts, &lines, 100);
    assert_eq!(end, Ok(7));
    let fed: Vec<(u64, &[u8])> = items
        .iter()
        .map(|item| (item.delivery_tag, item.body.as_slice()))
        .collect();
    assert_eq!(fed, vec![(3, &b"S/3"[..]), (5, b"S/5"), (7, b"S/7")]);
    assert_eq!(items[1].info.record_id, "5");
    assert_eq!(side_file, b"junk\n");
    // Only the blank and the unparseable line are complete so far.
    assert_eq!(books.watermark(), 2);
    books.consume(outcome(3, Action::Ack(None)), &mut counts);
    assert_eq!(books.watermark(), 4);
    books.consume(outcome(7, Action::Ack(None)), &mut counts);
    assert_eq!(books.watermark(), 4);
    books.consume(outcome(5, Action::Ack(None)), &mut counts);
    assert_eq!(books.watermark(), 7);
}

#[test]
fn rejected_lines_are_written_as_they_were_read() {
    let mut counts = LoadCounters::new();
    let mut books = loader(0);
    let lines = ["\t not a record  ", "  S/2\t"];
    let (items, side_file, _) = read_all(&mut books, &mut counts, &lines, 100);
    assert_eq!(side_file, b"\t not a record  \n");
    assert_eq!(items[0].body, b"S/2");
    match books.consume(outcome(2, Action::RejectNoRequeue), &mut counts) {
        ConsumeStep::Reject { line, plan } => {
            assert_eq!(line, b"  S/2\t");
            assert_eq!(plan.bytes, b"  S/2\t\n");
            assert!(!plan.open_first);
        }
        step => panic!("{step:?}"),
    }
    // The line is complete once the write was tried.
    assert_eq!(books.watermark(), 1);
    assert!(!books.reject_written(2, WriteIo::WriteFailed));
    assert_eq!(books.watermark(), 2);
    assert_eq!(books.rejects_written(), 1);
    assert_eq!(counts.adds_rejected, 2);
}

#[test]
fn reading_stops_when_the_pool_is_gone() {
    let mut counts = LoadCounters::new();
    let mut books = loader(0);
    let (items, _, end) = read_all(&mut books, &mut counts, &["S/1", "S/2", "S/3"], 1);
    assert_eq!(items.len(), 1);
    assert_eq!(end, Ok(2));
    books.consume(outcome(1, Action::Ack(None)), &mut counts);
    // Line 2 was withdrawn and so is not complete.
    assert_eq!(books.watermark(), 1);
    let step = books.consume(outcome(2, Action::RejectNoRequeue), &mut counts);
    assert_eq!(step, ConsumeStep::RejectUnknown);
}

#[test]
fn reading_stops_on_shutdown_before_the_line_counts() {
    let mut counts = LoadCounters::new();
    for line in [Ok("S/1".to_string()), Err("broken".to_string())] {
        let mut books = loader(0);
        let mut reader = FileReader::new();
        let event = ReadEvent::Fetched {
            running: false,
            line: Some(line),
        };
        assert_eq!(reader.step(event, &mut books, &mut counts), ReadAction::Done(Ok(0)));
        assert_eq!(books.lines_read(), 0);
    }
}

#[test]
fn read_errors_name_the_line() {
    let mut counts = LoadCounters::new();
    let mut books = loader(5);
    let mut reader = FileReader::new();
    let event = ReadEvent::Fetched {
        running: true,
        line: Some(Ok("S/1".to_string())),
    };
    assert_eq!(reader.step(event, &mut books, &mut counts), ReadAction::Fetch);
    let event = ReadEvent::Fetched {
        running: true,
        line: Some(Err("stream did not contain valid UTF-8".to_string())),
    };
    assert_eq!(
        reader.step(event, &mut books, &mut counts),
        ReadAction::Done(Err(
            "read error at line 2: stream did not contain valid UTF-8".to_string()
        ))
    );
}

#[test]
fn an_empty_file_is_read_at_once() {
    let mut counts = LoadCounters::new();
    let mut books = loader(3);
    let (items, side_file, end) = read_all(&mut books, &mut counts, &[], 1);
    assert!(items.is_empty() && side_file.is_empty());
    assert_eq!(end, Ok(0));
    assert_eq!(books.watermark(), 3);
}

#[test]
fn blank_lines_are_those_of_white_space_alone() {
    let white_space = [
        '\u{9}', '\u{a}', '\u{b}', '\u{c}', '\u{d}', '\u{20}', '\u{85}', '\u{a0}', '\u{1680}',
        '\u{2000}', '\u{2001}', '\u{2002}', '\u{2003}', '\u{2004}', '\u{2005}', '\u{2006}',
        '\u{2007}', '\u{2008}', '\u{2009}', '\u{200a}', '\u{2028}', '\u{2029}', '\u{202f}',
        '\u{205f}', '\u{3000}',
    ];
    let mut books = loader(0);
    for c in '\0'..=char::MAX {
        let step = books.read_line(&c.to_string());
        assert_eq!(
            step == LineStep::Blank,
            white_space.contains(&c),
            "{:?}",
            c
        );
    }
    for c in white_space {
        match books.read_line(&format!("{c}{c}a{c}b{c}")) {
            LineStep::Parse(pending) => assert_eq!(pending.record, format!("a{c}b")),
            step => panic!("{step:?}"),
        }
    }
}

#[test]
fn progress_is_due_every_so_many_lines_after_the_skipped_ones() {
    let mut books = loader(50_000);
    let mut due = Vec::new();
    for _ in 0..150_001 {
        books.read_line("");
        if books.progress_due() {
            due.push(books.lines_read());
        }
    }
    assert_eq!(due, vec![100_000, 150_000]);
    assert_eq!(books.watermark(), 150_001);
}

#[test]
fn engine_failure_holds_the_watermark() {
    let mut counts = LoadCounters::new();
    let mut books = loader(0);
    read_all(&mut books, &mut counts, &["S/1", "S/2"], 10);
    assert_eq!(
        books.consume(outcome(1, Action::Fatal("SENZ0999".to_string())), &mut counts),
        ConsumeStep::Fatal("SENZ0999".to_string())
    );
    books.consume(outcome(2, Action::Ack(None)), &mut counts);
    assert_eq!(books.watermark(), 0);
    assert_eq!(counts.errors, 1);
    assert_eq!(counts.adds_processed, 1);
}

#[test]
fn responses_are_printed_on_demand_only() {
    let mut counts = LoadCounters::new();
    let response = Some("{\"AFFECTED\":[]}".to_string());
    let mut loud = loader(0);
    assert_eq!(
        loud.consume(outcome(1, Action::Ack(response.clone())), &mut counts),
        ConsumeStep::Added {
            response: response.clone()
        }
    );
    let mut quiet = FileLoader::new(0, false, "r".to_string());
    assert_eq!(
        quiet.consume(outcome(1, Action::Ack(response)), &mut counts),
        ConsumeStep::Added { response: None }
    );
}

#[test]
fn records_are_in_flight_before_they_are_handed_over() {
    let mut counts = LoadCounters::new();
    let mut books = loader(0);
    let pending = match books.read_line("S/1") {
        LineStep::Parse(pending) => pending,
        step => panic!("{step:?}"),
    };
    match books.feed(pending, parse("S/1"), &mut counts) {
        FeedStep::Dispatch(item) => assert_eq!(item.delivery_tag, 1),
        step => panic!("{step:?}"),
    }
    assert!(matches!(
        books.consume(outcome(1, Action::RejectNoRequeue), &mut counts),
        ConsumeStep::Reject { .. }
    ));
}

#[test]
fn report_of_a_load_gives_totals_and_the_resume_point() {
    let mut counts = LoadCounters::new();
    let mut books = loader(1);
    let (_, _, end) = read_all(&mut books, &mut counts, &["S/1", "S/2", "junk", "S/4"], 10);
    books.consume(outcome(2, Action::Ack(None)), &mut counts);
    let report = books.finish(end, false, &counts);
    assert_eq!(
        report.total_line,
        "Processed total of 1 adds, 0 redo records (0 redo dropped, 0 errors)"
    );
    assert_eq!(
        report.file_load_line,
        "File load: 1 record(s) dead-lettered (1 written to in.rejected.jsonl); \
         safe resume with --skip-lines 3"
    );
    assert_eq!(report.watermark, 3);
    assert_eq!(report.result, Ok(()));
}

#[test]
fn unwritten_rejects_fail_the_load() {
    let mut counts = LoadCounters::new();
    let mut books = loader(0);
    let pending = match books.read_line("junk") {
        LineStep::Parse(pending) => pending,
        step => panic!("{step:?}"),
    };
    books.feed(pending, None, &mut counts);
    books.reject_written(1, WriteIo::OpenFailed);
    let report = books.finish(Ok(1), false, &counts);
    let failure = report.result.unwrap_err();
    assert_eq!(
        failure.message(),
        "1 rejected record(s) could NOT be written to in.rejected.jsonl; \
         their bodies are in the log"
    );
    assert_eq!(report.watermark, 1);
}

#[test]
fn failures_of_a_load_have_an_order() {
    assert_eq!(load_result(Ok(9), false, 3, 3, "r"), Ok(()));
    assert_eq!(load_result(Ok(9), false, 2, 3, "r"), Ok(()));
    assert_eq!(
        load_result(Ok(9), false, 5, 3, "r"),
        Err(LoadFailure::RejectsUnwritten {
            count: 2,
            reject_path: "r".to_string()
        })
    );
    let fatal = load_result(Ok(9), true, 5, 3, "r").unwrap_err();
    assert_eq!(fatal, LoadFailure::WorkerFatal);
    assert_eq!(
        fatal.message(),
        "a worker reported a fatal engine error during file load"
    );
    let read = load_result(Err("read error at line 4: x".to_string()), true, 5, 3, "r");
    assert_eq!(
        read.unwrap_err().message(),
        "file read failed: read error at line 4: x"
    );
}

#[test]
fn totals_are_those_of_the_process() {
    // A process that has loaded before, with a reject that is not in this side file.
    let mut counts = LoadCounters {
        adds_processed: 10,
        adds_rejected: 1,
        errors: 2,
    };
    let mut books = loader(0);
    let (_, _, end) = read_all(&mut books, &mut counts, &["S/1"], 10);
    books.consume(outcome(1, Action::Ack(None)), &mut counts);
    let report = books.finish(end, false, &counts);
    assert_eq!(
        report.total_line,
        "Processed total of 11 adds, 0 redo records (0 redo dropped, 2 errors)"
    );
    assert_eq!(
        report.result,
        Err(LoadFailure::RejectsUnwritten {
            count: 1,
            reject_path: "in.rejected.jsonl".to_string()
        })
    );
}

#[test]
fn side_file_of_a_load_holds_the_rejected_lines_in_order() {
    let mut counts = LoadCounters::new();
    let mut books = loader(0);
    let lines = [" junk", "S/2 ", "", "S/4", "more junk\t"];
    let (_, mut side_file, _) = read_all(&mut books, &mut counts, &lines, 10);
    for tag in [4, 2] {
        match books.consume(outcome(tag, Action::RejectNoRequeue), &mut counts) {
            ConsumeStep::Reject { plan, .. } => {
                // The write of line 4 fails.
                let io = if tag == 4 {
                    WriteIo::WriteFailed
                } else {
                    side_file.extend_from_slice(&plan.bytes);
                    WriteIo::Written
                };
                books.reject_written(tag, io);
            }
            step => panic!("{step:?}"),
        }
    }
    assert_eq!(side_file, b" junk\nmore junk\t\nS/2 \n");
    assert_eq!(books.rejects_written(), 3);
    assert_eq!(counts.adds_rejected, 4);
    assert_eq!(books.watermark(), 5);
}
