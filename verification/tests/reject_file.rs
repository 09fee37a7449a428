use sz_combined_consumer::reject::{RejectSink, WriteIo, WritePlan};

/// A side file in memory; `None` until it is created.
fn carry_out(plan: &WritePlan, file: &mut Option<Vec<u8>>) -> WriteIo {
    if plan.open_first && file.is_none() {
        *file = Some(Vec::new());
    }
    match file {
        Some(content) => {
            content.extend_from_slice(&plan.bytes);
            WriteIo::Written
        }
        None => WriteIo::WriteFailed,
    }
}

fn write_line(sink: &mut RejectSink, line: &[u8], file: &mut Option<Vec<u8>>) -> bool {
    let plan = sink.write_line(line);
    let io = carry_out(&plan, file);
    sink.note_write(io)
}

#[test]
fn reject_sink_is_lazy_appends_and_counts() {
    let mut file: Option<Vec<u8>> = None;
    let path = "in.jsonl.rejected.jsonl";

    let mut sink = RejectSink::new(path.to_string());
    assert!(
        file.is_none(),
        "sink must not create the file until first write"
    );
    assert_eq!(sink.path(), path);
    assert_eq!(sink.written(), 0);

    assert!(write_line(&mut sink, br#"{"A":1}"#, &mut file), "write 1");
    assert!(write_line(&mut sink, br#"{"B":2}"#, &mut file), "write 2");
    assert_eq!(sink.written(), 2);
    drop(sink);

    // A second sink (resumed run) appends rather than truncating.
    let mut sink2 = RejectSink::new(path.to_string());
    assert!(write_line(&mut sink2, br#"{"C":3}"#, &mut file), "write 3");
    drop(sink2);

    let content = String::from_utf8(file.expect("read back")).expect("read back");
    assert_eq!(content, "{\"A\":1}\n{\"B\":2}\n{\"C\":3}\n");
}

#[test]
fn reject_sink_reports_unwritable_path() {
    let mut sink = RejectSink::new("/nonexistent-dir-for-sz-test/x.jsonl".to_string());
    let plan = sink.write_line(b"{}");
    assert!(plan.open_first);
    assert!(!sink.note_write(WriteIo::OpenFailed));
    assert_eq!(sink.written(), 0);
}

#[test]
fn side_file_is_opened_once_it_could_be_opened() {
    let mut sink = RejectSink::new("x".to_string());
    assert!(sink.write_line(b"1").open_first);
    sink.note_write(WriteIo::OpenFailed);
    assert!(sink.write_line(b"1").open_first);
    sink.note_write(WriteIo::WriteFailed);
    assert!(!sink.write_line(b"1").open_first);
    assert_eq!(sink.written(), 0);
    sink.note_write(WriteIo::Written);
    assert!(!sink.write_line(b"1").open_first);
    assert_eq!(sink.written(), 1);
}

#[test]
fn side_file_reads_back_line_by_line() {
    let mut file = None;
    let mut sink = RejectSink::new("x".to_string());
    let lines: [&[u8]; 4] = [b"  {\"a\" : 1}\t", b"", b"not json", b"\xff\xfe"];
    for line in lines {
        write_line(&mut sink, line, &mut file);
    }
    let content = file.unwrap();
    let read_back: Vec<&[u8]> = content[..content.len() - 1].split(|b| *b == b'\n').collect();
    assert_eq!(read_back, lines);
    assert_eq!(sink.written(), 4);
}
