use sz_combined_consumer::dead_letter::DeadLetter;
use sz_combined_consumer::driver::{Driver, RunOutcome, StatusBaseline, WorkerPlan};
use sz_combined_consumer::in_flight::{InFlight, SqsInFlight};
use sz_combined_consumer::main_loop::{MainAction, MainEvent, MainLoop, SettledNote};
use sz_combined_consumer::record::{Action, Class, LoadCounters, Outcome, RecordInfo};
use sz_combined_consumer::report::{
    all_stuck_line, dead_letter_line, deleted_line, no_dead_letter_line, sending_line, total_line,
};
use sz_combined_consumer::settle::{
    dead_letter_request, FifoKeys, ForwardRequest, RejectStep, Settled,
};

fn info(id: &str) -> RecordInfo {
    RecordInfo {
        data_source: "TEST".to_string(),
        record_id: id.to_string(),
    }
}

fn message(id: &str, body: &[u8]) -> SqsInFlight {
    SqsInFlight {
        receipt_handle: format!("handle-{id}"),
        body: body.to_vec(),
        info: info(id),
        started: 0,
        extended: 0,
        message_group_id: None,
        message_id: None,
    }
}

fn outcome(tag: u64, action: Action) -> Outcome {
    Outcome {
        delivery_tag: tag,
        info: info("out"),
        action,
    }
}

fn queue(url: &str) -> DeadLetter {
    DeadLetter::from_url(url.to_string())
}

#[test]
fn forward_keeps_the_body_byte_for_byte() {
    let body = "  {\"NAME\":\"Zoë \\u0041\"}\n".as_bytes();
    let request = dead_letter_request(&queue("https://sqs.x/1/dlq"), &message("1", body)).unwrap();
    assert_eq!(
        request,
        ForwardRequest {
            queue_url: "https://sqs.x/1/dlq".to_string(),
            body: "  {\"NAME\":\"Zoë \\u0041\"}\n".to_string(),
            fifo: None,
        }
    );
}

#[test]
fn forward_of_bytes_that_are_no_text_is_impossible() {
    let dead_letter = queue("https://sqs.x/1/dlq");
    assert_eq!(dead_letter_request(&dead_letter, &message("1", b"\xff")), None);
    assert_eq!(dead_letter_request(&dead_letter, &message("1", b"a\xc3")), None);
    assert!(dead_letter_request(&dead_letter, &message("1", b"")).is_some());
}

#[test]
fn fifo_forward_reuses_what_the_message_came_with() {
    let dead_letter = queue("https://sqs.x/1/dlq.fifo");
    let mut m = message("7", b"{}");
    let keys = |m: &SqsInFlight| dead_letter_request(&dead_letter, m).unwrap().fifo.unwrap();
    assert_eq!(
        keys(&m),
        FifoKeys {
            group_id: "TEST".to_string(),
            deduplication_id: "TEST-7".to_string(),
        }
    );
    m.message_group_id = Some("group".to_string());
    m.message_id = Some("mid".to_string());
    assert_eq!(
        keys(&m),
        FifoKeys {
            group_id: "group".to_string(),
            deduplication_id: "mid".to_string(),
        }
    );
}

struct Run {
    main: MainLoop,
    in_flight: InFlight,
    counters: LoadCounters,
    dead_letter: Option<DeadLetter>,
}

impl Run {
    fn new(dead_letter: Option<DeadLetter>) -> Self {
        Run {
            main: MainLoop::new(),
            in_flight: InFlight::new(),
            counters: LoadCounters::new(),
            dead_letter,
        }
    }

    fn step(&mut self, event: MainEvent) -> MainAction {
        self.main.step(
            event,
            self.dead_letter.as_ref(),
            &mut self.in_flight,
            &mut self.counters,
        )
    }

    /// The handles that go out at the end.
    fn finish(&mut self) -> (Vec<String>, RunOutcome) {
        assert_eq!(self.step(MainEvent::ResultsClosed), MainAction::Join);
        let event = MainEvent::Joined {
            all_workers_joined: true,
        };
        match self.step(event) {
            MainAction::Finish { batches, outcome } => {
                let entries = batches.into_iter().flatten();
                (entries.map(|e| e.receipt_handle).collect(), outcome)
            }
            action => panic!("{action:?}"),
        }
    }
}

fn settled(action: MainAction) -> (SettledNote, u64, u64, bool, usize) {
    match action {
        MainAction::Settled(r) => (r.note, r.before, r.processed, r.stop, r.batches.len()),
        action => panic!("{action:?}"),
    }
}

#[test]
fn added_records_are_deleted() {
    let mut run = Run::new(Some(queue("dlq")));
    run.in_flight.insert(1, message("1", b"{}"));
    let response = Some("resp".to_string());
    let action = run.step(MainEvent::Finished(outcome(1, Action::Ack(response.clone()))));
    assert_eq!(
        settled(action),
        (SettledNote::Added { response }, 0, 1, false, 0)
    );
    assert_eq!(run.in_flight.len(), 0);
    assert_eq!(run.counters.adds_processed, 1);
    assert_eq!(run.finish().0, vec!["handle-1"]);
}

#[test]
fn rejected_records_are_deleted_only_after_they_were_sent() {
    for (sent, deleted) in [(true, vec!["handle-1".to_string()]), (false, Vec::new())] {
        let mut run = Run::new(Some(queue("dlq")));
        run.in_flight.insert(1, message("1", b"{\"x\":1}"));
        match run.step(MainEvent::Finished(outcome(1, Action::RejectNoRequeue))) {
            MainAction::Reject(RejectStep::Forward(request)) => {
                assert_eq!(request.body, "{\"x\":1}");
                assert_eq!(request.queue_url, "dlq");
            }
            action => panic!("{action:?}"),
        }
        assert_eq!(run.main.rejected().unwrap().info, info("1"));
        let action = run.step(MainEvent::Rejected { sent });
        assert_eq!(settled(action), (SettledNote::Rejected, 0, 0, false, 0));
        assert_eq!(run.counters.adds_rejected, 1);
        assert_eq!(run.finish().0, deleted);
    }
}

#[test]
fn rejected_records_without_a_dead_letter_queue_are_deleted() {
    let mut run = Run::new(None);
    run.in_flight.insert(1, message("1", b"\xff"));
    assert_eq!(
        run.step(MainEvent::Finished(outcome(1, Action::RejectNoRequeue))),
        MainAction::Reject(RejectStep::Deleted)
    );
    run.step(MainEvent::Rejected { sent: false });
    assert_eq!(run.finish().0, vec!["handle-1"]);
}

#[test]
fn rejected_records_that_cannot_be_sent_are_left_alone() {
    let mut run = Run::new(Some(queue("dlq")));
    run.in_flight.insert(1, message("1", b"\xff"));
    assert_eq!(
        run.step(MainEvent::Finished(outcome(1, Action::RejectNoRequeue))),
        MainAction::Reject(RejectStep::Unforwardable)
    );
    run.step(MainEvent::Rejected { sent: true });
    assert!(run.finish().0.is_empty());
}

#[test]
fn outcomes_of_unknown_messages_delete_nothing() {
    let mut run = Run::new(Some(queue("dlq")));
    let action = run.step(MainEvent::Finished(outcome(9, Action::RejectNoRequeue)));
    assert_eq!(
        settled(action),
        (
            SettledNote::RejectedUnknown { info: info("out") },
            0,
            0,
            false,
            0
        )
    );
    let action = run.step(MainEvent::Finished(outcome(9, Action::Ack(None))));
    assert_eq!(
        settled(action),
        (SettledNote::Added { response: None }, 0, 1, false, 0)
    );
    assert_eq!(run.counters.adds_rejected, 1);
    assert!(run.finish().0.is_empty());
}

#[test]
fn fatal_errors_leave_the_message_and_stop_the_run() {
    let mut run = Run::new(Some(queue("dlq")));
    run.in_flight.insert(1, message("1", b"{}"));
    run.in_flight.insert(2, message("2", b"{}"));
    for (tag, reason) in [(1, "first"), (2, "second")] {
        let action = run.step(MainEvent::Finished(outcome(
            tag,
            Action::Fatal(reason.to_string()),
        )));
        assert_eq!(
            settled(action),
            (SettledNote::Fatal(reason.to_string()), 0, 0, true, 0)
        );
    }
    assert!(run.main.is_shutting_down());
    assert_eq!(run.step(MainEvent::Signal), MainAction::Wait);
    assert_eq!(
        run.finish(),
        (
            Vec::new(),
            RunOutcome {
                all_workers_joined: true,
                fatal: Some("first".to_string()),
            }
        )
    );
    assert_eq!(run.in_flight.len(), 0);
}

#[test]
fn only_the_first_signal_stops_the_run() {
    let mut run = Run::new(None);
    assert!(!run.main.is_shutting_down());
    assert_eq!(run.step(MainEvent::Signal), MainAction::Stop);
    assert_eq!(run.step(MainEvent::Signal), MainAction::Wait);
    assert!(run.main.is_shutting_down());
    assert_eq!(run.finish().1.fatal, None);
}

#[test]
fn deletes_go_out_when_a_batch_is_full_or_it_is_time() {
    let mut run = Run::new(None);
    for tag in 1..=10 {
        run.in_flight.insert(tag, message(&format!("{tag}"), b"{}"));
        let action = run.step(MainEvent::Finished(outcome(tag, Action::Ack(None))));
        let batches = settled(action).4;
        assert_eq!(batches, if tag == 10 { 1 } else { 0 });
    }
    assert_eq!(run.step(MainEvent::FlushDue), MainAction::Flush(Vec::new()));
    run.in_flight.insert(11, message("11", b"{}"));
    run.step(MainEvent::Finished(outcome(11, Action::Ack(None))));
    match run.step(MainEvent::FlushDue) {
        MainAction::Flush(batches) => {
            assert_eq!(batches.len(), 1);
            assert_eq!(batches[0][0].id, "11");
        }
        action => panic!("{action:?}"),
    }
    assert!(run.finish().0.is_empty());
}

#[test]
fn driver_counts_adds_and_keeps_the_first_reason() {
    let mut driver = Driver::new();
    driver.on_settled(Settled::Added, 0);
    driver.on_settled(Settled::Rejected, 0);
    let step = driver.on_settled(Settled::Added, 10);
    assert_eq!((step.before, step.processed), (1, 2));
    assert!(step.flush && !step.stop);
    assert!(driver.on_settled(Settled::Fatal("a".to_string()), 9).stop);
    driver.on_settled(Settled::Fatal("b".to_string()), 9);
    assert!(!driver.on_signal());
    let end = driver.finish(false);
    assert!(!end.all_workers_joined);
    assert_eq!(end.fatal.as_deref(), Some("a"));
}

#[test]
fn first_workers_prefer_redo() {
    let plan = WorkerPlan::new(8, 3, 5);
    assert_eq!(plan.load_pref, 5);
    assert_eq!(plan.work_capacity, 8);
    assert_eq!(plan.result_capacity, 16);
    assert_eq!(plan.redo_capacity, 5);
    assert_eq!(plan.in_flight_cap, 13);
    assert_eq!(plan.class_of(2), Class::RedoPreferring);
    assert_eq!(plan.class_of(3), Class::LoadPreferring);
}

#[test]
fn status_counts_since_the_last_line() {
    let mut baseline = StatusBaseline::new();
    assert_eq!(baseline.advance(10, 4), (10, 4));
    assert_eq!(baseline.advance(15, 4), (5, 0));
}

#[test]
fn printed_lines_have_a_fixed_text() {
    assert_eq!(
        total_line(12, 3, 1, 2),
        "Processed total of 12 adds, 3 redo records (1 redo dropped, 2 errors)"
    );
    assert_eq!(
        sending_line(&RecordInfo {
            data_source: "E2E_NO_SUCH_DSRC".to_string(),
            record_id: "SQS_BAD_DSRC".to_string(),
        }),
        "Sending to deadletter: E2E_NO_SUCH_DSRC : SQS_BAD_DSRC"
    );
    assert_eq!(dead_letter_line("https://sqs.x/1/dlq"), "DeadLetter: https://sqs.x/1/dlq");
    assert_eq!(
        no_dead_letter_line("https://sqs.x/1/source"),
        "NO dead-letter queue: https://sqs.x/1/source has no RedrivePolicy and \
         --dead-letter-queue-url is unset. --allow-no-dlq given: rejected records (bad data / \
         retry timeout) will be DELETED and lost. Only the application log will name them."
    );
    assert_eq!(
        deleted_line(
            &RecordInfo {
                data_source: "E2E_NO_SUCH_DSRC".to_string(),
                record_id: "SQS_NODLQ".to_string(),
            },
            "{}"
        ),
        "REJECTING (no DLQ, --allow-no-dlq): deleting E2E_NO_SUCH_DSRC : SQS_NODLQ; \
         body follows: {}"
    );
    assert_eq!(
        all_stuck_line(4),
        "All 4 threads are stuck on long running records"
    );
}

#[test]
fn counters_wrap_around() {
    let mut counters = LoadCounters {
        adds_processed: usize::MAX,
        adds_rejected: usize::MAX,
        errors: usize::MAX,
    };
    counters.count_add();
    counters.count_reject();
    counters.count_error();
    assert_eq!(counters, LoadCounters::new());
}
