use sz_combined_consumer::dead_letter::DeadLetter;
use sz_combined_consumer::in_flight::InFlight;
use sz_combined_consumer::main_loop::{MainAction, MainEvent, MainLoop};
use sz_combined_consumer::poll::{receive_room, ReceivedMessage};
use sz_combined_consumer::poll_loop::{PollAction, PollEvent, PollLoop};
use sz_combined_consumer::record::{Action, LoadCounters, LoadItem, Outcome, RecordInfo};
use sz_combined_consumer::settle::RejectStep;

fn message(name: &str, body: &str) -> ReceivedMessage {
    ReceivedMessage {
        body: Some(body.to_string()),
        receipt_handle: Some(format!("handle-{name}")),
        message_group_id: Some(format!("group-{name}")),
        message_id: Some(format!("id-{name}")),
    }
}

/// Bodies are texts like `SOURCE/ID`.
fn parse(body: &str) -> Option<RecordInfo> {
    let (source, id) = body.split_once('/')?;
    Some(RecordInfo {
        data_source: source.to_string(),
        record_id: id.to_string(),
    })
}

#[test]
fn receives_are_bounded_by_room_and_request() {
    assert_eq!(receive_room(0, 20, 10), Some(10));
    assert_eq!(receive_room(15, 20, 10), Some(5));
    assert_eq!(receive_room(19, 20, 10), Some(1));
    assert_eq!(receive_room(20, 20, 10), None);
    assert_eq!(receive_room(21, 20, 10), None);
    assert_eq!(receive_room(0, 0, 10), None);
    // A request asks for one message at least.
    assert_eq!(receive_room(0, 20, 0), Some(1));
}

struct Run {
    poll: PollLoop,
    in_flight: InFlight,
    counters: LoadCounters,
    dead_letter: Option<DeadLetter>,
}

impl Run {
    fn new(cap: usize, dead_letter: Option<&str>) -> Self {
        Run {
            poll: PollLoop::new(cap, 10),
            in_flight: InFlight::new(),
            counters: LoadCounters::new(),
            dead_letter: dead_letter.map(|url| DeadLetter::from_url(url.to_string())),
        }
    }

    fn step(&mut self, event: PollEvent) -> PollAction {
        self.poll.step(
            event,
            self.dead_letter.as_ref(),
            &mut self.in_flight,
            &mut self.counters,
        )
    }

    fn receive(&mut self, messages: Vec<ReceivedMessage>) -> PollAction {
        let action = self.step(PollEvent::Check { running: true });
        assert!(matches!(action, PollAction::Receive { .. }));
        self.step(PollEvent::Received(messages))
    }

    fn parsed(&mut self, now: u64) -> PollAction {
        let info = parse(&self.poll.delivery().unwrap().body);
        self.step(PollEvent::Parsed { info, now })
    }
}

fn item(action: PollAction) -> LoadItem {
    match action {
        PollAction::Dispatch(item) => item,
        action => panic!("{action:?}"),
    }
}

fn flushed(action: PollAction) -> Vec<String> {
    match action {
        PollAction::Flush(batches) => {
            let entries = batches.into_iter().flatten();
            entries.map(|entry| entry.receipt_handle).collect()
        }
        action => panic!("{action:?}"),
    }
}

#[test]
fn parsed_messages_are_dispatched_one_by_one() {
    let mut run = Run::new(12, Some("dlq"));
    let messages = vec![message("a", "S/1"), message("b", "S/2")];
    assert_eq!(run.receive(messages), PollAction::Parse);
    let action = run.parsed(77);
    assert_eq!(
        item(action),
        LoadItem {
            delivery_tag: 1,
            body: b"S/1".to_vec(),
            info: parse("S/1").unwrap(),
        }
    );
    assert_eq!(run.in_flight.len(), 1);
    assert_eq!(run.step(PollEvent::Sent { accepted: true }), PollAction::Parse);
    assert_eq!(item(run.parsed(78)).delivery_tag, 2);
    let action = run.step(PollEvent::Sent { accepted: true });
    assert!(flushed(action).is_empty());
    assert_eq!(run.step(PollEvent::Flushed), PollAction::Check);

    let first = run.in_flight.remove(1).unwrap();
    assert_eq!(first.receipt_handle, "handle-a");
    assert_eq!(first.body, b"S/1");
    assert_eq!(first.info.record_id, "1");
    assert_eq!(first.started, 77);
    assert_eq!(first.extended, 0);
    assert_eq!(first.message_group_id.as_deref(), Some("group-a"));
    assert_eq!(first.message_id.as_deref(), Some("id-a"));
}

#[test]
fn messages_without_a_body_or_a_handle_are_passed_over() {
    let mut run = Run::new(12, None);
    let mut no_body = message("a", "S/1");
    no_body.body = None;
    let mut no_handle = message("b", "S/2");
    no_handle.receipt_handle = None;
    let messages = vec![no_body, message("c", "S/3"), no_handle];
    assert_eq!(run.receive(messages), PollAction::Parse);
    assert_eq!(run.poll.delivery().unwrap().body, "S/3");
    // They use up no id.
    assert_eq!(item(run.parsed(0)).delivery_tag, 1);
    let action = run.step(PollEvent::Sent { accepted: true });
    assert!(flushed(action).is_empty());
}

#[test]
fn unparseable_messages_are_sent_to_the_dead_letter_queue_and_deleted() {
    for (sent, deleted) in [(true, vec!["handle-a".to_string()]), (false, Vec::new())] {
        let mut run = Run::new(12, Some("dlq.fifo"));
        run.receive(vec![message("a", "junk \u{1F600}")]);
        match run.parsed(5) {
            PollAction::Reject(RejectStep::Forward(request)) => {
                assert_eq!(request.body, "junk \u{1F600}");
                assert_eq!(request.queue_url, "dlq.fifo");
                let keys = request.fifo.unwrap();
                assert_eq!(keys.group_id, "group-a");
                assert_eq!(keys.deduplication_id, "id-a");
            }
            action => panic!("{action:?}"),
        }
        assert_eq!(run.poll.rejected().unwrap().info, RecordInfo::empty());
        assert_eq!(run.counters.adds_rejected, 1);
        assert_eq!(run.in_flight.len(), 0);
        let action = run.step(PollEvent::Rejected { sent });
        assert_eq!(flushed(action), deleted);
    }
}

#[test]
fn unparseable_messages_without_a_dead_letter_queue_are_deleted() {
    let mut run = Run::new(12, None);
    run.receive(vec![message("a", "junk"), message("b", "more junk")]);
    for _ in 0..2 {
        assert_eq!(run.parsed(5), PollAction::Reject(RejectStep::Deleted));
        let action = run.step(PollEvent::Rejected { sent: false });
        if let PollAction::Flush(_) = action {
            assert_eq!(flushed(action), vec!["handle-a", "handle-b"]);
            return;
        }
    }
    panic!("no flush");
}

#[test]
fn loop_waits_while_the_cap_is_reached() {
    let mut run = Run::new(1, None);
    run.receive(vec![message("a", "S/1")]);
    run.parsed(0);
    run.step(PollEvent::Sent { accepted: true });
    run.step(PollEvent::Flushed);
    let action = run.step(PollEvent::Check { running: true });
    assert_eq!(action, PollAction::Wait);
    let action = run.step(PollEvent::Waited { shutdown: false });
    assert_eq!(action, PollAction::Check);
    run.in_flight.remove(1);
    let action = run.step(PollEvent::Check { running: true });
    assert_eq!(action, PollAction::Receive { count: 1 });
}

#[test]
fn loop_backs_off_after_a_failed_receive() {
    let mut run = Run::new(5, None);
    let action = run.step(PollEvent::Check { running: true });
    assert_eq!(action, PollAction::Receive { count: 5 });
    assert_eq!(run.step(PollEvent::ReceiveFailed), PollAction::BackOff);
    let action = run.step(PollEvent::BackedOff { shutdown: false });
    assert_eq!(action, PollAction::Check);
}

#[test]
fn loop_flushes_and_stops_on_shutdown() {
    // Between two receives.
    let mut run = Run::new(5, None);
    let action = run.step(PollEvent::Check { running: false });
    assert!(flushed(action).is_empty());
    assert_eq!(run.step(PollEvent::Flushed), PollAction::Stop);
    // In the middle of one.
    let mut run = Run::new(5, None);
    run.step(PollEvent::Check { running: true });
    assert!(flushed(run.step(PollEvent::ReceiveBroken)).is_empty());
    assert_eq!(run.step(PollEvent::Flushed), PollAction::Stop);
    // After a failed one.
    let mut run = Run::new(5, None);
    run.step(PollEvent::Check { running: true });
    run.step(PollEvent::ReceiveFailed);
    let action = run.step(PollEvent::BackedOff { shutdown: true });
    assert!(flushed(action).is_empty());
    assert_eq!(run.step(PollEvent::Flushed), PollAction::Stop);
    // While it waits for room.
    let mut run = Run::new(0, None);
    run.step(PollEvent::Check { running: true });
    let action = run.step(PollEvent::Waited { shutdown: true });
    assert!(flushed(action).is_empty());
    assert_eq!(run.step(PollEvent::Flushed), PollAction::Stop);
}

#[test]
fn loop_withdraws_a_message_when_the_pool_is_gone() {
    let mut run = Run::new(5, None);
    run.receive(vec![message("j", "junk"), message("a", "S/1"), message("b", "S/2")]);
    run.parsed(0);
    run.step(PollEvent::Rejected { sent: false });
    item(run.parsed(0));
    assert_eq!(run.in_flight.len(), 1);
    let action = run.step(PollEvent::Sent { accepted: false });
    // Only the rejected message is deleted; the others come back.
    assert_eq!(flushed(action), vec!["handle-j"]);
    assert_eq!(run.in_flight.len(), 0);
    assert_eq!(run.step(PollEvent::Flushed), PollAction::Stop);
}

#[test]
fn loop_withdraws_a_message_when_a_shutdown_breaks_the_hand_over() {
    let mut run = Run::new(5, None);
    run.receive(vec![message("a", "S/1"), message("b", "S/2")]);
    item(run.parsed(0));
    assert_eq!(run.in_flight.len(), 1);
    let action = run.step(PollEvent::SendBroken);
    assert!(flushed(action).is_empty());
    assert_eq!(run.in_flight.len(), 0);
    assert_eq!(run.step(PollEvent::Flushed), PollAction::Stop);
}

#[test]
fn request_with_a_negative_limit_asks_for_what_fits() {
    assert_eq!(receive_room(3, 20, -1), Some(17));
}

/// Both loops together, on a queue in memory with an engine that knows one data source.
#[test]
fn rejects_reach_the_dead_letter_queue_verbatim_and_the_source_drains() {
    let mut run = Run::new(4, Some("https://sqs.x/1/dlq"));
    let mut main = MainLoop::new();
    let mut source: Vec<ReceivedMessage> = (0..12)
        .map(|i| message(&format!("v{i}"), &format!("TEST/SQS_E2E_{i}")))
        .collect();
    source.push(message("bad_engine", "E2E_NO_SUCH_DSRC/SQS_BAD_DSRC"));
    source.push(message("bad_parse", "{\"RECORD_ID\":\"SQS_BAD_PARSE\"}"));
    let mut waiting: Vec<String> = source
        .iter()
        .map(|m| m.receipt_handle.clone().unwrap())
        .collect();
    let mut dlq = Vec::new();
    let mut work: Vec<LoadItem> = Vec::new();
    let mut delete = |handles: Vec<String>| {
        for handle in handles {
            let at = waiting.iter().position(|w| *w == handle).expect("deleted twice");
            waiting.remove(at);
        }
        waiting.len()
    };
    let mut left = 14;
    let mut action = PollAction::Check;
    while action != PollAction::Stop {
        let event = match action {
            PollAction::Check => PollEvent::Check { running: left > 0 },
            PollAction::Wait => PollEvent::Waited { shutdown: false },
            PollAction::Receive { count } => {
                assert!(run.in_flight.len() + count as usize <= 4);
                let n = (count as usize).min(source.len());
                PollEvent::Received(source.drain(..n).collect())
            }
            PollAction::BackOff => PollEvent::BackedOff { shutdown: false },
            PollAction::Parse => PollEvent::Parsed {
                info: parse(&run.poll.delivery().unwrap().body),
                now: 0,
            },
            PollAction::Dispatch(item) => {
                work.push(item);
                PollEvent::Sent { accepted: true }
            }
            PollAction::Reject(RejectStep::Forward(request)) => {
                dlq.push(request.body);
                PollEvent::Rejected { sent: true }
            }
            PollAction::Flush(_) => {
                left = delete(flushed(action));
                PollEvent::Flushed
            }
            action => panic!("{action:?}"),
        };
        action = run.step(event);
        assert!(run.in_flight.len() <= 4);

        // The workers answer, the last item first.
        while let Some(item) = work.pop() {
            let verdict = if item.info.data_source == "TEST" {
                Action::Ack(None)
            } else {
                Action::RejectNoRequeue
            };
            let outcome = Outcome {
                delivery_tag: item.delivery_tag,
                info: item.info,
                action: verdict,
            };
            let mut event = MainEvent::Finished(outcome);
            loop {
                let done = main.step(
                    event,
                    run.dead_letter.as_ref(),
                    &mut run.in_flight,
                    &mut run.counters,
                );
                match done {
                    MainAction::Reject(RejectStep::Forward(request)) => {
                        dlq.push(request.body);
                        event = MainEvent::Rejected { sent: true };
                    }
                    MainAction::Settled(report) => {
                        let entries = report.batches.into_iter().flatten();
                        left = delete(entries.map(|e| e.receipt_handle).collect());
                        break;
                    }
                    done => panic!("{done:?}"),
                }
            }
            let flush = main.step(
                MainEvent::FlushDue,
                run.dead_letter.as_ref(),
                &mut run.in_flight,
                &mut run.counters,
            );
            match flush {
                MainAction::Flush(batches) => {
                    let entries = batches.into_iter().flatten();
                    left = delete(entries.map(|e| e.receipt_handle).collect());
                }
                action => panic!("{action:?}"),
            }
        }
    }
    dlq.sort();
    assert_eq!(
        dlq,
        vec![
            "E2E_NO_SUCH_DSRC/SQS_BAD_DSRC".to_string(),
            "{\"RECORD_ID\":\"SQS_BAD_PARSE\"}".to_string(),
        ]
    );
    assert_eq!(left, 0);
    assert_eq!(run.in_flight.len(), 0);
    assert_eq!(run.counters.adds_processed, 12);
    assert_eq!(run.counters.adds_rejected, 2);
}
