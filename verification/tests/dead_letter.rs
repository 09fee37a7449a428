use sz_combined_consumer::dead_letter::{
    dead_letter_at_startup, resolve_dead_letter, resolve_target, DeadLetter, NoDeadLetterQueue,
    ResolveError, ResolveEvent, ResolveStep, SqsParams,
};
use sz_combined_consumer::redrive::{
    dead_letter_arn_from_redrive_policy, dead_letter_arn_of_members,
};

fn params(url: Option<&str>, allow_no_dlq: bool) -> SqsParams {
    SqsParams {
        queue_url: "https://sqs.x/1/source".to_string(),
        dead_letter_queue_url: url.map(str::to_string),
        allow_no_dlq,
        prefetch: 2,
        visibility_timeout: 30,
        wait_time: 1,
        max_messages: 10,
    }
}

#[test]
fn extracts_dead_letter_arn_from_redrive_policy() {
    let policy = r#"{"deadLetterTargetArn":"arn:aws:sqs:us-east-1:1:dlq","maxReceiveCount":"5"}"#;
    assert_eq!(
        dead_letter_arn_from_redrive_policy(policy).as_deref(),
        Some("arn:aws:sqs:us-east-1:1:dlq")
    );
    assert_eq!(
        dead_letter_arn_from_redrive_policy(r#"{"maxReceiveCount":"5"}"#),
        None
    );
    assert_eq!(dead_letter_arn_from_redrive_policy("not json"), None);
}

#[test]
fn dead_letter_detects_fifo_by_suffix() {
    assert!(DeadLetter::from_url("https://sqs.x/1/q.fifo".into()).fifo);
    assert!(!DeadLetter::from_url("https://sqs.x/1/q".into()).fifo);
}

#[test]
fn policy_without_a_usable_target_gives_none() {
    for policy in [
        "",
        "{}",
        "[]",
        "null",
        "7",
        "\"deadLetterTargetArn\"",
        r#"[{"deadLetterTargetArn":"a"}]"#,
        r#"{"deadLetterTargetArn":""}"#,
        r#"{"deadLetterTargetArn":5}"#,
        r#"{"deadLetterTargetArn":null}"#,
        r#"{"DeadLetterTargetArn":"a"}"#,
        r#"{"outer":{"deadLetterTargetArn":"a"}}"#,
        r#"{"deadLetterTargetArn":"a"} trailing"#,
    ] {
        assert_eq!(dead_letter_arn_from_redrive_policy(policy), None, "{policy}");
    }
}

#[test]
fn policy_target_is_unescaped_and_may_stand_anywhere() {
    assert_eq!(
        dead_letter_arn_from_redrive_policy(
            " {\"a\": [1, 2], \"deadLetterTargetArn\" : \"x\\u0041\\n\"} "
        )
        .as_deref(),
        Some("xA\n")
    );
    assert_eq!(
        dead_letter_arn_from_redrive_policy(
            r#"{"deadLetterTargetArn":"first","deadLetterTargetArn":"second"}"#
        )
        .as_deref(),
        Some("second")
    );
}

#[test]
fn target_is_picked_among_the_members() {
    let members = vec![
        ("maxReceiveCount".to_string(), Some("5".to_string())),
        ("deadLetterTargetArn".to_string(), Some("arn".to_string())),
    ];
    assert_eq!(dead_letter_arn_of_members(&members).as_deref(), Some("arn"));
    assert_eq!(dead_letter_arn_of_members(&Vec::new()), None);
    let no_text = vec![("deadLetterTargetArn".to_string(), None)];
    assert_eq!(dead_letter_arn_of_members(&no_text), None);
    let empty = vec![("deadLetterTargetArn".to_string(), Some(String::new()))];
    assert_eq!(dead_letter_arn_of_members(&empty), None);
}

#[test]
fn explicit_url_is_used_without_a_call() {
    let step = resolve_dead_letter(
        &params(Some("https://sqs.x/1/dlq.fifo"), false),
        ResolveEvent::Begin,
    );
    let expected = DeadLetter {
        url: "https://sqs.x/1/dlq.fifo".to_string(),
        fifo: true,
    };
    assert_eq!(step, ResolveStep::Resolved(Some(expected)));
}

#[test]
fn dead_letter_queue_is_discovered_from_the_policy() {
    for url in [None, Some("")] {
        let params = params(url, false);
        let step = resolve_dead_letter(&params, ResolveEvent::Begin);
        assert_eq!(step, ResolveStep::FetchPolicy);
        let policy = r#"{"deadLetterTargetArn":"arn:aws:sqs:us-east-1:1:dlq"}"#.to_string();
        let step = resolve_dead_letter(&params, ResolveEvent::Policy(Some(policy)));
        assert_eq!(
            step,
            ResolveStep::FetchUrl {
                arn: "arn:aws:sqs:us-east-1:1:dlq".to_string(),
                account: "1".to_string(),
                name: "dlq".to_string(),
            }
        );
        let step = resolve_dead_letter(
            &params,
            ResolveEvent::Url {
                arn: "arn:aws:sqs:us-east-1:1:dlq".to_string(),
                url: Some("https://sqs.x/1/dlq".to_string()),
            },
        );
        let expected = DeadLetter {
            url: "https://sqs.x/1/dlq".to_string(),
            fifo: false,
        };
        assert_eq!(step, ResolveStep::Resolved(Some(expected)));
    }
}

#[test]
fn resolution_without_a_policy_finds_nothing() {
    let step = resolve_dead_letter(&params(None, false), ResolveEvent::Policy(None));
    assert_eq!(step, ResolveStep::Resolved(None));
}

#[test]
fn resolution_errors_say_what_is_wrong() {
    let policy = r#"{"maxReceiveCount":"5"}"#.to_string();
    let event = ResolveEvent::Policy(Some(policy.clone()));
    match resolve_dead_letter(&params(None, false), event) {
        ResolveStep::Failed(error) => {
            assert_eq!(error, ResolveError::NoTarget { policy });
            assert_eq!(
                error.message(),
                "RedrivePolicy has no deadLetterTargetArn: {\"maxReceiveCount\":\"5\"}"
            );
        }
        step => panic!("{step:?}"),
    }
    match resolve_target("{}".to_string(), Some("arn:aws:sns:r:1:t".to_string())) {
        ResolveStep::Failed(error) => {
            assert!(matches!(error, ResolveError::BadTarget { .. }));
            assert_eq!(
                error.message(),
                "unparseable deadLetterTargetArn: arn:aws:sns:r:1:t"
            );
        }
        step => panic!("{step:?}"),
    }
    let event = ResolveEvent::Url {
        arn: "arn".to_string(),
        url: None,
    };
    match resolve_dead_letter(&params(None, false), event) {
        ResolveStep::Failed(error) => {
            assert!(matches!(error, ResolveError::NoUrl { .. }));
            assert_eq!(error.message(), "GetQueueUrl returned no URL for arn");
        }
        step => panic!("{step:?}"),
    }
}

#[test]
fn run_is_refused_without_a_dead_letter_queue_unless_allowed() {
    let queue = DeadLetter::from_url("https://sqs.x/1/dlq".to_string());
    assert_eq!(
        dead_letter_at_startup(&params(None, false), Some(queue.clone())),
        Ok(Some(queue))
    );
    assert_eq!(dead_letter_at_startup(&params(None, true), None), Ok(None));
    let refusal = dead_letter_at_startup(&params(None, false), None).unwrap_err();
    assert_eq!(
        refusal,
        NoDeadLetterQueue {
            queue_url: "https://sqs.x/1/source".to_string()
        }
    );
    assert_eq!(
        refusal.message(),
        "no dead-letter queue: https://sqs.x/1/source has no RedrivePolicy and \
         --dead-letter-queue-url (SENZING_SQS_DEAD_LETTER_QUEUE_URL) is unset. Rejected records \
         would be silently destroyed. Attach a redrive policy, pass --dead-letter-queue-url, or \
         pass --allow-no-dlq to accept the loss."
    );
}
