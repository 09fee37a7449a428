use sz_combined_consumer::arn::parse_queue_arn;

#[test]
fn parses_standard_and_partitioned_queue_arns() {
    assert_eq!(
        parse_queue_arn("arn:aws:sqs:us-east-1:123456789012:my-dlq"),
        Some(("123456789012".to_string(), "my-dlq".to_string()))
    );
    assert_eq!(
        parse_queue_arn("arn:aws-cn:sqs:cn-north-1:000000000000:q.fifo"),
        Some(("000000000000".to_string(), "q.fifo".to_string()))
    );
    assert_eq!(parse_queue_arn("arn:aws:sns:us-east-1:1:topic"), None);
    assert_eq!(parse_queue_arn("arn:aws:sqs:us-east-1::noaccount"), None);
    assert_eq!(parse_queue_arn("garbage"), None);
}

#[test]
fn rejects_arns_that_name_no_single_queue() {
    assert_eq!(parse_queue_arn(""), None);
    assert_eq!(parse_queue_arn("arn:aws:sqs:us-east-1:1:"), None);
    assert_eq!(parse_queue_arn("arn:aws:sqs:us-east-1:1"), None);
    assert_eq!(parse_queue_arn("arn:aws:sqs:us-east-1:1:q:extra"), None);
    assert_eq!(parse_queue_arn("ARN:aws:sqs:us-east-1:1:q"), None);
    assert_eq!(parse_queue_arn("arn:aws:SQS:us-east-1:1:q"), None);
}

#[test]
fn partition_and_region_of_an_arn_may_be_anything() {
    assert_eq!(
        parse_queue_arn("arn::sqs::1:q"),
        Some(("1".to_string(), "q".to_string()))
    );
    assert_eq!(
        parse_queue_arn("arn:é:sqs:ü:konto:schlange"),
        Some(("konto".to_string(), "schlange".to_string()))
    );
}
