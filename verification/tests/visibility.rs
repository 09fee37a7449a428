use sz_combined_consumer::in_flight::{InFlight, SqsInFlight};
use sz_combined_consumer::record::RecordInfo;
use sz_combined_consumer::visibility::{
    monitor_interval_secs, visibility_extension, MAX_VISIBILITY_SECS,
};

const SECOND: u64 = 1_000_000_000;

#[test]
fn visibility_extension_matches_v4_thresholds_and_clamps() {
    let lr = 300;
    // Not yet past LONG_RECORD: nothing.
    assert_eq!(visibility_extension(300, 0, lr, 0), None);
    // Past 1x: extend to 2x.
    assert_eq!(visibility_extension(301, 0, lr, 0), Some(600));
    // Already extended once: threshold is 2x, extend to 3x.
    assert_eq!(visibility_extension(500, 0, lr, 1), None);
    assert_eq!(visibility_extension(601, 0, lr, 1), Some(900));
    // Clamped to the SQS 12 h ceiling.
    assert_eq!(
        visibility_extension(u64::MAX / 4, 0, 40_000, 5),
        Some(MAX_VISIBILITY_SECS)
    );
}

#[test]
fn thresholds_beyond_the_range_are_never_passed() {
    assert_eq!(visibility_extension(u64::MAX, 0, u64::MAX, 0), None);
    assert_eq!(visibility_extension(u64::MAX, 0, u64::MAX / 2, 4), None);
    assert_eq!(
        visibility_extension(u64::MAX, 0, u64::MAX / 2, 0),
        Some(MAX_VISIBILITY_SECS)
    );
    assert_eq!(visibility_extension(1, 0, 0, u32::MAX), Some(0));
    assert_eq!(visibility_extension(0, 0, 0, 0), None);
}

#[test]
fn extensions_reach_the_limit_exactly() {
    assert_eq!(visibility_extension(21_601, 0, 21_600, 0), Some(43_200));
    assert_eq!(visibility_extension(21_600, 0, 21_599, 0), Some(43_198));
    assert_eq!(visibility_extension(21_602, 0, 21_601, 0), Some(43_200));
}

#[test]
fn heartbeat_comes_twice_per_long_record() {
    assert_eq!(monitor_interval_secs(300), 150);
    assert_eq!(monitor_interval_secs(301), 150);
    assert_eq!(monitor_interval_secs(3), 1);
    assert_eq!(monitor_interval_secs(2), 1);
    assert_eq!(monitor_interval_secs(1), 1);
    assert_eq!(monitor_interval_secs(0), 1);
}

#[test]
fn heartbeat_keeps_a_record_hidden_until_the_next_one() {
    let lr = 300;
    let granted_at = 310;
    let hidden_until = granted_at + visibility_extension(granted_at, 0, lr, 0).unwrap();
    let quiet_beat = 600;
    assert_eq!(visibility_extension(quiet_beat, 0, lr, 1), None);
    let next_beat = quiet_beat + monitor_interval_secs(lr);
    assert!(next_beat < hidden_until);
}

fn message(name: &str, started: u64, extended: u32) -> SqsInFlight {
    SqsInFlight {
        receipt_handle: format!("handle-{name}"),
        body: name.as_bytes().to_vec(),
        info: RecordInfo {
            data_source: "TEST".to_string(),
            record_id: name.to_string(),
        },
        started,
        extended,
        message_group_id: None,
        message_id: None,
    }
}

#[test]
fn heartbeat_extends_long_records_only() {
    let mut in_flight = InFlight::new();
    in_flight.insert(1, message("old", 0, 0));
    in_flight.insert(2, message("young", 200 * SECOND, 0));
    in_flight.insert(3, message("extended", 0, 1));
    in_flight.insert(4, message("from the future", 900 * SECOND, 0));

    let report = in_flight.extend_long_records(400 * SECOND + 1, 300, 2);
    assert_eq!(report.extensions.len(), 1);
    let extension = &report.extensions[0];
    assert_eq!(extension.id, 1);
    assert_eq!(extension.receipt_handle, "handle-old");
    assert_eq!(extension.visibility, 600);
    assert_eq!(extension.times, 1);
    assert_eq!(extension.info.record_id, "old");
    assert_eq!(extension.age, 400 * SECOND + 1);
    assert!(!report.all_stuck);

    // The account of the extended record moves on; the others are as they were.
    in_flight.note_extension(1, true);
    assert_eq!(in_flight.remove(1), Some(message("old", 0, 1)));
    assert_eq!(in_flight.remove(2), Some(message("young", 200 * SECOND, 0)));
    assert_eq!(in_flight.remove(3), Some(message("extended", 0, 1)));
    assert_eq!(in_flight.len(), 1);
}

#[test]
fn heartbeat_counts_every_nanosecond() {
    let mut in_flight = InFlight::new();
    in_flight.insert(7, message("edge", 0, 0));
    let report = in_flight.extend_long_records(300 * SECOND, 300, 1);
    assert!(report.extensions.is_empty());
    let report = in_flight.extend_long_records(300 * SECOND + 1, 300, 1);
    assert_eq!(report.extensions.len(), 1);
}

#[test]
fn fractions_of_a_second_count() {
    assert_eq!(visibility_extension(300, 1, 300, 0), Some(600));
    assert_eq!(visibility_extension(300, 500_000_000, 300, 0), Some(600));
    assert_eq!(visibility_extension(299, 999_999_999, 300, 0), None);
    assert_eq!(visibility_extension(u64::MAX, 999_999_999, u64::MAX, 1), None);
    assert_eq!(
        visibility_extension(u64::MAX, 1, u64::MAX, 0),
        Some(MAX_VISIBILITY_SECS)
    );
}

#[test]
fn failed_extension_is_tried_again_at_the_next_heartbeat() {
    let mut in_flight = InFlight::new();
    in_flight.insert(1, message("a", 0, 0));
    let report = in_flight.extend_long_records(310 * SECOND, 300, 9);
    assert_eq!(report.extensions[0].visibility, 600);
    in_flight.note_extension(1, false);
    let report = in_flight.extend_long_records(460 * SECOND, 300, 9);
    assert_eq!(report.extensions.len(), 1);
    assert_eq!(report.extensions[0].visibility, 600);
    assert_eq!(report.extensions[0].times, 1);
    in_flight.note_extension(1, true);
    assert!(in_flight.extend_long_records(600 * SECOND, 300, 9).extensions.is_empty());
    let report = in_flight.extend_long_records(610 * SECOND, 300, 9);
    assert_eq!(report.extensions[0].visibility, 900);
    assert_eq!(report.extensions[0].times, 2);
}

#[test]
fn extension_of_a_settled_message_changes_nothing() {
    let mut in_flight = InFlight::new();
    in_flight.insert(1, message("a", 0, 0));
    in_flight.note_extension(2, true);
    assert_eq!(in_flight.len(), 1);
    assert_eq!(in_flight.remove(1), Some(message("a", 0, 0)));
}

#[test]
fn all_threads_are_stuck_when_as_many_records_are_long() {
    let mut in_flight = InFlight::new();
    in_flight.insert(1, message("a", 0, 0));
    in_flight.insert(2, message("b", 0, 0));
    assert!(in_flight.extend_long_records(400 * SECOND, 300, 2).all_stuck);
    in_flight.note_extension(1, true);
    // One of the two is due no more, and two workers are not stuck on the other.
    assert!(!in_flight.extend_long_records(400 * SECOND, 300, 2).all_stuck);
}

#[test]
fn ids_in_flight_are_listed_once_each() {
    let mut in_flight = InFlight::new();
    for id in [5, 3, 9, 3] {
        in_flight.insert(id, message("x", 0, 0));
    }
    let mut ids = in_flight.ids();
    ids.sort();
    assert_eq!(ids, vec![3, 5, 9]);
}
