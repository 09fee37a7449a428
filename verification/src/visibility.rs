//! The visibility heartbeat of long-running records.
use vstd::prelude::*;

verus! {

/// SQS's hard maximum for a message's visibility timeout: 12 hours.
pub const MAX_VISIBILITY_SECS: u64 = 43_200;

pub const NANOS_PER_SEC: u64 = 1_000_000_000;

/// The age in seconds past which a record that was extended `extended` times is due again.
pub open spec fn extension_threshold(long_record_secs: u64, extended: u32) -> int {
    long_record_secs * (extended + 1)
}

/// The visibility in seconds that an extension grants.
pub open spec fn granted_visibility(long_record_secs: u64, extended: u32) -> int {
    let wanted = long_record_secs * (extended + 2);
    if wanted <= MAX_VISIBILITY_SECS {
        wanted
    } else {
        MAX_VISIBILITY_SECS as int
    }
}

/// The heartbeat rule: a record running longer than `long_record_secs * (extended + 1)`
/// seconds has its visibility set to `(extended + 2) * long_record_secs` seconds, at most
/// [`MAX_VISIBILITY_SECS`]. Returns that visibility when an extension is due.
///
/// The time that the record has been running is given in whole seconds and the nanoseconds
/// beyond them.
pub fn visibility_extension(
    elapsed_secs: u64,
    elapsed_subsec_nanos: u32,
    long_record_secs: u64,
    extended: u32,
) -> (visibility: Option<u64>)
    ensures
        visibility is Some <==> elapsed_secs * NANOS_PER_SEC + elapsed_subsec_nanos
            > extension_threshold(long_record_secs, extended) * NANOS_PER_SEC,
        visibility matches Some(secs) ==> secs == granted_visibility(long_record_secs, extended),
        visibility is Some <==> elapsed_secs * 1_000_000_000 + elapsed_subsec_nanos
            > long_record_secs * (extended + 1) * 1_000_000_000,
        visibility matches Some(secs) ==> secs <= 43_200 && secs <= long_record_secs * (extended
            + 2) && (secs == 43_200 || secs == long_record_secs * (extended + 2)),
{
    proof {
        lemma_multiple_fits(long_record_secs, extended + 1);
        lemma_multiple_fits(long_record_secs, extended + 2);
        assert(elapsed_secs * NANOS_PER_SEC <= u64::MAX * 1_000_000_000) by (nonlinear_arith);
    }
    let elapsed: u128 = elapsed_secs as u128 * NANOS_PER_SEC as u128 + elapsed_subsec_nanos as u128;
    let threshold: u128 = long_record_secs as u128 * (extended as u128 + 1);
    if elapsed <= threshold * NANOS_PER_SEC as u128 {
        return None;
    }
    let wanted: u128 = long_record_secs as u128 * (extended as u128 + 2);
    if wanted < MAX_VISIBILITY_SECS as u128 {
        Some(wanted as u64)
    } else {
        Some(MAX_VISIBILITY_SECS)
    }
}

proof fn lemma_multiple_fits(long_record_secs: u64, times: int)
    requires
        0 <= times <= u32::MAX + 2,
    ensures
        0 <= long_record_secs * times <= 0x1_0000_0001_0000_0000_0000_0000,
{
    assert(0 <= long_record_secs * times <= 0x1_0000_0000_0000_0000 * 0x1_0000_0001)
        by (nonlinear_arith)
        requires
            0 <= times <= 0x1_0000_0001,
            0 <= long_record_secs < 0x1_0000_0000_0000_0000,
    ;
}

/// The seconds between two heartbeats: half of `long_record_secs`, at least one.
pub open spec fn heartbeat_secs(long_record_secs: u64) -> u64 {
    if long_record_secs <= 2 {
        1
    } else {
        long_record_secs / 2
    }
}

pub fn monitor_interval_secs(long_record_secs: u64) -> (secs: u64)
    ensures
        secs == heartbeat_secs(long_record_secs),
        long_record_secs < 2 ==> secs == 1,
        long_record_secs >= 2 ==> 2 * secs <= long_record_secs < 2 * secs + 2,
{
    if long_record_secs < 2 {
        1
    } else {
        long_record_secs / 2
    }
}

/// Every extension lies within SQS's limit, fits a signed 32-bit field, and never grants
/// less than the extension before it.
pub proof fn law_extensions_stay_in_range(long_record_secs: u64, extended: u32)
    ensures
        0 <= granted_visibility(long_record_secs, extended) <= MAX_VISIBILITY_SECS,
        granted_visibility(long_record_secs, extended) <= i32::MAX,
        extended < u32::MAX ==> granted_visibility(long_record_secs, extended)
            <= granted_visibility(long_record_secs, (extended + 1) as u32),
{
    assert(0 <= long_record_secs * (extended + 2)) by (nonlinear_arith);
    assert(long_record_secs * (extended + 3) >= long_record_secs * (extended + 2))
        by (nonlinear_arith);
}

/// One extension is granted per `long_record_secs`: a record that was just extended is due
/// again only when that many more seconds have passed than the first time.
pub proof fn law_extensions_are_one_long_record_apart(long_record_secs: u64, extended: u32)
    requires
        extended < u32::MAX,
    ensures
        extension_threshold(long_record_secs, (extended + 1) as u32) == extension_threshold(
            long_record_secs,
            extended,
        ) + long_record_secs,
{
    assert(long_record_secs * (extended + 2) == long_record_secs * (extended + 1)
        + long_record_secs) by (nonlinear_arith);
}

/// A record in progress stays hidden. If an extension is granted at age `granted_at`, the
/// record is not due at the heartbeat at age `quiet_beat`, and the next heartbeat comes
/// within the interval, then the visibility granted has not run out at that heartbeat,
/// as long as it was not cut short by SQS's limit. Ages are in nanoseconds.
pub proof fn law_heartbeat_keeps_a_record_hidden(
    long_record_secs: u64,
    extended: u32,
    granted_at: u64,
    quiet_beat: u64,
    next_beat: u64,
)
    requires
        extended < u32::MAX,
        long_record_secs > 0,
        long_record_secs * (extended + 2) <= MAX_VISIBILITY_SECS,
        granted_at > extension_threshold(long_record_secs, extended) * NANOS_PER_SEC,
        quiet_beat <= extension_threshold(long_record_secs, (extended + 1) as u32)
            * NANOS_PER_SEC,
        next_beat <= quiet_beat + heartbeat_secs(long_record_secs) * NANOS_PER_SEC,
    ensures
        next_beat < granted_at + granted_visibility(long_record_secs, extended) * NANOS_PER_SEC,
{
    law_extensions_are_one_long_record_apart(long_record_secs, extended);
    assert(long_record_secs * (extended + 1) >= long_record_secs) by (nonlinear_arith);
}

/// A granted visibility is the smaller of `long_record_secs * (extended + 2)` and twelve hours.
pub proof fn law_grant_is_the_smaller_of_wish_and_limit(long_record_secs: u64, extended: u32)
    ensures
        long_record_secs * (extended + 2) <= 43_200 ==> granted_visibility(
            long_record_secs,
            extended,
        ) == long_record_secs * (extended + 2),
        long_record_secs * (extended + 2) >= 43_200 ==> granted_visibility(
            long_record_secs,
            extended,
        ) == 43_200,
{
}

/// The first grant is for twice a long record. Below the limit, each grant is for one long
/// record more than the one before it.
pub proof fn law_grants_grow_by_one_long_record(long_record_secs: u64, extended: u32)
    requires
        extended < u32::MAX,
        granted_visibility(long_record_secs, (extended + 1) as u32) < 43_200,
    ensures
        granted_visibility(long_record_secs, (extended + 1) as u32) == granted_visibility(
            long_record_secs,
            extended,
        ) + long_record_secs,
        granted_visibility(long_record_secs, 0) == 2 * long_record_secs,
{
    assert(long_record_secs * (extended + 3) == long_record_secs * (extended + 2)
        + long_record_secs) by (nonlinear_arith);
    assert(long_record_secs * (extended + 2) >= long_record_secs * 2) by (nonlinear_arith);
    assert(long_record_secs * (0u32 + 2) == 2 * long_record_secs);
}

/// A record is due for the first time once it has run for longer than a long record, and for
/// every further time once it has run for one long record more.
pub proof fn law_thresholds_are_whole_long_records(long_record_secs: u64, extended: u32)
    ensures
        extension_threshold(long_record_secs, 0) == long_record_secs,
        extension_threshold(long_record_secs, extended) == long_record_secs * (extended + 1),
{
}

/// There are two heartbeats to a long record, as nearly as whole seconds allow, and never less
/// than a second between them.
pub proof fn law_heartbeat_is_half_a_long_record(long_record_secs: u64)
    ensures
        heartbeat_secs(long_record_secs) >= 1,
        long_record_secs >= 2 ==> 2 * heartbeat_secs(long_record_secs) <= long_record_secs < 2
            * heartbeat_secs(long_record_secs) + 2,
        long_record_secs < 2 ==> heartbeat_secs(long_record_secs) == 1,
{
}

} // verus!
