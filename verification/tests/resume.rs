use sz_combined_consumer::resume::ResumeTracker;

#[test]
fn watermark_advances_contiguously_and_handles_out_of_order() {
    // Run starts at line 6 (skip = 5).
    let mut t = ResumeTracker::new(6);
    assert_eq!(t.watermark(), 5, "no lines done yet -> watermark = skip");

    // Out-of-order completion: 8 done before 6/7 -> watermark stays at 5.
    t.complete(8);
    assert_eq!(t.watermark(), 5);

    // 6 done -> advances to 6 (7 still missing).
    t.complete(6);
    assert_eq!(t.watermark(), 6);

    // 7 done -> now 6,7,8 contiguous -> jumps to 8.
    t.complete(7);
    assert_eq!(t.watermark(), 8);
}

#[test]
fn watermark_ignores_lines_at_or_below_start() {
    let mut t = ResumeTracker::new(1); // skip = 0
    t.complete(1);
    t.complete(2);
    t.complete(3);
    assert_eq!(t.watermark(), 3);
    // A stale/duplicate completion below `next` is a no-op.
    t.complete(2);
    assert_eq!(t.watermark(), 3);
}

#[test]
fn watermark_depends_on_which_lines_completed_only() {
    let mut forward = ResumeTracker::new(11);
    for line in [11, 12, 13, 15, 20] {
        forward.complete(line);
    }
    let mut backward = ResumeTracker::new(11);
    for line in [20, 15, 13, 13, 12, 20, 11, 3] {
        backward.complete(line);
    }
    assert_eq!(forward.watermark(), 13);
    assert_eq!(backward.watermark(), 13);
}

#[test]
fn watermark_never_retreats() {
    let mut t = ResumeTracker::new(1);
    let mut last = t.watermark();
    for line in [4, 2, 1, 1, 9, 3, 7, 5] {
        t.complete(line);
        assert!(t.watermark() >= last);
        last = t.watermark();
    }
    assert_eq!(last, 5);
}

#[test]
fn watermark_reaches_the_last_but_one_line_number() {
    let mut t = ResumeTracker::new(u64::MAX - 2);
    t.complete(u64::MAX - 1);
    t.complete(u64::MAX - 2);
    assert_eq!(t.watermark(), u64::MAX - 1);
}
