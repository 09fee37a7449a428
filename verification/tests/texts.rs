use sz_combined_consumer::driver::approximate_depth;
use sz_combined_consumer::text::{decimal, ends_with, parse_u32, same_text, split, trim};

#[test]
fn decimal_numbers_are_written_without_padding() {
    assert_eq!(decimal(0), "0");
    assert_eq!(decimal(7), "7");
    assert_eq!(decimal(10), "10");
    assert_eq!(decimal(50_000), "50000");
    assert_eq!(decimal(u64::MAX), "18446744073709551615");
}

#[test]
fn depth_is_read_from_the_attribute() {
    assert_eq!(approximate_depth(None), None);
    assert_eq!(approximate_depth(Some("0")), Some(0));
    assert_eq!(approximate_depth(Some("42")), Some(42));
    assert_eq!(approximate_depth(Some("many")), None);
    assert_eq!(approximate_depth(Some("4294967296")), None);
}

#[test]
fn numbers_are_read_as_the_standard_library_reads_them() {
    for text in [
        "", "+", "-", "-0", "0", "00", "007", "+7", "++7", "7+", " 7", "7 ", "4294967295",
        "4294967296", "+4294967295", "99999999999999999999999999", "0x10", "1_000", "٣",
    ] {
        assert_eq!(parse_u32(text), text.parse::<u32>().ok(), "{text:?}");
    }
}

#[test]
fn text_is_split_at_every_separator() {
    for text in ["", ":", "a", "a:b", ":a::b:", "é:ü"] {
        let expected: Vec<&str> = text.split(':').collect();
        assert_eq!(split(text, ':'), expected, "{text:?}");
    }
}

#[test]
fn suffixes_and_equality_go_by_characters() {
    assert!(ends_with("q.fifo", ".fifo"));
    assert!(ends_with(".fifo", ".fifo"));
    assert!(ends_with("anything", ""));
    assert!(!ends_with("fifo", ".fifo"));
    assert!(!ends_with("q.fifo ", ".fifo"));
    assert!(same_text("ü", "ü"));
    assert!(!same_text("a", "ab"));
    assert!(!same_text("a", "A"));
}

#[test]
fn text_is_trimmed_as_the_standard_library_trims_it() {
    for text in ["", " ", "a", " a", "a ", "\t a b\u{3000}\n", "\u{200b}a\u{200b}", "\u{85}é\u{a0}"] {
        assert_eq!(trim(text), text.trim(), "{text:?}");
    }
    for c in '\0'..=char::MAX {
        let text = format!("{c}x{c}");
        assert_eq!(trim(&text), text.trim(), "{c:?}");
    }
}
