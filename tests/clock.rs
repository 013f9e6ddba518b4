use migrator_core::clock::{
    current_ledger_timestamp, current_stamp, ledger_timestamp, next_stamp, stamp_text,
};

#[test]
fn ledger_timestamps_are_epoch_nanoseconds() {
    assert_eq!(ledger_timestamp(0, 0), 0);
    assert_eq!(ledger_timestamp(1, 5), 1_000_000_005);
    assert_eq!(ledger_timestamp(1_700_000_000, 123_456_789), 1_700_000_000_123_456_789);
    assert_eq!(ledger_timestamp(-1, 5), 0);
    assert_eq!(ledger_timestamp(i64::MAX, 0), u64::MAX);
    assert_eq!(ledger_timestamp(0, 1_500_000_000), 1_500_000_000);
}

#[test]
fn stamps_follow_the_year_month_day_pattern() {
    assert_eq!(stamp_text(2024, 1, 2, 3, 4, 5), "20240102030405");
    assert_eq!(stamp_text(2024, 12, 31, 23, 59, 59), "20241231235959");
    assert_eq!(stamp_text(5, 1, 1, 0, 0, 0), "00050101000000");
    assert_eq!(stamp_text(10000, 1, 1, 0, 0, 0), "+100000101000000");
    assert_eq!(stamp_text(-1, 1, 1, 0, 0, 0), "-00010101000000");
}

#[test]
fn the_clock_reads_plausible_values() {
    let stamp = current_stamp();
    assert_eq!(stamp.len(), 14);
    assert!(stamp.starts_with("20"));
    assert!(current_ledger_timestamp() > 1_600_000_000_000_000_000);
}

#[test]
fn stamps_move_forward() {
    assert_eq!(next_stamp(None, 5), 5);
    assert_eq!(next_stamp(Some(3), 5), 5);
    assert_eq!(next_stamp(Some(5), 5), 6);
    assert_eq!(next_stamp(Some(9), 5), 10);
    assert_eq!(next_stamp(Some(u64::MAX), 5), u64::MAX);
}
