use chrono::NaiveDate;
use imp::date::{naive_date_to_timestamp_ms, timestamp_to_naive_date};

fn ymd(y: i32, m: u32, d: u32) -> NaiveDate {
    NaiveDate::from_ymd_opt(y, m, d).unwrap()
}

#[test]
fn timestamps_to_dates() {
    assert_eq!(timestamp_to_naive_date(0), ymd(1970, 1, 1));
    assert_eq!(timestamp_to_naive_date(1_431_648_000_000), ymd(2015, 5, 15));
    assert_eq!(timestamp_to_naive_date(1_431_648_000_000 + 86_399_999), ymd(2015, 5, 15));
    // whole seconds are counted toward zero: -1 ms is still second 0
    assert_eq!(timestamp_to_naive_date(-1), ymd(1970, 1, 1));
    assert_eq!(timestamp_to_naive_date(-1_000), ymd(1969, 12, 31));
    // past the dates chrono holds: the epoch
    assert_eq!(timestamp_to_naive_date(i64::MAX), ymd(1970, 1, 1));
    assert_eq!(timestamp_to_naive_date(i64::MIN), ymd(1970, 1, 1));
}

#[test]
fn dates_to_timestamps_and_back() {
    assert_eq!(naive_date_to_timestamp_ms(&ymd(1970, 1, 1)), 0);
    assert_eq!(naive_date_to_timestamp_ms(&ymd(2015, 5, 15)), 1_431_648_000_000);
    assert_eq!(naive_date_to_timestamp_ms(&ymd(1969, 12, 31)), -86_400_000);
    for d in [ymd(1, 1, 1), ymd(1969, 12, 31), ymd(2000, 2, 29), ymd(9999, 12, 31), NaiveDate::MIN, NaiveDate::MAX] {
        assert_eq!(timestamp_to_naive_date(naive_date_to_timestamp_ms(&d)), d);
    }
}
