//! Days, moments and durations as they are written.

use aub::calendar::{parse_duration, UtcDate, DAY_NANOS, EPOCH_DAY};
use aub::domain::{MonotonicDuration, UtcTimestamp};

fn day(text: &str) -> UtcDate {
    UtcDate::parse(text).unwrap()
}

#[test]
fn days_read_back_as_they_are_written() {
    for text in ["0000-01-01", "1970-01-01", "2000-02-29", "2026-08-30", "9999-12-31"] {
        assert_eq!(day(text).iso(), text);
    }
    assert_eq!(i64::from(day("1970-01-01").number()), EPOCH_DAY);
    assert_eq!(day("1970-01-02").number(), day("1970-01-01").number() + 1);
}

#[test]
fn each_number_names_one_day() {
    for number in [0, 59, 60, 365, 366, 719_528, 730_000, 3_652_424] {
        let date = UtcDate::from_number(number).unwrap();
        assert_eq!(i64::from(date.number()), number);
        assert_eq!(UtcDate::parse(&date.iso()), Some(date));
    }
    assert_eq!(UtcDate::from_number(-1), None);
    assert_eq!(UtcDate::from_number(3_652_425), None);
}

#[test]
fn dates_that_are_none_are_refused() {
    for text in [
        "2026-02-29", "1900-02-29", "2026-13-01", "2026-00-10", "2026-04-31", "26-04-30",
        "2026/04/30", "2026-4-30", "", "2026-04-3x", "+2026-04-30",
    ] {
        assert_eq!(UtcDate::parse(text), None, "{text}");
    }
}

#[test]
fn a_moment_falls_on_its_day() {
    let at = UtcTimestamp::parse_rfc3339("2026-08-30T23:30:00Z").unwrap();
    assert_eq!(at.utc_date().iso(), "2026-08-30");
    let before = UtcTimestamp::from_unix_nanos(-1);
    assert_eq!(before.utc_date().iso(), "1969-12-31");
    assert_eq!(UtcTimestamp::from_unix_nanos(DAY_NANOS).utc_date().iso(), "1970-01-02");
}

#[test]
fn moments_are_read_to_the_nanosecond() {
    let read = |text: &str| UtcTimestamp::parse_rfc3339(text).map(|at| at.unix_nanos());
    assert_eq!(read("1970-01-01T00:00:00Z"), Some(0));
    assert_eq!(read("1970-01-01T00:00:01.5Z"), Some(1_500_000_000));
    assert_eq!(read("1970-01-01T01:00:00+01:00"), Some(0));
    assert_eq!(read("1969-12-31T23:59:59Z"), Some(-1_000_000_000));
    assert_eq!(read("1970-01-01T24:00:00Z"), None);
    assert_eq!(read("1970-01-01"), None);
    assert_eq!(read("yesterday"), None);
}

#[test]
fn durations_carry_their_unit() {
    let nanos = |text: &str| parse_duration(text).map(MonotonicDuration::as_nanos);
    assert_eq!(nanos("250ms"), Some(250_000_000));
    assert_eq!(nanos("3s"), Some(3_000_000_000));
    assert_eq!(nanos("5m"), Some(300_000_000_000));
    assert_eq!(nanos("2h"), Some(7_200_000_000_000));
    assert_eq!(nanos("30d"), Some(2_592_000_000_000_000));
    assert_eq!(nanos("forever"), None);
    assert_eq!(nanos("10"), None);
    assert_eq!(nanos("d"), None);
    assert_eq!(nanos("99999999999999999999d"), None);
}
