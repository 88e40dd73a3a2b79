use chat_search::dates::date_end_store_ns;
use chat_search::dates::date_start_store_ns;
use chat_search::dates::parse_date;
use chat_search::dates::store_ns_to_unix;
use chat_search::dates::unix_to_store_ns;

#[test]
fn store_epoch_is_unix_978307200() {
    assert_eq!(store_ns_to_unix(0), 978307200);
}

#[test]
fn store_time_truncates_toward_zero() {
    assert_eq!(store_ns_to_unix(999_999_999), 978307200);
    assert_eq!(store_ns_to_unix(-1), 978307200);
    assert_eq!(store_ns_to_unix(-1_000_000_001), 978307199);
    assert_eq!(store_ns_to_unix(-2_000_000_000), 978307198);
}

#[test]
fn unix_round_trips_through_store_time() {
    let ns = unix_to_store_ns(1_700_000_000).unwrap();
    assert_eq!(ns, (1_700_000_000 - 978307200) * 1_000_000_000);
    assert_eq!(store_ns_to_unix(ns), 1_700_000_000);
}

#[test]
fn unix_round_trips_before_the_store_epoch() {
    let ns = unix_to_store_ns(978307100).unwrap();
    assert_eq!(ns, -100_000_000_000);
    assert_eq!(store_ns_to_unix(ns), 978307100);
}

#[test]
fn unix_outside_store_range_is_rejected() {
    assert!(unix_to_store_ns(10_201_679_237).is_none());
    assert!(unix_to_store_ns(i64::MIN).is_none());
    assert!(unix_to_store_ns(10_201_679_236).is_some());
}

#[test]
fn parse_date_reads_the_fixed_format() {
    assert_eq!(parse_date(b"2024-01-01"), Some((2024, 1, 1)));
    assert_eq!(parse_date(b"1969-12-31"), Some((1969, 12, 31)));
}

#[test]
fn parse_date_rejects_bad_calendar_values() {
    assert_eq!(parse_date(b"2024-13-01"), None);
    assert_eq!(parse_date(b"2024-00-10"), None);
    assert_eq!(parse_date(b"2024-04-31"), None);
    assert_eq!(parse_date(b"2023-02-29"), None);
    assert_eq!(parse_date(b"2024-02-29"), Some((2024, 2, 29)));
    assert_eq!(parse_date(b"1900-02-29"), None);
    assert_eq!(parse_date(b"2000-02-29"), Some((2000, 2, 29)));
}

#[test]
fn parse_date_rejects_other_shapes() {
    assert_eq!(parse_date(b"2024-1-1"), None);
    assert_eq!(parse_date(b"2024/01/01"), None);
    assert_eq!(parse_date(b"01-01-2024"), None);
    assert_eq!(parse_date(b""), None);
    assert_eq!(parse_date(b"2024-01-01x"), None);
}

#[test]
fn upper_bound_covers_the_whole_named_day() {
    // 2024-01-01T23:59:59Z is Unix second 1704153599.
    let expected = (1_704_153_599 - 978_307_200) * 1_000_000_000;
    assert_eq!(date_end_store_ns(b"2024-01-01"), Some(expected));
    assert_eq!(expected, 725_846_399_000_000_000);
}

#[test]
fn lower_bound_has_no_time_of_day_adjustment() {
    // 2024-01-01T00:00:00Z is Unix second 1704067200.
    let expected = (1_704_067_200 - 978_307_200) * 1_000_000_000;
    assert_eq!(date_start_store_ns(b"2024-01-01"), Some(expected));
}

#[test]
fn unconvertible_date_yields_no_bound() {
    assert_eq!(date_start_store_ns(b"9999-12-31"), None);
    assert_eq!(date_start_store_ns(b"not-a-date!"), None);
}
