use dualpane::times::{format_time, MAX_TIMESTAMP, MIN_TIMESTAMP};

#[test]
fn format_time_of_nothing_is_empty() {
    assert_eq!(format_time(None), "");
}

#[test]
fn format_time_exact_values() {
    assert_eq!(format_time(Some(0)), "1970-01-01 00:00");
    assert_eq!(format_time(Some(1431648000)), "2015-05-15 00:00");
    assert_eq!(format_time(Some(1431648059)), "2015-05-15 00:00");
    assert_eq!(format_time(Some(-60)), "1969-12-31 23:59");
}

#[test]
fn format_time_range_edges() {
    assert_ne!(format_time(Some(MIN_TIMESTAMP)), "");
    assert_eq!(format_time(Some(MIN_TIMESTAMP - 1)), "");
    assert_ne!(format_time(Some(MAX_TIMESTAMP)), "");
    assert_eq!(format_time(Some(MAX_TIMESTAMP + 1)), "");
    assert_eq!(format_time(Some(i64::MAX)), "");
    assert_eq!(format_time(Some(i64::MIN)), "");
}

#[test]
fn format_time_matches_chrono() {
    for t in [0i64, 1, 86399, 86400, 951782400, 4102444800, -2208988800, 253402300799, 253402300800] {
        let expected = chrono::DateTime::from_timestamp(t, 0)
            .unwrap()
            .format("%Y-%m-%d %H:%M")
            .to_string();
        assert_eq!(format_time(Some(t)), expected);
    }
}
