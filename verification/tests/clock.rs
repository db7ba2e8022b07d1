use netup::{format_timestamp_ms, get_timestamp, TIMESTAMP_PATTERN};

#[test]
fn clock_reads_a_time_after_the_year_2020() {
    let now = get_timestamp().unwrap();
    assert!(now > 1_577_836_800_000);
    let later = get_timestamp().unwrap();
    assert!(later + 60_000 > now);
}

#[test]
fn epoch_is_written_as_the_first_of_january_1970() {
    assert_eq!(format_timestamp_ms(0), Some("01/01/70 00:00:00.000".to_string()));
}

#[test]
fn timestamp_is_written_in_utc_with_milliseconds() {
    assert_eq!(TIMESTAMP_PATTERN, "%d/%m/%y %H:%M:%S%.3f");
    assert_eq!(format_timestamp_ms(1_700_000_000_123), Some("14/11/23 22:13:20.123".to_string()));
    assert_eq!(format_timestamp_ms(86_399_999), Some("01/01/70 23:59:59.999".to_string()));
}

#[test]
fn timestamp_beyond_the_calendar_has_no_text() {
    assert_eq!(format_timestamp_ms(u128::MAX), None);
    assert_eq!(format_timestamp_ms(1 << 63), None);
    assert_eq!(format_timestamp_ms(i64::MAX as u128), None);
}
