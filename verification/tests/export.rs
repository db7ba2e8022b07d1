use netup::{header_row, record_row, u128_to_decimal, SortedMessages, TrackedMessage};

fn text(bytes: Vec<u8>) -> String {
    String::from_utf8(bytes).unwrap()
}

#[test]
fn decimal_of_zero_is_one_digit() {
    assert_eq!(u128_to_decimal(0), b"0".to_vec());
}

#[test]
fn decimal_of_small_and_large_numbers() {
    assert_eq!(u128_to_decimal(7), b"7".to_vec());
    assert_eq!(u128_to_decimal(10), b"10".to_vec());
    assert_eq!(u128_to_decimal(1700000000000), b"1700000000000".to_vec());
    assert_eq!(u128_to_decimal(u128::MAX), b"340282366920938463463374607431768211455".to_vec());
}

#[test]
fn decimal_agrees_with_the_standard_library() {
    for n in [0u128, 9, 10, 11, 99, 100, 101, 65535, 1 << 64, (1 << 64) - 1, u128::MAX - 1] {
        assert_eq!(u128_to_decimal(n), n.to_string().into_bytes());
    }
}

#[test]
fn header_row_names_the_columns() {
    assert_eq!(header_row(), vec![b"idx".to_vec(), b"snt_time".to_vec(), b"rcv_time".to_vec()]);
}

#[test]
fn record_row_leaves_a_missing_echo_empty() {
    assert_eq!(
        record_row(&TrackedMessage::new(12, 3400)),
        vec![b"12".to_vec(), b"3400".to_vec(), Vec::new()]
    );
    assert_eq!(
        record_row(&TrackedMessage { idx: 12, snt_time: 3400, rcv_time: Some(3456) }),
        vec![b"12".to_vec(), b"3400".to_vec(), b"3456".to_vec()]
    );
}

#[test]
fn first_export_writes_header_and_rows() {
    let mut messages = SortedMessages::default();
    messages.add(TrackedMessage::new(1, 1));
    messages.add(TrackedMessage::new(2, 3));
    messages.update(2, 7);
    let out = messages.write_to_file(false).unwrap();
    assert_eq!(text(out), "idx,snt_time,rcv_time\n1,1,\n2,3,7\n");
    assert_eq!(messages.last_saved(), 3);
}

#[test]
fn second_export_without_new_records_writes_nothing() {
    let mut messages = SortedMessages::default();
    messages.add(TrackedMessage::new(1, 1));
    messages.add(TrackedMessage::new(2, 3));
    let first = messages.write_to_file(false).unwrap();
    assert!(!first.is_empty());
    let second = messages.write_to_file(true).unwrap();
    assert!(second.is_empty());
    assert_eq!(messages.last_saved(), 3);
    assert!(messages.unsaved().is_empty());
}

#[test]
fn export_writes_only_what_is_new() {
    let mut messages = SortedMessages::default();
    messages.add(TrackedMessage::new(1, 1));
    messages.add(TrackedMessage::new(2, 3));
    assert_eq!(text(messages.write_to_file(false).unwrap()), "idx,snt_time,rcv_time\n1,1,\n2,3,\n");
    messages.add(TrackedMessage::new(3, 5));
    messages.add(TrackedMessage::new(4, 8));
    assert_eq!(messages.unsaved(), &[TrackedMessage::new(3, 5), TrackedMessage::new(4, 8)][..]);
    assert_eq!(text(messages.write_to_file(true).unwrap()), "3,5,\n4,8,\n");
    assert_eq!(messages.last_saved(), 8);
}

#[test]
fn export_of_empty_store() {
    let mut messages = SortedMessages::default();
    assert_eq!(text(messages.write_to_file(true).unwrap()), "");
    assert_eq!(text(messages.write_to_file(false).unwrap()), "idx,snt_time,rcv_time\n");
    assert_eq!(messages.last_saved(), 0);
}

#[test]
fn record_sent_at_time_zero_is_behind_the_initial_watermark() {
    let mut messages = SortedMessages::default();
    messages.add(TrackedMessage::new(0, 0));
    messages.add(TrackedMessage::new(1, 1));
    assert_eq!(messages.unsaved(), &[TrackedMessage::new(1, 1)][..]);
    assert_eq!(text(messages.write_to_file(true).unwrap()), "1,1,\n");
}
