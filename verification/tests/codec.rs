use netup::{return_port, RawMessage, RETURN_PORT_LEN, WIRE_LEN};

const HASH_1_2: u128 = 82244014195791531285525489971874779499;
const BYTES_1_2: [u8; 40] = [
    1, 0, 0, 0, 0, 0, 0, 0, 2, 0, 0, 0, 0, 0, 0, 0, 0, 0, 0, 0, 0, 0, 0, 0, 107, 81, 212, 49, 223,
    93, 127, 20, 28, 190, 206, 204, 247, 158, 223, 61,
];

#[test]
fn build_computes_the_hash() {
    let msg = RawMessage::build(1, 2);
    assert_eq!(msg, RawMessage { idx: 1, timestamp: 2, hash: HASH_1_2 });
    assert_eq!(RawMessage::build(0, 0).hash, 253493701783619937690070480144558150641);
    assert_eq!(RawMessage::build(7, 1000).hash, 280969872312414553372665569297651064789);
    assert_eq!(
        RawMessage::build(42, 1700000000000).hash,
        314638902443277999309020978209728981437
    );
    assert_eq!(
        RawMessage::build(u64::MAX, u128::MAX).hash,
        1034486375839379058177237400813059734
    );
}

#[test]
fn hash_is_of_the_two_decimal_texts_joined() {
    // "1" followed by "23" and "12" followed by "3" are the same text.
    assert_eq!(RawMessage::build(1, 23).hash, RawMessage::build(12, 3).hash);
    assert_ne!(RawMessage::build(1, 2).hash, RawMessage::build(2, 1).hash);
}

#[test]
fn to_bytes_is_forty_little_endian_bytes() {
    let bytes = RawMessage::build(1, 2).to_bytes();
    assert_eq!(bytes.len(), WIRE_LEN);
    assert_eq!(bytes, BYTES_1_2.to_vec());
    let other = RawMessage { idx: 0x0102030405060708, timestamp: 0x1112, hash: 1 << 120 };
    let mut expected = vec![8, 7, 6, 5, 4, 3, 2, 1, 0x12, 0x11];
    expected.extend_from_slice(&[0; 14]);
    expected.extend_from_slice(&[0; 15]);
    expected.push(1);
    assert_eq!(other.to_bytes(), expected);
}

#[test]
fn to_bytes_is_what_bincode_writes() {
    for (idx, timestamp) in [(0u64, 0u128), (1, 2), (7, 1000), (u64::MAX, u128::MAX)] {
        let msg = RawMessage::build(idx, timestamp);
        let reference = bincode::serialize(&(msg.idx, msg.timestamp, msg.hash)).unwrap();
        assert_eq!(msg.to_bytes(), reference);
    }
}

#[test]
fn from_bytes_reads_what_bincode_reads() {
    let mut bytes = BYTES_1_2.to_vec();
    bytes.extend_from_slice(&[9, 9, 9]);
    for len in [0usize, 1, 8, 24, 39, 40, 41, 43] {
        let input = bytes[..len].to_vec();
        let reference: Option<(u64, u128, u128)> = bincode::deserialize(&input).ok();
        let decoded = RawMessage::from_bytes(input);
        assert_eq!(decoded.map(|msg| (msg.idx, msg.timestamp, msg.hash)), reference);
    }
}

#[test]
fn round_trip_of_built_messages() {
    for (idx, timestamp) in
        [(0u64, 0u128), (1, 2), (7, 1000), (42, 1700000000000), (u64::MAX, u128::MAX)]
    {
        let msg = RawMessage::build(idx, timestamp);
        let back = RawMessage::from_bytes(msg.to_bytes()).unwrap();
        assert_eq!(back, msg);
        assert!(back.check_hash());
    }
}

#[test]
fn from_bytes_refuses_truncated_input() {
    assert_eq!(RawMessage::from_bytes(Vec::new()), None);
    assert_eq!(RawMessage::from_bytes(BYTES_1_2[..39].to_vec()), None);
    assert_eq!(RawMessage::from_bytes(vec![0; 24]), None);
}

#[test]
fn from_bytes_ignores_what_follows_the_message() {
    let mut bytes = BYTES_1_2.to_vec();
    bytes.extend_from_slice(&[0xAA; 100]);
    assert_eq!(
        RawMessage::from_bytes(bytes),
        Some(RawMessage { idx: 1, timestamp: 2, hash: HASH_1_2 })
    );
}

#[test]
fn check_hash_accepts_only_the_right_hash() {
    assert!(RawMessage { idx: 1, timestamp: 2, hash: HASH_1_2 }.check_hash());
    assert!(!RawMessage { idx: 1, timestamp: 2, hash: HASH_1_2 + 1 }.check_hash());
    assert!(!RawMessage { idx: 1, timestamp: 2, hash: 0 }.check_hash());
    assert!(!RawMessage { idx: 2, timestamp: 2, hash: HASH_1_2 }.check_hash());
    assert!(!RawMessage { idx: 1, timestamp: 3, hash: HASH_1_2 }.check_hash());
}

#[test]
fn set_hash_repairs_the_hash() {
    let mut msg = RawMessage { idx: 1, timestamp: 2, hash: 5 };
    msg.set_hash();
    assert_eq!(msg, RawMessage { idx: 1, timestamp: 2, hash: HASH_1_2 });
}

#[test]
fn flipped_bit_in_index_or_send_time_fails_the_check() {
    let sent = RawMessage::build(7, 1000).to_bytes();
    for byte in 0..24 {
        for bit in 0..8 {
            let mut damaged = sent.clone();
            damaged[byte] ^= 1 << bit;
            let msg = RawMessage::from_bytes(damaged).unwrap();
            assert!(!msg.check_hash(), "byte {} bit {}", byte, bit);
        }
    }
}

#[test]
fn flipped_bit_in_hash_fails_the_check() {
    let sent = RawMessage::build(7, 1000).to_bytes();
    for byte in 24..40 {
        let mut damaged = sent.clone();
        damaged[byte] ^= 0x10;
        assert!(!RawMessage::from_bytes(damaged).unwrap().check_hash());
    }
}

#[test]
fn return_port_variant_puts_the_port_in_front() {
    let msg = RawMessage::build(1, 2);
    let bytes = msg.to_bytes_with_return_port(0x1234);
    assert_eq!(bytes.len(), RETURN_PORT_LEN + WIRE_LEN);
    assert_eq!(&bytes[..2], &[0x34, 0x12][..]);
    assert_eq!(&bytes[2..], &BYTES_1_2[..]);
    assert_eq!(return_port(&bytes), Some(0x1234));
    assert_eq!(RawMessage::from_bytes_with_return_port(bytes), Some((0x1234, msg)));
}

#[test]
fn return_port_variant_refuses_truncated_input() {
    let bytes = RawMessage::build(1, 2).to_bytes_with_return_port(10001);
    assert_eq!(RawMessage::from_bytes_with_return_port(bytes[..41].to_vec()), None);
    assert_eq!(RawMessage::from_bytes_with_return_port(Vec::new()), None);
    assert_eq!(return_port(&[]), None);
    assert_eq!(return_port(&[7]), None);
    assert_eq!(return_port(&[7, 0]), Some(7));
    assert_eq!(return_port(&[0x10, 0x27, 99]), Some(10000));
}
