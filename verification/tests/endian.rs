use netup::endian::{le_decode, le_encode};

#[test]
fn encode_puts_the_low_byte_first() {
    assert_eq!(le_encode(0x0102, 2), vec![0x02, 0x01]);
    assert_eq!(le_encode(1, 4), vec![1, 0, 0, 0]);
    assert_eq!(le_encode(0, 0), Vec::<u8>::new());
    assert_eq!(le_encode(0x1122334455667788, 8), vec![0x88, 0x77, 0x66, 0x55, 0x44, 0x33, 0x22, 0x11]);
}

#[test]
fn encode_keeps_only_the_bytes_that_fit() {
    assert_eq!(le_encode(0x010203, 2), vec![0x03, 0x02]);
    assert_eq!(le_encode(u128::MAX, 1), vec![0xFF]);
}

#[test]
fn encode_agrees_with_the_standard_library() {
    for value in [0u128, 1, 255, 256, 65535, 1 << 64, u128::MAX, 1700000000000] {
        assert_eq!(le_encode(value, 16), value.to_le_bytes().to_vec());
        assert_eq!(le_encode(value, 8), (value as u64).to_le_bytes().to_vec());
    }
}

#[test]
fn decode_reads_the_low_byte_first() {
    assert_eq!(le_decode(&[]), 0);
    assert_eq!(le_decode(&[7]), 7);
    assert_eq!(le_decode(&[0x02, 0x01]), 0x0102);
    assert_eq!(le_decode(&[0, 0, 0, 0, 0, 0, 0, 0, 1]), 1 << 64);
    assert_eq!(le_decode(&[0xFF; 16]), u128::MAX);
}

#[test]
fn decode_undoes_encode() {
    for value in [0u128, 1, 255, 256, 65535, 1 << 64, u128::MAX, 1700000000000] {
        assert_eq!(le_decode(&le_encode(value, 16)), value);
        assert_eq!(le_decode(&value.to_le_bytes()), value);
    }
}
