use hollow_knight_save_converter::decode_prefix;
use hollow_knight_save_converter::encode_prefix;

#[test]
fn prefix_zero_is_one_zero_byte() {
    assert_eq!(encode_prefix(0), vec![0x00]);
}

#[test]
fn prefix_127_is_one_byte() {
    assert_eq!(encode_prefix(127), vec![0x7F]);
}

#[test]
fn prefix_128_is_two_bytes() {
    assert_eq!(encode_prefix(128), vec![0x80, 0x01]);
}

#[test]
fn prefix_large_values_are_clamped() {
    let max = encode_prefix(0x7FFF_FFFF);
    assert_eq!(max, vec![0xFF, 0xFF, 0xFF, 0xFF, 0x07]);
    assert_eq!(encode_prefix(0x8000_0000), max);
    assert_eq!(encode_prefix(usize::MAX), max);
}

#[test]
fn prefix_round_trips_through_decode() {
    for &n in &[0usize, 1, 127, 128, 300, 16383, 16384, 0x7FFF_FFFF] {
        let bytes = encode_prefix(n);
        let (value, consumed) = decode_prefix(&bytes).unwrap();
        assert_eq!(value, n as u64);
        assert_eq!(consumed, bytes.len());
    }
}

#[test]
fn prefix_decode_needs_a_terminating_byte() {
    assert_eq!(decode_prefix(&[]), None);
    assert_eq!(decode_prefix(&[0x80]), None);
    assert_eq!(decode_prefix(&[0x80, 0x81, 0x82]), None);
}

#[test]
fn prefix_decode_fifth_byte_always_ends() {
    let (value, consumed) = decode_prefix(&[0x80, 0x80, 0x80, 0x80, 0x90, 0x33]).unwrap();
    assert_eq!(consumed, 5);
    assert_eq!(value, 0x10u64 << 28);
}
