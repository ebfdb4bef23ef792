use ipv4_tcp_codec::checksum::checksum;

#[test]
fn test_checksum_known_vector() {
    // The classic RFC 1071 worked example.
    let bytes = vec![0x00, 0x01, 0xf2, 0x03, 0xf4, 0xf5, 0xf6, 0xf7];
    assert_eq!(checksum(&bytes), 0x220d);
}

#[test]
fn test_checksum_empty_buffer() {
    let bytes: Vec<u8> = vec![];
    assert_eq!(checksum(&bytes), 0xFFFF);
}

#[test]
fn test_checksum_odd_length_pads_with_zero() {
    // One byte: the conceptual word is 0x0100, so the checksum is its
    // complement. The caller's buffer itself stays one byte long.
    let bytes = vec![0x01];
    assert_eq!(checksum(&bytes), 0xFEFF);
    assert_eq!(bytes.len(), 1);
}

#[test]
fn test_checksum_end_around_carry() {
    // 0xFFFF + 0x0002 overflows 16 bits; the carry folds back in.
    let bytes = vec![0xFF, 0xFF, 0x00, 0x02];
    assert_eq!(checksum(&bytes), 0xFFFD);
}

#[test]
fn test_checksum_all_ones_word() {
    let bytes = vec![0xFF, 0xFF];
    assert_eq!(checksum(&bytes), 0x0000);
}
