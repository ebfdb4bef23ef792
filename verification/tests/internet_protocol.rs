use ipv4_tcp_codec::checksum::checksum;
use ipv4_tcp_codec::internet_protocol::{Ipv4Header, Ipv4HeaderDecodeError};

/// A valid 20-byte header buffer: version 4, IHL 5, protocol TCP.
fn valid_buffer() -> Vec<u8> {
    let mut buffer = vec![0u8; 20];
    buffer[0] = 0x45;
    buffer[8] = 64; // TTL
    buffer[9] = 6; // protocol: TCP
    buffer
}

fn sample_header() -> Ipv4Header {
    Ipv4Header {
        version: 4,
        ihl: 5,
        dscp: 0,
        ecn: 0,
        total_length: 40,
        identification: 0x1234,
        flags: 2,
        fragment_offset: 0,
        ttl: 64,
        protocol: 6,
        header_checksum: 0,
        source_address: [192, 168, 0, 1],
        destination_address: [192, 168, 0, 2],
    }
}

#[test]
fn test_ipv4_decode_empty_buffer_too_short() {
    let buffer: Vec<u8> = vec![];
    let result = Ipv4Header::decode(&buffer);
    assert!(matches!(result, Err(Ipv4HeaderDecodeError::InputTooShort)));
}

#[test]
fn test_ipv4_decode_nineteen_bytes_too_short() {
    let buffer = vec![0u8; 19];
    let result = Ipv4Header::decode(&buffer);
    assert!(matches!(result, Err(Ipv4HeaderDecodeError::InputTooShort)));
}

#[test]
fn test_ipv4_decode_rejects_wrong_version() {
    let mut buffer = valid_buffer();
    buffer[0] = 0x55; // version nibble 5
    let result = Ipv4Header::decode(&buffer);
    assert!(matches!(
        result,
        Err(Ipv4HeaderDecodeError::InvalidFieldValue(_))
    ));
}

#[test]
fn test_ipv4_decode_rejects_ihl_below_minimum() {
    let mut buffer = valid_buffer();
    buffer[0] = 0x44; // IHL 4
    let result = Ipv4Header::decode(&buffer);
    assert!(matches!(
        result,
        Err(Ipv4HeaderDecodeError::InvalidFieldValue(_))
    ));
}

#[test]
fn test_ipv4_decode_rejects_ihl_beyond_buffer() {
    let mut buffer = valid_buffer();
    buffer[0] = 0x46; // IHL 6 implies 24 bytes; only 20 supplied
    let result = Ipv4Header::decode(&buffer);
    assert!(matches!(
        result,
        Err(Ipv4HeaderDecodeError::InvalidFieldValue(_))
    ));
}

#[test]
fn test_ipv4_decode_accepts_ihl_matching_buffer() {
    // IHL 6 with a 24-byte buffer: the implied header fits exactly.
    let mut buffer = valid_buffer();
    buffer[0] = 0x46;
    buffer.extend_from_slice(&[0, 0, 0, 0]);
    let decoded = Ipv4Header::decode(&buffer).unwrap();
    assert_eq!(decoded.ihl, 6);
}

#[test]
fn test_ipv4_decode_accepts_udp_protocol() {
    let mut buffer = valid_buffer();
    buffer[9] = 17;
    let decoded = Ipv4Header::decode(&buffer).unwrap();
    assert_eq!(decoded.protocol, 17);
}

#[test]
fn test_ipv4_decode_rejects_unknown_protocol() {
    let mut buffer = valid_buffer();
    buffer[9] = 99;
    let result = Ipv4Header::decode(&buffer);
    assert!(matches!(
        result,
        Err(Ipv4HeaderDecodeError::InvalidFieldValue(_))
    ));
}

#[test]
fn test_ipv4_decode_unpacks_shared_bytes() {
    let mut buffer = valid_buffer();
    buffer[1] = 0b1010_1110; // DSCP 43, ECN 2
    buffer[6] = 0b0100_0001; // flags 2, fragment offset high bits 1
    buffer[7] = 0x02; // fragment offset 0x102
    let decoded = Ipv4Header::decode(&buffer).unwrap();
    assert_eq!(decoded.version, 4);
    assert_eq!(decoded.ihl, 5);
    assert_eq!(decoded.dscp, 43);
    assert_eq!(decoded.ecn, 2);
    assert_eq!(decoded.flags, 2);
    assert_eq!(decoded.fragment_offset, 0x102);
    assert_eq!(decoded.ttl, 64);
    assert_eq!(decoded.protocol, 6);
}

#[test]
fn test_ipv4_round_trip() {
    let mut header = sample_header();
    header.header_checksum = 0xABCD;
    let buffer = header.encode();
    assert_eq!(buffer.len(), 20);
    let decoded = Ipv4Header::decode(&buffer).unwrap();
    assert_eq!(decoded.version, header.version);
    assert_eq!(decoded.ihl, header.ihl);
    assert_eq!(decoded.dscp, header.dscp);
    assert_eq!(decoded.ecn, header.ecn);
    assert_eq!(decoded.total_length, header.total_length);
    assert_eq!(decoded.identification, header.identification);
    assert_eq!(decoded.flags, header.flags);
    assert_eq!(decoded.fragment_offset, header.fragment_offset);
    assert_eq!(decoded.ttl, header.ttl);
    assert_eq!(decoded.protocol, header.protocol);
    assert_eq!(decoded.header_checksum, header.header_checksum);
    assert_eq!(decoded.source_address, header.source_address);
    assert_eq!(decoded.destination_address, header.destination_address);
}

#[test]
fn test_ipv4_setter_keeps_checksum_self_verifying() {
    let mut header = sample_header();
    // Any setter recomputes the stored checksum from the other fields.
    header.set_ttl(64);
    assert!(header.validate_checksum().is_ok());
    // Summing the encoded header with its checksum in place folds to zero.
    let buffer = header.encode();
    assert_eq!(checksum(&buffer), 0);
}

#[test]
fn test_ipv4_validate_checksum_detects_corruption() {
    let mut header = sample_header();
    header.set_protocol(6);
    assert!(header.validate_checksum().is_ok());
    header.ttl = header.ttl.wrapping_add(1); // bypass the setter
    assert!(matches!(
        header.validate_checksum(),
        Err(Ipv4HeaderDecodeError::InvalidFieldValue(_))
    ));
}

#[test]
fn test_ipv4_setters_mask_and_store() {
    let mut header = sample_header();
    header.set_version(4);
    header.set_ihl(5);
    header.set_flags(3);
    header.set_ttl(128);
    header.set_protocol(17);
    assert_eq!(header.get_version(), 4);
    assert_eq!(header.get_ihl(), 5);
    assert_eq!(header.get_flags(), 3);
    assert_eq!(header.get_ttl(), 128);
    assert_eq!(header.get_protocol(), 17);
    assert_eq!(header.get_total_length(), 40);
    assert_eq!(header.get_identification(), 0x1234);
    assert_eq!(header.get_fragment_offset(), 0);
    assert_eq!(header.get_source_address(), [192, 168, 0, 1]);
    assert_eq!(header.get_destination_address(), [192, 168, 0, 2]);
    assert_eq!(header.get_header_checksum(), header.header_checksum);
    assert!(header.validate_checksum().is_ok());
}
