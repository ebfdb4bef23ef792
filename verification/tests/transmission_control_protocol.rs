use ipv4_tcp_codec::transmission_control_protocol::{
    ControlBits, TcpHeader, TcpHeaderDecodeError,
};

fn all_clear() -> ControlBits {
    ControlBits {
        cwr: false,
        ece: false,
        urg: false,
        ack: false,
        psh: false,
        rst: false,
        syn: false,
        fin: false,
    }
}

#[test]
fn test_success_encode() {
    let control_bits = ControlBits {
        cwr: false,
        ece: false,
        urg: false,
        ack: false,
        psh: false,
        rst: false,
        syn: false,
        fin: false,
    };

    let tcp_header = TcpHeader {
        source_port: 5432,
        destination_port: 3306,
        sequence_number: 375912035,
        acknowledgment_number: 768347,
        data_offset: 5,
        reserved: 0,
        control_bits,
        window: 1000,
        checksum: 2222,
        urgent_pointer: 3333,
        options: vec![],
    };

    let expected_output: Vec<u8> = vec![
        // Source port bytes
        21, 56, // Destination port bytes
        12, 234, // Sequence number bytes
        22, 103, 246, 99, // Acknowledgment number bytes
        0, 11, 185, 91, // Data offset and reserved byte
        80, // Control bits byte
        0,  // Window bytes
        3, 232, // Checksum bytes
        8, 174, // Urgent pointer bytes
        13, 5,
    ];

    assert_eq!(tcp_header.encode(), expected_output);
}

#[test]
fn test_decode_too_short_input() {
    let buffer: Vec<u8> = vec![];
    let result = TcpHeader::decode(&buffer);
    assert!(result.is_err());
    assert!(matches!(result, Err(TcpHeaderDecodeError::InputTooShort)));

    let buffer = vec![0u8; 19];
    let result = TcpHeader::decode(&buffer);
    assert!(result.is_err());
    assert!(matches!(result, Err(TcpHeaderDecodeError::InputTooShort)));
}

#[test]
fn test_decode_rejects_data_offset_below_minimum() {
    // 20 bytes whose data offset nibble says 4: structurally too short a header.
    let mut buffer = vec![0u8; 20];
    buffer[12] = 0x40;
    let result = TcpHeader::decode(&buffer);
    assert!(matches!(
        result,
        Err(TcpHeaderDecodeError::InvalidFieldValue(_))
    ));
}

#[test]
fn test_decode_rejects_data_offset_beyond_buffer() {
    // Data offset 6 implies 24 bytes, but only 22 are supplied.
    let mut buffer = vec![0u8; 22];
    buffer[12] = 0x60;
    let result = TcpHeader::decode(&buffer);
    assert!(matches!(
        result,
        Err(TcpHeaderDecodeError::InvalidFieldValue(_))
    ));
}

#[test]
fn test_decode_rejects_nonzero_reserved() {
    let mut buffer = vec![0u8; 20];
    buffer[12] = 0x51;
    let result = TcpHeader::decode(&buffer);
    assert!(matches!(
        result,
        Err(TcpHeaderDecodeError::InvalidFieldValue(_))
    ));
}

#[test]
fn test_decode_reads_fields_big_endian() {
    let tcp_header = TcpHeader {
        source_port: 5432,
        destination_port: 3306,
        sequence_number: 375912035,
        acknowledgment_number: 768347,
        data_offset: 5,
        reserved: 0,
        control_bits: all_clear(),
        window: 1000,
        checksum: 2222,
        urgent_pointer: 3333,
        options: vec![],
    };
    let buffer = tcp_header.encode();
    let decoded = TcpHeader::decode(&buffer).unwrap();
    assert_eq!(decoded.source_port, 5432);
    assert_eq!(decoded.destination_port, 3306);
    assert_eq!(decoded.sequence_number, 375912035);
    assert_eq!(decoded.acknowledgment_number, 768347);
    assert_eq!(decoded.data_offset, 5);
    assert_eq!(decoded.reserved, 0);
    assert_eq!(decoded.control_bits, all_clear());
    assert_eq!(decoded.window, 1000);
    assert_eq!(decoded.checksum, 2222);
    assert_eq!(decoded.urgent_pointer, 3333);
    assert!(decoded.options.is_empty());
}

#[test]
fn test_round_trip_with_options() {
    // Data offset 6: four option bytes follow the fixed header.
    let tcp_header = TcpHeader {
        source_port: 80,
        destination_port: 49152,
        sequence_number: 0xDEADBEEF,
        acknowledgment_number: 1,
        data_offset: 6,
        reserved: 0,
        control_bits: ControlBits {
            ack: true,
            psh: true,
            ..all_clear()
        },
        window: 65535,
        checksum: 0x1234,
        urgent_pointer: 0,
        options: vec![2, 4, 5, 180],
    };
    let buffer = tcp_header.encode();
    assert_eq!(buffer.len(), 24);
    let decoded = TcpHeader::decode(&buffer).unwrap();
    assert_eq!(decoded.source_port, tcp_header.source_port);
    assert_eq!(decoded.destination_port, tcp_header.destination_port);
    assert_eq!(decoded.sequence_number, tcp_header.sequence_number);
    assert_eq!(
        decoded.acknowledgment_number,
        tcp_header.acknowledgment_number
    );
    assert_eq!(decoded.data_offset, tcp_header.data_offset);
    assert_eq!(decoded.reserved, 0);
    assert_eq!(decoded.control_bits, tcp_header.control_bits);
    assert_eq!(decoded.window, tcp_header.window);
    assert_eq!(decoded.checksum, tcp_header.checksum);
    assert_eq!(decoded.urgent_pointer, tcp_header.urgent_pointer);
    assert_eq!(decoded.options, tcp_header.options);
}

#[test]
fn test_control_bits_all_clear_encodes_to_zero() {
    assert_eq!(all_clear().encode(), 0x00);
}

#[test]
fn test_control_bits_syn_encodes_to_two() {
    let cb = ControlBits {
        syn: true,
        ..all_clear()
    };
    assert_eq!(cb.encode(), 0x02);
}

#[test]
fn test_control_bits_ack_encodes_to_sixteen() {
    let cb = ControlBits {
        ack: true,
        ..all_clear()
    };
    assert_eq!(cb.encode(), 0x10);
}

#[test]
fn test_control_bits_round_trip() {
    let cb = ControlBits::decode(0b1010_1010).unwrap();
    assert!(cb.cwr);
    assert!(!cb.ece);
    assert!(cb.urg);
    assert!(!cb.ack);
    assert!(cb.psh);
    assert!(!cb.rst);
    assert!(cb.syn);
    assert!(!cb.fin);
    assert_eq!(cb.encode(), 0b1010_1010);
}
