use ipv4_tcp_codec::internet_protocol::Ipv4Header;
use ipv4_tcp_codec::transmission_control_protocol::tcp_packet::TcpPacket;
use ipv4_tcp_codec::transmission_control_protocol::tcp_pseudo_header::TcpPseudoHeader;
use ipv4_tcp_codec::transmission_control_protocol::{ControlBits, TcpHeader};

fn sample_ipv4_header() -> Ipv4Header {
    Ipv4Header {
        version: 4,
        ihl: 5,
        dscp: 0,
        ecn: 0,
        total_length: 42,
        identification: 1,
        flags: 2,
        fragment_offset: 0,
        ttl: 64,
        protocol: 6,
        header_checksum: 0,
        source_address: [192, 168, 0, 1],
        destination_address: [192, 168, 0, 2],
    }
}

fn sample_tcp_header() -> TcpHeader {
    TcpHeader {
        source_port: 5432,
        destination_port: 3306,
        sequence_number: 375912035,
        acknowledgment_number: 768347,
        data_offset: 5,
        reserved: 0,
        control_bits: ControlBits {
            cwr: false,
            ece: false,
            urg: false,
            ack: false,
            psh: false,
            rst: false,
            syn: false,
            fin: false,
        },
        window: 1000,
        checksum: 2222,
        urgent_pointer: 3333,
        options: vec![],
    }
}

fn sample_packet(payload: Vec<u8>) -> TcpPacket {
    TcpPacket {
        ip_v4_header: sample_ipv4_header(),
        tcp_header: sample_tcp_header(),
        payload,
    }
}

#[test]
fn test_pseudo_header_layout() {
    let packet = sample_packet(vec![0x61, 0x62]);
    let pseudo_header = TcpPseudoHeader::new(&packet);
    let buffer = pseudo_header.encode();
    assert_eq!(
        buffer,
        vec![192, 168, 0, 1, 192, 168, 0, 2, 0, 6, 0, 22]
    );
}

#[test]
fn test_packet_lengths() {
    let packet = sample_packet(vec![1, 2, 3]);
    assert_eq!(packet.calculate_tcp_header_length(), 20);
    assert_eq!(packet.calculate_payload_length(), 3);
    assert_eq!(packet.get_source_address(), [192, 168, 0, 1]);
    assert_eq!(packet.get_destination_address(), [192, 168, 0, 2]);
}

#[test]
fn test_packet_checksum_even_payload() {
    // Hand-computed over pseudo-header (tcp_length 22), the TCP header with
    // its checksum field read as zero, and the payload word 0x6162:
    // the ones'-complement sum folds to 0x2C14, so the checksum is 0xD3EB.
    let packet = sample_packet(vec![0x61, 0x62]);
    assert_eq!(packet.calculate_checksum(), 0xD3EB);
}

#[test]
fn test_packet_checksum_odd_payload() {
    // One payload byte: the buffer is padded with a zero for the final word
    // 0x6100, and tcp_length is 21. The sum folds to 0x2BB1 and the
    // checksum is 0xD44E.
    let packet = sample_packet(vec![0x61]);
    assert_eq!(packet.calculate_checksum(), 0xD44E);
}

#[test]
fn test_packet_checksum_ignores_stored_checksum() {
    // The TCP header's own checksum field is treated as zero, so changing it
    // must not change the computed checksum.
    let mut packet = sample_packet(vec![0x61, 0x62]);
    let first = packet.calculate_checksum();
    packet.tcp_header.checksum = 0;
    let second = packet.calculate_checksum();
    assert_eq!(first, second);
}

#[test]
fn test_packet_clone_is_field_for_field() {
    let packet = sample_packet(vec![9, 8, 7]);
    let copy = packet.clone();
    assert_eq!(copy.payload, packet.payload);
    assert_eq!(copy.tcp_header.source_port, packet.tcp_header.source_port);
    assert_eq!(copy.tcp_header.options, packet.tcp_header.options);
    assert_eq!(
        copy.ip_v4_header.source_address,
        packet.ip_v4_header.source_address
    );
    assert_eq!(copy.calculate_checksum(), packet.calculate_checksum());
}
