//! The TCP pseudo-header (RFC 9293): a 12-byte, checksum-only value derived
//! from the owning IPv4 header and the TCP segment length. It is built fresh
//! whenever a checksum is needed and never appears on the wire.

use crate::big_endian::{be16_hi, be16_lo};
use crate::internet_protocol::Ipv4Address;
use crate::transmission_control_protocol::{tcp_packet::TcpPacket, TCP_PROTOCOL_NUMBER};
use vstd::prelude::*;

verus! {

/// The pseudo-header for an IPv4 TCP segment.
#[derive(Debug, PartialEq, Eq, Clone, Copy)]
pub struct TcpPseudoHeader {
    pub source_address: Ipv4Address,
    pub destination_address: Ipv4Address,
    /// Always zero on the wire.
    pub zero: u8,
    /// The protocol number; 6 for TCP.
    pub ptcl: u8,
    /// TCP header length plus payload length, in bytes.
    pub tcp_length: u16,
}

/// Mathematical view of a `TcpPseudoHeader`: the same fields, with the two
/// addresses as byte sequences.
#[verifier::ext_equal]
pub struct TcpPseudoHeaderV {
    pub source_address: Seq<u8>,
    pub destination_address: Seq<u8>,
    pub zero: u8,
    pub ptcl: u8,
    pub tcp_length: u16,
}

impl View for TcpPseudoHeader {
    type V = TcpPseudoHeaderV;

    open spec fn view(&self) -> TcpPseudoHeaderV {
        TcpPseudoHeaderV {
            source_address: self.source_address@,
            destination_address: self.destination_address@,
            zero: self.zero,
            ptcl: self.ptcl,
            tcp_length: self.tcp_length,
        }
    }
}

/// The 12 encoded bytes: source address at 0..4, destination address at
/// 4..8, the zero byte at 8, the protocol number at 9, and the segment
/// length big-endian at 10..12.
pub open spec fn pseudo_header_bytes(p: TcpPseudoHeaderV) -> Seq<u8> {
    p.source_address + p.destination_address + seq![
        p.zero,
        p.ptcl,
        be16_hi(p.tcp_length),
        be16_lo(p.tcp_length),
    ]
}

/// The pseudo-header a packet's checksum runs over: the packet's addresses,
/// a zero byte, the TCP protocol number, and the length of TCP header plus
/// payload.
pub open spec fn pseudo_header_of(p: crate::transmission_control_protocol::tcp_packet::TcpPacketV)
    -> TcpPseudoHeaderV {
    TcpPseudoHeaderV {
        source_address: p.ip.source_address,
        destination_address: p.ip.destination_address,
        zero: 0,
        ptcl: TCP_PROTOCOL_NUMBER,
        tcp_length: (20 + p.tcp.options.len() + p.payload.len()) as u16,
    }
}

impl TcpPseudoHeader {
    /// Derive the pseudo-header from a packet: addresses copied from its
    /// IPv4 header, and the segment length taken as encoded TCP header
    /// length plus payload length. That length must fit the 16-bit field.
    pub fn new(tcp_packet: &TcpPacket) -> (r: Self)
        requires
            20 + tcp_packet@.tcp.options.len() + tcp_packet@.payload.len() <= 0xFFFF,
        ensures
            r@ == pseudo_header_of(tcp_packet@),
    {
        let source_address = tcp_packet.get_source_address();
        let destination_address = tcp_packet.get_destination_address();
        let zero = 0u8;
        let ptcl = TCP_PROTOCOL_NUMBER;

        let tcp_length = (tcp_packet.calculate_tcp_header_length()
            + tcp_packet.calculate_payload_length()) as u16;

        let r = Self { source_address, destination_address, zero, ptcl, tcp_length };
        proof {
            assert(r@ =~= pseudo_header_of(tcp_packet@));
        }
        r
    }

    /// Encode to exactly 12 bytes in the RFC 9293 layout.
    pub fn encode(&self) -> (buffer: Vec<u8>)
        ensures
            buffer@ == pseudo_header_bytes(self@),
            buffer@.len() == 12,
    {
        let mut buffer: Vec<u8> = Vec::new();
        buffer.push(self.source_address[0]);
        buffer.push(self.source_address[1]);
        buffer.push(self.source_address[2]);
        buffer.push(self.source_address[3]);
        buffer.push(self.destination_address[0]);
        buffer.push(self.destination_address[1]);
        buffer.push(self.destination_address[2]);
        buffer.push(self.destination_address[3]);
        buffer.push(self.zero);
        buffer.push(self.ptcl);
        buffer.push((self.tcp_length / 256) as u8);
        buffer.push((self.tcp_length % 256) as u8);
        proof {
            assert(buffer@ =~= pseudo_header_bytes(self@));
        }
        buffer
    }
}

} // verus!
