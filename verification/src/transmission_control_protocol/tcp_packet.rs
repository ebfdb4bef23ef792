//! A TCP packet: one IPv4 header, one TCP header and a payload, aggregated
//! solely to compute the end-to-end TCP checksum over pseudo-header, TCP
//! header and payload.

use crate::checksum::{checksum, checksum_spec};
use crate::internet_protocol::{Ipv4Address, Ipv4Header, Ipv4HeaderV};
use crate::transmission_control_protocol::tcp_pseudo_header::{
    pseudo_header_bytes, pseudo_header_of, TcpPseudoHeader,
};
use crate::transmission_control_protocol::{tcp_bytes, TcpHeader, TcpHeaderV};
use vstd::prelude::*;

verus! {

/// One IPv4 header, one TCP header and the payload bytes. The packet owns
/// copies of its parts and reads them only; nothing here mutates them.
#[derive(Debug)]
pub struct TcpPacket {
    pub ip_v4_header: Ipv4Header,
    pub tcp_header: TcpHeader,
    pub payload: Vec<u8>,
}

/// Mathematical view of a `TcpPacket`.
#[verifier::ext_equal]
pub struct TcpPacketV {
    pub ip: Ipv4HeaderV,
    pub tcp: TcpHeaderV,
    pub payload: Seq<u8>,
}

impl View for TcpPacket {
    type V = TcpPacketV;

    open spec fn view(&self) -> TcpPacketV {
        TcpPacketV { ip: self.ip_v4_header@, tcp: self.tcp_header@, payload: self.payload@ }
    }
}

/// The buffer the end-to-end TCP checksum runs over: pseudo-header bytes,
/// then the TCP header bytes with the checksum field read as zero, then the
/// payload. The checksum engine pads it to even length by itself.
pub open spec fn tcp_checksum_input(p: TcpPacketV) -> Seq<u8> {
    pseudo_header_bytes(pseudo_header_of(p)) + tcp_bytes(p.tcp.with_checksum(0)) + p.payload
}

/// The end-to-end TCP checksum of the packet.
pub open spec fn tcp_packet_checksum(p: TcpPacketV) -> u16 {
    checksum_spec(tcp_checksum_input(p))
}

impl TcpPacket {
    /// Source address of the owning IPv4 header.
    pub fn get_source_address(&self) -> (r: Ipv4Address)
        ensures
            r@ == self@.ip.source_address,
    {
        self.ip_v4_header.get_source_address()
    }

    /// Destination address of the owning IPv4 header.
    pub fn get_destination_address(&self) -> (r: Ipv4Address)
        ensures
            r@ == self@.ip.destination_address,
    {
        self.ip_v4_header.get_destination_address()
    }

    /// Length in bytes of the encoded TCP header, options included.
    pub fn calculate_tcp_header_length(&self) -> (r: usize)
        ensures
            r == 20 + self@.tcp.options.len(),
    {
        self.tcp_header.encode().len()
    }

    /// Length in bytes of the payload.
    pub fn calculate_payload_length(&self) -> (r: usize)
        ensures
            r == self@.payload.len(),
    {
        self.payload.len()
    }

    /// The end-to-end TCP checksum: build the pseudo-header, concatenate its
    /// bytes with the TCP header bytes — the header's own checksum field
    /// treated as zero — and the payload, and feed the whole to the checksum
    /// engine. The segment length must fit the pseudo-header's 16-bit field.
    pub fn calculate_checksum(&self) -> (r: u16)
        requires
            20 + self@.tcp.options.len() + self@.payload.len() <= 0xFFFF,
        ensures
            r == tcp_packet_checksum(self@),
    {
        let tcp_pseudo_header = TcpPseudoHeader::new(self);
        let mut buffer = tcp_pseudo_header.encode();

        let zeroed = TcpHeader { checksum: 0, ..self.tcp_header.clone() };
        proof {
            assert(zeroed@ =~= self@.tcp.with_checksum(0));
        }
        let mut tcp_header_bytes = zeroed.encode();
        buffer.append(&mut tcp_header_bytes);

        let mut i: usize = 0;
        proof {
            assert(buffer@ =~= pseudo_header_bytes(pseudo_header_of(self@)) + tcp_bytes(
                self@.tcp.with_checksum(0),
            ) + self@.payload.take(0));
        }
        while i < self.payload.len()
            invariant
                i <= self@.payload.len(),
                buffer@ == pseudo_header_bytes(pseudo_header_of(self@)) + tcp_bytes(
                    self@.tcp.with_checksum(0),
                ) + self@.payload.take(i as int),
            decreases self@.payload.len() - i,
        {
            buffer.push(self.payload[i]);
            proof {
                assert(buffer@ =~= pseudo_header_bytes(pseudo_header_of(self@)) + tcp_bytes(
                    self@.tcp.with_checksum(0),
                ) + self@.payload.take(i as int + 1));
            }
            i = i + 1;
        }
        proof {
            assert(self@.payload.take(self@.payload.len() as int) =~= self@.payload);
        }

        checksum(buffer.as_slice())
    }
}

impl Clone for TcpPacket {
    /// Field-for-field copy; the payload is copied byte for byte.
    fn clone(&self) -> (res: Self)
        ensures
            res@ == self@,
    {
        let mut payload: Vec<u8> = Vec::new();
        let mut i: usize = 0;
        proof {
            assert(payload@ =~= self.payload@.take(0));
        }
        while i < self.payload.len()
            invariant
                i <= self.payload@.len(),
                payload@ == self.payload@.take(i as int),
            decreases self.payload@.len() - i,
        {
            payload.push(self.payload[i]);
            proof {
                assert(payload@ =~= self.payload@.take(i as int + 1));
            }
            i = i + 1;
        }
        proof {
            assert(self.payload@.take(self.payload@.len() as int) =~= self.payload@);
        }
        let res = TcpPacket {
            ip_v4_header: self.ip_v4_header,
            tcp_header: self.tcp_header.clone(),
            payload,
        };
        proof {
            assert(res@ =~= self@);
        }
        res
    }
}

} // verus!
