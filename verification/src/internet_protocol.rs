//! IPv4 header codec (RFC 791): a structured header value, its byte-exact
//! 20-byte wire layout, decode-time validation, and the header checksum that
//! every field setter keeps consistent.

use crate::big_endian::{be16, be16_hi, be16_lo};
use crate::checksum::{
    checksum, checksum_spec, lemma_checksum_self_verifying, word_at,
};
use crate::transmission_control_protocol::TCP_PROTOCOL_NUMBER;
use vstd::arithmetic::div_mod::{lemma_fundamental_div_mod, lemma_fundamental_div_mod_converse};
use vstd::prelude::*;

verus! {

/// Why a buffer failed to decode as an IPv4 header.
#[derive(Debug)]
pub enum Ipv4HeaderDecodeError {
    /// The buffer is shorter than the 20-byte fixed header.
    InputTooShort,
    /// A decoded field violates an RFC 791 constraint.
    InvalidFieldValue(&'static str),
}

impl Ipv4HeaderDecodeError {
    /// A short description of the error, in place of a `Display` impl.
    pub fn message(&self) -> (r: &'static str)
        ensures
            self is InputTooShort ==> r@ == "Input too short."@,
            self is InvalidFieldValue ==> r@ == "Invalid field value."@,
    {
        match self {
            Ipv4HeaderDecodeError::InputTooShort => "Input too short.",
            Ipv4HeaderDecodeError::InvalidFieldValue(_) => "Invalid field value.",
        }
    }
}

/// Smallest legal value of the IHL field: 5 words of 4 bytes, 20 bytes.
pub const IHL_MIN_VALUE: u8 = 5;

/// Bytes per IHL unit: the IPv4 header is counted in 32-bit words.
pub const IPV4_HEADER_UNIT_BYTES: usize = 4;

/// Length in bytes of the fixed IPv4 header.
pub const IPV4_HEADER_MIN_LEN: usize = 20;

/// The only version this codec accepts.
pub const IPV4_VERSION: u8 = 4;

/// Protocol number assigned to UDP in the IPv4 protocol field.
pub const UDP_PROTOCOL_NUMBER: u8 = 17;

/// An IPv4 address as it stands in the header: four raw bytes.
pub type Ipv4Address = [u8; 4];

/// An IPv4 header. Sub-byte fields (version, IHL, DSCP, ECN, flags,
/// fragment offset) are stored in the smallest byte-aligned integer that
/// holds them; `wf` says that each stays within its wire width, and the
/// encoder masks them to that width regardless.
#[derive(Debug, Clone, Copy)]
pub struct Ipv4Header {
    pub version: u8,
    pub ihl: u8,
    pub dscp: u8,
    pub ecn: u8,
    pub total_length: u16,
    pub identification: u16,
    pub flags: u8,
    pub fragment_offset: u16,
    pub ttl: u8,
    pub protocol: u8,
    pub header_checksum: u16,
    pub source_address: Ipv4Address,
    pub destination_address: Ipv4Address,
}

/// Mathematical view of an `Ipv4Header`: the same fields, with the two
/// addresses as byte sequences.
#[verifier::ext_equal]
pub struct Ipv4HeaderV {
    pub version: u8,
    pub ihl: u8,
    pub dscp: u8,
    pub ecn: u8,
    pub total_length: u16,
    pub identification: u16,
    pub flags: u8,
    pub fragment_offset: u16,
    pub ttl: u8,
    pub protocol: u8,
    pub header_checksum: u16,
    pub source_address: Seq<u8>,
    pub destination_address: Seq<u8>,
}

impl View for Ipv4Header {
    type V = Ipv4HeaderV;

    open spec fn view(&self) -> Ipv4HeaderV {
        Ipv4HeaderV {
            version: self.version,
            ihl: self.ihl,
            dscp: self.dscp,
            ecn: self.ecn,
            total_length: self.total_length,
            identification: self.identification,
            flags: self.flags,
            fragment_offset: self.fragment_offset,
            ttl: self.ttl,
            protocol: self.protocol,
            header_checksum: self.header_checksum,
            source_address: self.source_address@,
            destination_address: self.destination_address@,
        }
    }
}

impl Ipv4HeaderV {
    /// Every stored field fits its wire width and each address has 4 bytes.
    pub open spec fn wf(self) -> bool {
        &&& self.version <= 0xF
        &&& self.ihl <= 0xF
        &&& self.dscp <= 0x3F
        &&& self.ecn <= 0x3
        &&& self.flags <= 0x7
        &&& self.fragment_offset <= 0x1FFF
        &&& self.source_address.len() == 4
        &&& self.destination_address.len() == 4
    }

    /// The same header with the checksum field replaced.
    pub open spec fn with_checksum(self, header_checksum: u16) -> Ipv4HeaderV {
        Ipv4HeaderV { header_checksum, ..self }
    }

    /// The same header with the version field replaced.
    pub open spec fn with_version(self, version: u8) -> Ipv4HeaderV {
        Ipv4HeaderV { version, ..self }
    }

    /// The same header with the IHL field replaced.
    pub open spec fn with_ihl(self, ihl: u8) -> Ipv4HeaderV {
        Ipv4HeaderV { ihl, ..self }
    }

    /// The same header with the flags field replaced.
    pub open spec fn with_flags(self, flags: u8) -> Ipv4HeaderV {
        Ipv4HeaderV { flags, ..self }
    }

    /// The same header with the TTL field replaced.
    pub open spec fn with_ttl(self, ttl: u8) -> Ipv4HeaderV {
        Ipv4HeaderV { ttl, ..self }
    }

    /// The same header with the protocol field replaced.
    pub open spec fn with_protocol(self, protocol: u8) -> Ipv4HeaderV {
        Ipv4HeaderV { protocol, ..self }
    }
}

/// The 20 bytes of the encoded header, RFC 791 layout: version and IHL share
/// byte 0, DSCP and ECN share byte 1, flags and fragment offset share the
/// big-endian 16-bit field at bytes 6..8, and all multi-byte integers are
/// big-endian. Sub-byte fields are masked to their wire width.
pub open spec fn ipv4_bytes(h: Ipv4HeaderV) -> Seq<u8> {
    seq![
        ((h.version as int % 16) * 16 + h.ihl as int % 16) as u8,
        ((h.dscp as int % 64) * 4 + h.ecn as int % 4) as u8,
        be16_hi(h.total_length),
        be16_lo(h.total_length),
        be16_hi(h.identification),
        be16_lo(h.identification),
        ((h.flags as int % 8) * 32 + (h.fragment_offset as int % 8192) / 256) as u8,
        (h.fragment_offset as int % 8192 % 256) as u8,
        h.ttl,
        h.protocol,
        be16_hi(h.header_checksum),
        be16_lo(h.header_checksum),
    ] + h.source_address + h.destination_address
}

/// The header read back from a buffer of at least 20 bytes, by the same
/// offsets `ipv4_bytes` writes.
pub open spec fn ipv4_decoded(b: Seq<u8>) -> Ipv4HeaderV
    recommends
        b.len() >= 20,
{
    Ipv4HeaderV {
        version: (b[0] as int / 16) as u8,
        ihl: (b[0] as int % 16) as u8,
        dscp: (b[1] as int / 4) as u8,
        ecn: (b[1] as int % 4) as u8,
        total_length: be16(b[2], b[3]),
        identification: be16(b[4], b[5]),
        flags: (b[6] as int / 32) as u8,
        fragment_offset: ((b[6] as int % 32) * 256 + b[7] as int) as u16,
        ttl: b[8],
        protocol: b[9],
        header_checksum: be16(b[10], b[11]),
        source_address: b.subrange(12, 16),
        destination_address: b.subrange(16, 20),
    }
}

/// A buffer decodes successfully exactly when it holds the fixed header,
/// its version nibble is 4, its IHL is at least 5 and implies a header that
/// fits in the buffer, and its protocol is a recognized one.
pub open spec fn ipv4_decode_ok(b: Seq<u8>) -> bool {
    &&& b.len() >= 20
    &&& b[0] as int / 16 == IPV4_VERSION
    &&& b[0] as int % 16 >= IHL_MIN_VALUE
    &&& (b[0] as int % 16) * 4 <= b.len()
    &&& (b[9] == TCP_PROTOCOL_NUMBER || b[9] == UDP_PROTOCOL_NUMBER)
}

/// The checksum RFC 791 prescribes for a header: the Internet checksum of
/// its 20 encoded bytes with the checksum field read as zero.
pub open spec fn ipv4_checksum(h: Ipv4HeaderV) -> u16 {
    checksum_spec(ipv4_bytes(h.with_checksum(0)))
}

impl Ipv4Header {
    /// Every stored field fits its wire width.
    pub open spec fn wf(&self) -> bool {
        self@.wf()
    }

    /// Set the version field (4 bits) and recompute the header checksum.
    pub fn set_version(&mut self, version: u8)
        requires
            version <= 0xF,
        ensures
            final(self)@ == old(self)@.with_version(version).with_checksum(
                ipv4_checksum(old(self)@.with_version(version)),
            ),
    {
        self.version = version;
        self.set_header_checksum();
    }

    /// Version field, masked to its 4-bit wire width.
    pub fn get_version(&self) -> (r: u8)
        ensures
            r == self@.version % 16,
    {
        self.version % 16
    }

    /// Set the IHL field (4 bits) and recompute the header checksum.
    pub fn set_ihl(&mut self, ihl: u8)
        requires
            ihl <= 0xF,
        ensures
            final(self)@ == old(self)@.with_ihl(ihl).with_checksum(
                ipv4_checksum(old(self)@.with_ihl(ihl)),
            ),
    {
        self.ihl = ihl;
        self.set_header_checksum();
    }

    /// IHL field, masked to its 4-bit wire width.
    pub fn get_ihl(&self) -> (r: u8)
        ensures
            r == self@.ihl % 16,
    {
        self.ihl % 16
    }

    /// The Type-of-Service byte: the 6-bit DSCP over the 2-bit ECN.
    pub fn get_dscp_ecn(&self) -> (r: u8)
        ensures
            r == ipv4_bytes(self@)[1],
    {
        let dscp = self.dscp % 64;
        let ecn = self.ecn % 4;
        dscp * 4 + ecn
    }

    /// Total length field.
    pub fn get_total_length(&self) -> (r: u16)
        ensures
            r == self@.total_length,
    {
        self.total_length
    }

    /// Identification field.
    pub fn get_identification(&self) -> (r: u16)
        ensures
            r == self@.identification,
    {
        self.identification
    }

    /// Flags field, masked to its 3-bit wire width.
    pub fn get_flags(&self) -> (r: u8)
        ensures
            r == self@.flags % 8,
    {
        self.flags % 8
    }

    /// Set the flags field (3 bits) and recompute the header checksum.
    pub fn set_flags(&mut self, flags: u8)
        requires
            flags <= 0x7,
        ensures
            final(self)@ == old(self)@.with_flags(flags).with_checksum(
                ipv4_checksum(old(self)@.with_flags(flags)),
            ),
    {
        self.flags = flags;
        self.set_header_checksum();
    }

    /// Fragment offset field, masked to its 13-bit wire width.
    pub fn get_fragment_offset(&self) -> (r: u16)
        ensures
            r == self@.fragment_offset % 8192,
    {
        self.fragment_offset % 8192
    }

    /// Time-to-live field.
    pub fn get_ttl(&self) -> (r: u8)
        ensures
            r == self@.ttl,
    {
        self.ttl
    }

    /// Set the TTL field and recompute the header checksum.
    pub fn set_ttl(&mut self, ttl: u8)
        ensures
            final(self)@ == old(self)@.with_ttl(ttl).with_checksum(
                ipv4_checksum(old(self)@.with_ttl(ttl)),
            ),
    {
        self.ttl = ttl;
        self.set_header_checksum();
    }

    /// Protocol field.
    pub fn get_protocol(&self) -> (r: u8)
        ensures
            r == self@.protocol,
    {
        self.protocol
    }

    /// Set the protocol field and recompute the header checksum.
    pub fn set_protocol(&mut self, protocol: u8)
        ensures
            final(self)@ == old(self)@.with_protocol(protocol).with_checksum(
                ipv4_checksum(old(self)@.with_protocol(protocol)),
            ),
    {
        self.protocol = protocol;
        self.set_header_checksum();
    }

    /// Header checksum field as stored.
    pub fn get_header_checksum(&self) -> (r: u16)
        ensures
            r == self@.header_checksum,
    {
        self.header_checksum
    }

    /// Source address.
    pub fn get_source_address(&self) -> (r: Ipv4Address)
        ensures
            r@ == self@.source_address,
    {
        self.source_address
    }

    /// Destination address.
    pub fn get_destination_address(&self) -> (r: Ipv4Address)
        ensures
            r@ == self@.destination_address,
    {
        self.destination_address
    }

    /// Store the checksum computed over the current field values, so the
    /// header is self-consistent again after a mutation.
    fn set_header_checksum(&mut self)
        ensures
            final(self)@ == old(self)@.with_checksum(ipv4_checksum(old(self)@)),
    {
        let checksum = self.calculate_header_checksum();
        self.header_checksum = checksum;
        proof {
            assert(final(self)@ =~= old(self)@.with_checksum(ipv4_checksum(old(self)@)));
        }
    }

    /// The Internet checksum of the header bytes with the checksum field
    /// read as zero.
    fn calculate_header_checksum(&self) -> (r: u16)
        ensures
            r == ipv4_checksum(self@),
    {
        let zeroed = Ipv4Header { header_checksum: 0, ..*self };
        let bytes = zeroed.encode();
        proof {
            assert(zeroed@ =~= self@.with_checksum(0));
        }
        checksum(bytes.as_slice())
    }

    /// Encode to exactly 20 bytes in the RFC 791 layout.
    pub fn encode(&self) -> (buffer: Vec<u8>)
        ensures
            buffer@ == ipv4_bytes(self@),
            buffer@.len() == 20,
    {
        let mut buffer: Vec<u8> = Vec::new();
        buffer.push(self.get_version() * 16 + self.get_ihl());
        buffer.push(self.get_dscp_ecn());
        buffer.push((self.total_length / 256) as u8);
        buffer.push((self.total_length % 256) as u8);
        buffer.push((self.identification / 256) as u8);
        buffer.push((self.identification % 256) as u8);
        buffer.push(self.get_flags() * 32 + (self.get_fragment_offset() / 256) as u8);
        buffer.push((self.get_fragment_offset() % 256) as u8);
        buffer.push(self.ttl);
        buffer.push(self.protocol);
        buffer.push((self.header_checksum / 256) as u8);
        buffer.push((self.header_checksum % 256) as u8);
        buffer.push(self.source_address[0]);
        buffer.push(self.source_address[1]);
        buffer.push(self.source_address[2]);
        buffer.push(self.source_address[3]);
        buffer.push(self.destination_address[0]);
        buffer.push(self.destination_address[1]);
        buffer.push(self.destination_address[2]);
        buffer.push(self.destination_address[3]);
        proof {
            assert(buffer@ =~= ipv4_bytes(self@));
        }
        buffer
    }

    /// Decode a captured buffer. Fails with `InputTooShort` on fewer than
    /// 20 bytes, and with `InvalidFieldValue` when the version nibble is not
    /// 4, the IHL is below 5 or implies a header longer than the buffer, or
    /// the protocol is not a recognized one. The checksum field is read but
    /// not validated here; `validate_checksum` does that separately.
    pub fn decode(buffer: &[u8]) -> (r: Result<Self, Ipv4HeaderDecodeError>)
        ensures
            r is Ok <==> ipv4_decode_ok(buffer@),
            (match r {
                Ok(h) => h@ == ipv4_decoded(buffer@) && h@.wf(),
                Err(Ipv4HeaderDecodeError::InputTooShort) => buffer@.len() < 20,
                Err(Ipv4HeaderDecodeError::InvalidFieldValue(_)) => buffer@.len() >= 20
                    && !ipv4_decode_ok(buffer@),
            }),
            buffer@.len() < 20 ==> (r matches Err(Ipv4HeaderDecodeError::InputTooShort)),
    {
        match Self::validate_buffer_length(buffer) {
            Err(e) => {
                return Err(e);
            },
            Ok(()) => {},
        }

        let version = buffer[0] / 16;
        let ihl = buffer[0] % 16;
        let dscp = buffer[1] / 4;
        let ecn = buffer[1] % 4;

        let total_length = (buffer[2] as u16) * 256 + buffer[3] as u16;
        let identification = (buffer[4] as u16) * 256 + buffer[5] as u16;

        let flags = buffer[6] / 32;
        let fragment_offset = ((buffer[6] % 32) as u16) * 256 + buffer[7] as u16;

        let ttl = buffer[8];
        let protocol = buffer[9];

        let header_checksum = (buffer[10] as u16) * 256 + buffer[11] as u16;
        let source_address: Ipv4Address = [buffer[12], buffer[13], buffer[14], buffer[15]];
        let destination_address: Ipv4Address = [buffer[16], buffer[17], buffer[18], buffer[19]];

        match Self::validate_version(version) {
            Err(e) => {
                return Err(e);
            },
            Ok(()) => {},
        }
        match Self::validate_header_length(ihl, buffer.len()) {
            Err(e) => {
                return Err(e);
            },
            Ok(()) => {},
        }
        match Self::validate_protocol(protocol) {
            Err(e) => {
                return Err(e);
            },
            Ok(()) => {},
        }

        let header = Self {
            version,
            ihl,
            dscp,
            ecn,
            total_length,
            identification,
            flags,
            fragment_offset,
            ttl,
            protocol,
            header_checksum,
            source_address,
            destination_address,
        };
        proof {
            assert(header@ =~= ipv4_decoded(buffer@));
        }
        Ok(header)
    }

    /// The buffer must hold at least the 20-byte fixed header.
    fn validate_buffer_length(buffer: &[u8]) -> (r: Result<(), Ipv4HeaderDecodeError>)
        ensures
            r is Ok <==> buffer@.len() >= 20,
            r is Err ==> (r matches Err(Ipv4HeaderDecodeError::InputTooShort)),
    {
        if buffer.len() < IPV4_HEADER_MIN_LEN {
            Err(Ipv4HeaderDecodeError::InputTooShort)
        } else {
            Ok(())
        }
    }

    /// The version nibble must be exactly 4.
    fn validate_version(version: u8) -> (r: Result<(), Ipv4HeaderDecodeError>)
        ensures
            r is Ok <==> version == IPV4_VERSION,
            r is Err ==> (r matches Err(Ipv4HeaderDecodeError::InvalidFieldValue(_))),
    {
        if version != IPV4_VERSION {
            Err(Ipv4HeaderDecodeError::InvalidFieldValue("The `version` field should be 4."))
        } else {
            Ok(())
        }
    }

    /// The IHL must be at least 5, and the header length it implies may not
    /// exceed the buffer: a buffer of exactly `ihl * 4` bytes is valid.
    fn validate_header_length(ihl: u8, buffer_length: usize) -> (r: Result<
        (),
        Ipv4HeaderDecodeError,
    >)
        ensures
            r is Ok <==> (ihl >= IHL_MIN_VALUE && ihl as int * 4 <= buffer_length as int),
            r is Err ==> (r matches Err(Ipv4HeaderDecodeError::InvalidFieldValue(_))),
    {
        if ihl < IHL_MIN_VALUE {
            Err(Ipv4HeaderDecodeError::InvalidFieldValue(
                "The `ihl` field should not be less than 5.",
            ))
        } else if ihl as usize * IPV4_HEADER_UNIT_BYTES > buffer_length {
            Err(Ipv4HeaderDecodeError::InvalidFieldValue(
                "The `ihl` field implies a header longer than the buffer.",
            ))
        } else {
            Ok(())
        }
    }

    /// The protocol must be a recognized one: TCP or UDP.
    fn validate_protocol(protocol: u8) -> (r: Result<(), Ipv4HeaderDecodeError>)
        ensures
            r is Ok <==> (protocol == TCP_PROTOCOL_NUMBER || protocol == UDP_PROTOCOL_NUMBER),
            r is Err ==> (r matches Err(Ipv4HeaderDecodeError::InvalidFieldValue(_))),
    {
        if protocol != TCP_PROTOCOL_NUMBER && protocol != UDP_PROTOCOL_NUMBER {
            Err(Ipv4HeaderDecodeError::InvalidFieldValue("Unknown `protocol` field value."))
        } else {
            Ok(())
        }
    }

    /// Recompute the checksum over the header with the checksum field read
    /// as zero and compare it to the stored value.
    pub fn validate_checksum(&self) -> (r: Result<(), Ipv4HeaderDecodeError>)
        ensures
            r is Ok <==> self@.header_checksum == ipv4_checksum(self@),
            r is Err ==> (r matches Err(Ipv4HeaderDecodeError::InvalidFieldValue(_))),
    {
        let stored_checksum = self.header_checksum;
        let checksum = self.calculate_header_checksum();

        if checksum != stored_checksum {
            Err(Ipv4HeaderDecodeError::InvalidFieldValue("The header checksum doesn't match."))
        } else {
            Ok(())
        }
    }
}

/// Round trip: a well-formed header whose version is 4, whose IHL is 5 (the
/// fixed 20-byte header `encode` emits), and whose protocol is recognized
/// decodes from its own encoding back to itself, checksum included.
pub proof fn lemma_ipv4_round_trip(h: Ipv4HeaderV)
    requires
        h.wf(),
        h.version == IPV4_VERSION,
        h.ihl == IHL_MIN_VALUE,
        h.protocol == TCP_PROTOCOL_NUMBER || h.protocol == UDP_PROTOCOL_NUMBER,
    ensures
        ipv4_decode_ok(ipv4_bytes(h)),
        ipv4_decoded(ipv4_bytes(h)) == h,
{
    let b = ipv4_bytes(h);
    assert(b.len() == 20);
    lemma_fundamental_div_mod_converse(b[0] as int, 16, h.version as int, h.ihl as int);
    lemma_fundamental_div_mod_converse(b[1] as int, 4, h.dscp as int, h.ecn as int);
    crate::big_endian::lemma_be16_recompose(h.total_length);
    crate::big_endian::lemma_be16_recompose(h.identification);
    lemma_fundamental_div_mod(h.fragment_offset as int, 256);
    lemma_fundamental_div_mod_converse(
        b[6] as int,
        32,
        h.flags as int,
        h.fragment_offset as int / 256,
    );
    crate::big_endian::lemma_be16_recompose(h.header_checksum);
    assert(b.subrange(12, 16) =~= h.source_address);
    assert(b.subrange(16, 20) =~= h.destination_address);
    assert(ipv4_decoded(b) =~= h);
}

/// Self-verifying checksum: write the checksum computed over a header (with
/// its checksum field read as zero) into that header, and the Internet
/// checksum of the completed encoding is exactly zero.
pub proof fn lemma_ipv4_checksum_self_verifying(h: Ipv4HeaderV)
    requires
        h.wf(),
    ensures
        checksum_spec(ipv4_bytes(h.with_checksum(ipv4_checksum(h)))) == 0,
{
    let c = ipv4_checksum(h);
    let h0 = h.with_checksum(0);
    let h1 = h.with_checksum(c);
    let b0 = ipv4_bytes(h0);
    let b1 = ipv4_bytes(h1);
    assert(h1.with_checksum(0) =~= h0);
    assert(b0.len() == 20);
    assert(b1.len() == 20);
    crate::big_endian::lemma_be16_decompose(0, 0);
    assert(word_at(b0, 5) == be16(be16_hi(0u16), be16_lo(0u16)));
    assert(word_at(b0, 5) == 0);
    crate::big_endian::lemma_be16_recompose(c);
    assert(word_at(b1, 5) == c);
    assert(forall|i: int|
        0 <= i && 2 * i + 1 < b0.len() && i != 5 ==> word_at(b0, i) == word_at(b1, i)) by {
        assert forall|i: int|
            0 <= i && 2 * i + 1 < b0.len() && i != 5 implies word_at(b0, i) == word_at(
            b1,
            i,
        ) by {
            assert(b0[2 * i] == b1[2 * i]);
            assert(b0[2 * i + 1] == b1[2 * i + 1]);
        }
    }
    lemma_checksum_self_verifying(b0, b1, 5);
}

} // verus!
