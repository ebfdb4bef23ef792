//! TCP header codec (RFC 9293): a structured header value, its wire layout —
//! the fixed 20 bytes with the packed data-offset/reserved byte and the
//! single control-bits byte — and the opaque, length-delimited options tail.

pub mod tcp_packet;
pub mod tcp_pseudo_header;

use crate::big_endian::{
    be16, be16_hi, be16_lo, be32, be32_b0, be32_b1, be32_b2, be32_b3, lemma_be16_recompose,
    lemma_be32_recompose, read_be_u16, read_be_u32,
};
use vstd::arithmetic::div_mod::lemma_fundamental_div_mod_converse;
use vstd::prelude::*;

verus! {

/// Protocol number assigned to TCP in the IPv4 protocol field.
pub const TCP_PROTOCOL_NUMBER: u8 = 6;

/// Smallest legal value of the data offset field: 5 words of 4 bytes.
pub const DATA_OFFSET_MIN_VALUE: u8 = 5;

/// Length in bytes of the fixed TCP header.
pub const TCP_HEADER_MIN_LEN: usize = 20;

/// Why a buffer failed to decode as a TCP header.
#[derive(Debug)]
pub enum TcpHeaderDecodeError {
    /// The buffer is shorter than the 20-byte fixed header.
    InputTooShort,
    /// A decoded field violates an RFC 9293 constraint.
    InvalidFieldValue(&'static str),
}

impl TcpHeaderDecodeError {
    /// A short description of the error, in place of a `Display` impl.
    pub fn message(&self) -> (r: &'static str)
        ensures
            self is InputTooShort ==> r@ == "Input too short."@,
            self is InvalidFieldValue ==> r@ == "Invalid field value."@,
    {
        match self {
            TcpHeaderDecodeError::InputTooShort => "Input too short.",
            TcpHeaderDecodeError::InvalidFieldValue(_) => "Invalid field value.",
        }
    }
}

/// The eight TCP control flags. They pack into one byte, CWR at the most
/// significant bit and FIN at the least. No combination is rejected here:
/// semantic validity of flag combinations is a transport-layer concern.
#[derive(Debug, PartialEq, Eq, Clone, Copy)]
pub struct ControlBits {
    pub cwr: bool,
    pub ece: bool,
    pub urg: bool,
    pub ack: bool,
    pub psh: bool,
    pub rst: bool,
    pub syn: bool,
    pub fin: bool,
}

/// A TCP header. The data offset and reserved fields share byte 12 of the
/// wire layout; options are an opaque byte blob whose length the data offset
/// implies (`data_offset * 4 - 20`).
#[derive(Debug)]
pub struct TcpHeader {
    pub source_port: u16,
    pub destination_port: u16,
    pub sequence_number: u32,
    pub acknowledgment_number: u32,
    pub data_offset: u8,
    pub reserved: u8,
    pub control_bits: ControlBits,
    pub window: u16,
    pub checksum: u16,
    pub urgent_pointer: u16,
    pub options: Vec<u8>,
}

/// Mathematical view of a `TcpHeader`: the same fields, with the options as
/// a byte sequence.
#[verifier::ext_equal]
pub struct TcpHeaderV {
    pub source_port: u16,
    pub destination_port: u16,
    pub sequence_number: u32,
    pub acknowledgment_number: u32,
    pub data_offset: u8,
    pub reserved: u8,
    pub control_bits: ControlBits,
    pub window: u16,
    pub checksum: u16,
    pub urgent_pointer: u16,
    pub options: Seq<u8>,
}

impl View for TcpHeader {
    type V = TcpHeaderV;

    open spec fn view(&self) -> TcpHeaderV {
        TcpHeaderV {
            source_port: self.source_port,
            destination_port: self.destination_port,
            sequence_number: self.sequence_number,
            acknowledgment_number: self.acknowledgment_number,
            data_offset: self.data_offset,
            reserved: self.reserved,
            control_bits: self.control_bits,
            window: self.window,
            checksum: self.checksum,
            urgent_pointer: self.urgent_pointer,
            options: self.options@,
        }
    }
}

impl TcpHeaderV {
    /// The data offset fits its 4-bit width and is at least 5, the reserved
    /// field is zero, and the options are exactly the tail the data offset
    /// implies: the encoded length `20 + options.len()` equals
    /// `data_offset * 4`.
    pub open spec fn wf(self) -> bool {
        &&& self.data_offset <= 0xF
        &&& self.data_offset >= DATA_OFFSET_MIN_VALUE
        &&& self.reserved == 0
        &&& 20 + self.options.len() == self.data_offset as int * 4
    }

    /// The same header with the checksum field replaced.
    pub open spec fn with_checksum(self, checksum: u16) -> TcpHeaderV {
        TcpHeaderV { checksum, ..self }
    }
}

/// 1 when the flag is set, 0 when it is not.
pub open spec fn control_bit(b: bool) -> int {
    if b {
        1
    } else {
        0
    }
}

/// The control-bits byte: CWR, ECE, URG, ACK, PSH, RST, SYN, FIN packed
/// from the most significant bit down to the least.
pub open spec fn control_bits_byte(cb: ControlBits) -> u8 {
    (control_bit(cb.cwr) * 128 + control_bit(cb.ece) * 64 + control_bit(cb.urg) * 32
        + control_bit(cb.ack) * 16 + control_bit(cb.psh) * 8 + control_bit(cb.rst) * 4
        + control_bit(cb.syn) * 2 + control_bit(cb.fin)) as u8
}

/// The flags read back from a packed byte, bit 7 = CWR down to bit 0 = FIN.
pub open spec fn control_bits_decoded(byte: u8) -> ControlBits {
    ControlBits {
        cwr: byte as int / 128 % 2 == 1,
        ece: byte as int / 64 % 2 == 1,
        urg: byte as int / 32 % 2 == 1,
        ack: byte as int / 16 % 2 == 1,
        psh: byte as int / 8 % 2 == 1,
        rst: byte as int / 4 % 2 == 1,
        syn: byte as int / 2 % 2 == 1,
        fin: byte as int % 2 == 1,
    }
}

/// The 20 fixed bytes of the encoded header, RFC 9293 layout: ports and
/// 32-bit fields big-endian, byte 12 the data offset over a zero low nibble
/// (the reserved field is emitted as zero whatever is stored), byte 13 the
/// packed control bits.
pub open spec fn tcp_fixed_bytes(h: TcpHeaderV) -> Seq<u8> {
    seq![
        be16_hi(h.source_port),
        be16_lo(h.source_port),
        be16_hi(h.destination_port),
        be16_lo(h.destination_port),
        be32_b0(h.sequence_number),
        be32_b1(h.sequence_number),
        be32_b2(h.sequence_number),
        be32_b3(h.sequence_number),
        be32_b0(h.acknowledgment_number),
        be32_b1(h.acknowledgment_number),
        be32_b2(h.acknowledgment_number),
        be32_b3(h.acknowledgment_number),
        ((h.data_offset as int % 16) * 16) as u8,
        control_bits_byte(h.control_bits),
        be16_hi(h.window),
        be16_lo(h.window),
        be16_hi(h.checksum),
        be16_lo(h.checksum),
        be16_hi(h.urgent_pointer),
        be16_lo(h.urgent_pointer),
    ]
}

/// The encoded header: the fixed 20 bytes followed by the options, verbatim.
pub open spec fn tcp_bytes(h: TcpHeaderV) -> Seq<u8> {
    tcp_fixed_bytes(h) + h.options
}

/// The header read back from a buffer, by the same offsets `tcp_bytes`
/// writes; the options are the bytes between the fixed header and the end
/// of the header the data offset implies.
pub open spec fn tcp_decoded(b: Seq<u8>) -> TcpHeaderV
    recommends
        b.len() >= 20,
{
    TcpHeaderV {
        source_port: be16(b[0], b[1]),
        destination_port: be16(b[2], b[3]),
        sequence_number: be32(b[4], b[5], b[6], b[7]),
        acknowledgment_number: be32(b[8], b[9], b[10], b[11]),
        data_offset: (b[12] as int / 16) as u8,
        reserved: (b[12] as int % 16) as u8,
        control_bits: control_bits_decoded(b[13]),
        window: be16(b[14], b[15]),
        checksum: be16(b[16], b[17]),
        urgent_pointer: be16(b[18], b[19]),
        options: b.subrange(20, (b[12] as int / 16) * 4),
    }
}

/// A buffer decodes successfully exactly when it holds the fixed header,
/// its data offset is at least 5 and implies a header that fits in the
/// buffer, and its reserved nibble is zero.
pub open spec fn tcp_decode_ok(b: Seq<u8>) -> bool {
    &&& b.len() >= 20
    &&& b[12] as int / 16 >= DATA_OFFSET_MIN_VALUE
    &&& (b[12] as int / 16) * 4 <= b.len()
    &&& b[12] as int % 16 == 0
}

impl TcpHeader {
    /// The stored fields fit their wire widths and the options match the
    /// data offset.
    pub open spec fn wf(&self) -> bool {
        self@.wf()
    }

    /// Data offset field, masked to its 4-bit wire width.
    fn get_data_offset(&self) -> (r: u8)
        ensures
            r == self@.data_offset % 16,
    {
        self.data_offset % 16
    }

    /// The reserved field as emitted on the wire: always zero, whatever is
    /// stored.
    fn get_reserved(&self) -> (r: u8)
        ensures
            r == 0,
    {
        0
    }

    /// Encode to `20 + options.len()` bytes in the RFC 9293 layout.
    pub fn encode(&self) -> (buffer: Vec<u8>)
        ensures
            buffer@ == tcp_bytes(self@),
            buffer@.len() == 20 + self@.options.len(),
    {
        let mut buffer: Vec<u8> = Vec::new();
        buffer.push((self.source_port / 256) as u8);
        buffer.push((self.source_port % 256) as u8);
        buffer.push((self.destination_port / 256) as u8);
        buffer.push((self.destination_port % 256) as u8);
        buffer.push((self.sequence_number / 0x1000000) as u8);
        buffer.push(((self.sequence_number % 0x1000000) / 0x10000) as u8);
        buffer.push(((self.sequence_number % 0x10000) / 0x100) as u8);
        buffer.push((self.sequence_number % 0x100) as u8);
        buffer.push((self.acknowledgment_number / 0x1000000) as u8);
        buffer.push(((self.acknowledgment_number % 0x1000000) / 0x10000) as u8);
        buffer.push(((self.acknowledgment_number % 0x10000) / 0x100) as u8);
        buffer.push((self.acknowledgment_number % 0x100) as u8);
        buffer.push(self.get_data_offset() * 16 + self.get_reserved());
        buffer.push(self.control_bits.encode());
        buffer.push((self.window / 256) as u8);
        buffer.push((self.window % 256) as u8);
        buffer.push((self.checksum / 256) as u8);
        buffer.push((self.checksum % 256) as u8);
        buffer.push((self.urgent_pointer / 256) as u8);
        buffer.push((self.urgent_pointer % 256) as u8);
        proof {
            assert(buffer@ =~= tcp_fixed_bytes(self@) + self@.options.take(0));
        }
        let mut i: usize = 0;
        while i < self.options.len()
            invariant
                i <= self.options@.len(),
                buffer@ == tcp_fixed_bytes(self@) + self@.options.take(i as int),
            decreases self.options@.len() - i,
        {
            buffer.push(self.options[i]);
            proof {
                assert(buffer@ =~= tcp_fixed_bytes(self@) + self@.options.take(i as int + 1));
            }
            i = i + 1;
        }
        proof {
            assert(self@.options.take(self.options@.len() as int) =~= self@.options);
        }
        buffer
    }

    /// Decode a captured buffer. Fails with `InputTooShort` on fewer than
    /// 20 bytes, and with `InvalidFieldValue` when the data offset is below
    /// 5 or implies a header longer than the buffer, or the reserved nibble
    /// is not zero. The options are taken verbatim from the tail the data
    /// offset delimits; their content is not parsed.
    pub fn decode(buffer: &[u8]) -> (r: Result<Self, TcpHeaderDecodeError>)
        ensures
            r is Ok <==> tcp_decode_ok(buffer@),
            (match r {
                Ok(h) => h@ == tcp_decoded(buffer@) && h@.wf(),
                Err(TcpHeaderDecodeError::InputTooShort) => buffer@.len() < 20,
                Err(TcpHeaderDecodeError::InvalidFieldValue(_)) => buffer@.len() >= 20
                    && !tcp_decode_ok(buffer@),
            }),
            buffer@.len() < 20 ==> (r matches Err(TcpHeaderDecodeError::InputTooShort)),
    {
        match Self::validate_buffer_length(buffer) {
            Err(e) => {
                return Err(e);
            },
            Ok(()) => {},
        }

        let source_port = read_be_u16(buffer, 0);
        let destination_port = read_be_u16(buffer, 2);
        let sequence_number = read_be_u32(buffer, 4);
        let acknowledgment_number = read_be_u32(buffer, 8);

        let data_offset = buffer[12] / 16;
        match Self::validate_data_offset(data_offset, buffer) {
            Err(e) => {
                return Err(e);
            },
            Ok(()) => {},
        }

        let reserved = buffer[12] % 16;
        match Self::validate_reserved(reserved) {
            Err(e) => {
                return Err(e);
            },
            Ok(()) => {},
        }

        let control_bits = ControlBits::decode(buffer[13]).unwrap();

        let window = read_be_u16(buffer, 14);
        let checksum = read_be_u16(buffer, 16);
        let urgent_pointer = read_be_u16(buffer, 18);

        let header_length = data_offset as usize * 4;
        let mut options: Vec<u8> = Vec::new();
        let mut i: usize = TCP_HEADER_MIN_LEN;
        proof {
            assert(options@ =~= buffer@.subrange(20, 20));
        }
        while i < header_length
            invariant
                20 <= i <= header_length,
                header_length == data_offset as int * 4,
                header_length <= buffer@.len(),
                options@ == buffer@.subrange(20, i as int),
            decreases header_length - i,
        {
            options.push(buffer[i]);
            proof {
                assert(buffer@.subrange(20, i as int).push(buffer@[i as int]) =~= buffer@
                    .subrange(20, i as int + 1));
            }
            i = i + 1;
        }

        let header = Self {
            source_port,
            destination_port,
            sequence_number,
            acknowledgment_number,
            data_offset,
            reserved,
            control_bits,
            window,
            checksum,
            urgent_pointer,
            options,
        };
        proof {
            assert(header@ =~= tcp_decoded(buffer@));
        }
        Ok(header)
    }

    /// The buffer must hold at least the 20-byte fixed header.
    fn validate_buffer_length(buffer: &[u8]) -> (r: Result<(), TcpHeaderDecodeError>)
        ensures
            r is Ok <==> buffer@.len() >= 20,
            r is Err ==> (r matches Err(TcpHeaderDecodeError::InputTooShort)),
    {
        if buffer.len() < TCP_HEADER_MIN_LEN {
            Err(TcpHeaderDecodeError::InputTooShort)
        } else {
            Ok(())
        }
    }

    /// The data offset must be at least 5, and the header length it implies
    /// may not exceed the buffer.
    fn validate_data_offset(data_offset: u8, buffer: &[u8]) -> (r: Result<
        (),
        TcpHeaderDecodeError,
    >)
        ensures
            r is Ok <==> (data_offset >= DATA_OFFSET_MIN_VALUE && data_offset as int * 4
                <= buffer@.len()),
            r is Err ==> (r matches Err(TcpHeaderDecodeError::InvalidFieldValue(_))),
    {
        if data_offset < DATA_OFFSET_MIN_VALUE {
            Err(TcpHeaderDecodeError::InvalidFieldValue(
                "Data Offset field must be equal or greater than 5.",
            ))
        } else if buffer.len() < data_offset as usize * 4 {
            Err(TcpHeaderDecodeError::InvalidFieldValue(
                "The buffer is shorter than the header the data offset implies.",
            ))
        } else {
            Ok(())
        }
    }

    /// The reserved nibble must be exactly zero.
    fn validate_reserved(reserved: u8) -> (r: Result<(), TcpHeaderDecodeError>)
        ensures
            r is Ok <==> reserved == 0,
            r is Err ==> (r matches Err(TcpHeaderDecodeError::InvalidFieldValue(_))),
    {
        if reserved != 0 {
            Err(TcpHeaderDecodeError::InvalidFieldValue("Reserved field must be zero."))
        } else {
            Ok(())
        }
    }
}

impl Clone for TcpHeader {
    /// Field-for-field copy; the options are copied byte for byte.
    fn clone(&self) -> (res: Self)
        ensures
            res@ == self@,
    {
        let mut options: Vec<u8> = Vec::new();
        let mut i: usize = 0;
        proof {
            assert(options@ =~= self.options@.take(0));
        }
        while i < self.options.len()
            invariant
                i <= self.options@.len(),
                options@ == self.options@.take(i as int),
            decreases self.options@.len() - i,
        {
            options.push(self.options[i]);
            proof {
                assert(options@ =~= self.options@.take(i as int + 1));
            }
            i = i + 1;
        }
        proof {
            assert(self.options@.take(self.options@.len() as int) =~= self.options@);
        }
        let res = TcpHeader {
            source_port: self.source_port,
            destination_port: self.destination_port,
            sequence_number: self.sequence_number,
            acknowledgment_number: self.acknowledgment_number,
            data_offset: self.data_offset,
            reserved: self.reserved,
            control_bits: self.control_bits,
            window: self.window,
            checksum: self.checksum,
            urgent_pointer: self.urgent_pointer,
            options,
        };
        proof {
            assert(res@ =~= self@);
        }
        res
    }
}

impl ControlBits {
    /// Pack the eight flags into one byte, CWR at the most significant bit
    /// and FIN at the least.
    pub fn encode(&self) -> (r: u8)
        ensures
            r == control_bits_byte(*self),
    {
        let cwr: u8 = if self.cwr {
            128
        } else {
            0
        };
        let ece: u8 = if self.ece {
            64
        } else {
            0
        };
        let urg: u8 = if self.urg {
            32
        } else {
            0
        };
        let ack: u8 = if self.ack {
            16
        } else {
            0
        };
        let psh: u8 = if self.psh {
            8
        } else {
            0
        };
        let rst: u8 = if self.rst {
            4
        } else {
            0
        };
        let syn: u8 = if self.syn {
            2
        } else {
            0
        };
        let fin: u8 = if self.fin {
            1
        } else {
            0
        };
        cwr + ece + urg + ack + psh + rst + syn + fin
    }

    /// Unpack the eight flags from one byte. Every byte value is a valid
    /// combination, so this never fails.
    pub fn decode(byte: u8) -> (r: Result<Self, TcpHeaderDecodeError>)
        ensures
            r == Ok::<ControlBits, TcpHeaderDecodeError>(control_bits_decoded(byte)),
    {
        let cwr = byte / 128 % 2 == 1;
        let ece = byte / 64 % 2 == 1;
        let urg = byte / 32 % 2 == 1;
        let ack = byte / 16 % 2 == 1;
        let psh = byte / 8 % 2 == 1;
        let rst = byte / 4 % 2 == 1;
        let syn = byte / 2 % 2 == 1;
        let fin = byte % 2 == 1;

        Ok(Self { cwr, ece, urg, ack, psh, rst, syn, fin })
    }
}

/// Packing the eight control flags into their byte and unpacking that byte
/// gives the flags back.
pub proof fn lemma_control_bits_round_trip(cb: ControlBits)
    ensures
        control_bits_decoded(control_bits_byte(cb)) == cb,
{
    let c = control_bit(cb.cwr);
    let e = control_bit(cb.ece);
    let u = control_bit(cb.urg);
    let a = control_bit(cb.ack);
    let p = control_bit(cb.psh);
    let r = control_bit(cb.rst);
    let s = control_bit(cb.syn);
    let f = control_bit(cb.fin);
    let byte = control_bits_byte(cb) as int;
    assert(byte == 128 * c + 64 * e + 32 * u + 16 * a + 8 * p + 4 * r + 2 * s + f);
    lemma_fundamental_div_mod_converse(
        byte,
        128,
        c,
        64 * e + 32 * u + 16 * a + 8 * p + 4 * r + 2 * s + f,
    );
    lemma_fundamental_div_mod_converse(c, 2, 0, c);
    lemma_fundamental_div_mod_converse(
        byte,
        64,
        2 * c + e,
        32 * u + 16 * a + 8 * p + 4 * r + 2 * s + f,
    );
    lemma_fundamental_div_mod_converse(2 * c + e, 2, c, e);
    lemma_fundamental_div_mod_converse(
        byte,
        32,
        4 * c + 2 * e + u,
        16 * a + 8 * p + 4 * r + 2 * s + f,
    );
    lemma_fundamental_div_mod_converse(4 * c + 2 * e + u, 2, 2 * c + e, u);
    lemma_fundamental_div_mod_converse(
        byte,
        16,
        8 * c + 4 * e + 2 * u + a,
        8 * p + 4 * r + 2 * s + f,
    );
    lemma_fundamental_div_mod_converse(8 * c + 4 * e + 2 * u + a, 2, 4 * c + 2 * e + u, a);
    lemma_fundamental_div_mod_converse(
        byte,
        8,
        16 * c + 8 * e + 4 * u + 2 * a + p,
        4 * r + 2 * s + f,
    );
    lemma_fundamental_div_mod_converse(
        16 * c + 8 * e + 4 * u + 2 * a + p,
        2,
        8 * c + 4 * e + 2 * u + a,
        p,
    );
    lemma_fundamental_div_mod_converse(
        byte,
        4,
        32 * c + 16 * e + 8 * u + 4 * a + 2 * p + r,
        2 * s + f,
    );
    lemma_fundamental_div_mod_converse(
        32 * c + 16 * e + 8 * u + 4 * a + 2 * p + r,
        2,
        16 * c + 8 * e + 4 * u + 2 * a + p,
        r,
    );
    lemma_fundamental_div_mod_converse(
        byte,
        2,
        64 * c + 32 * e + 16 * u + 8 * a + 4 * p + 2 * r + s,
        f,
    );
    lemma_fundamental_div_mod_converse(
        64 * c + 32 * e + 16 * u + 8 * a + 4 * p + 2 * r + s,
        2,
        32 * c + 16 * e + 8 * u + 4 * a + 2 * p + r,
        s,
    );
}

/// Round trip: a well-formed TCP header decodes from its own encoding back
/// to itself — checksum, control bits and options included.
pub proof fn lemma_tcp_round_trip(h: TcpHeaderV)
    requires
        h.wf(),
    ensures
        tcp_decode_ok(tcp_bytes(h)),
        tcp_decoded(tcp_bytes(h)) == h,
{
    let b = tcp_bytes(h);
    assert(b.len() == 20 + h.options.len());
    lemma_be16_recompose(h.source_port);
    lemma_be16_recompose(h.destination_port);
    lemma_be32_recompose(h.sequence_number);
    lemma_be32_recompose(h.acknowledgment_number);
    lemma_fundamental_div_mod_converse(b[12] as int, 16, h.data_offset as int, 0);
    lemma_control_bits_round_trip(h.control_bits);
    lemma_be16_recompose(h.window);
    lemma_be16_recompose(h.checksum);
    lemma_be16_recompose(h.urgent_pointer);
    assert(b.subrange(20, h.data_offset as int * 4) =~= h.options);
    assert(tcp_decoded(b) =~= h);
}

} // verus!
