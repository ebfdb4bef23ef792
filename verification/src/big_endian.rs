//! Big-endian 16-bit and 32-bit words: how a word is composed from bytes and
//! how it splits back into them, together with the arithmetic lemmas that
//! connect the two directions.

use byteorder::{BigEndian, ByteOrder};
use vstd::arithmetic::div_mod::{
    lemma_fundamental_div_mod, lemma_fundamental_div_mod_converse, lemma_mod_multiples_vanish,
};
use vstd::prelude::*;

verus! {

/// The 16-bit value whose big-endian bytes are `hi`, `lo`.
pub open spec fn be16(hi: u8, lo: u8) -> u16 {
    (hi as int * 256 + lo as int) as u16
}

/// High byte of `x` in big-endian order.
pub open spec fn be16_hi(x: u16) -> u8 {
    (x as int / 256) as u8
}

/// Low byte of `x` in big-endian order.
pub open spec fn be16_lo(x: u16) -> u8 {
    (x as int % 256) as u8
}

/// The 32-bit value whose big-endian bytes are `b0`, `b1`, `b2`, `b3`.
pub open spec fn be32(b0: u8, b1: u8, b2: u8, b3: u8) -> u32 {
    (b0 as int * 0x1000000 + b1 as int * 0x10000 + b2 as int * 0x100 + b3 as int) as u32
}

/// Most significant big-endian byte of `x`.
pub open spec fn be32_b0(x: u32) -> u8 {
    (x as int / 0x1000000) as u8
}

/// Second big-endian byte of `x`.
pub open spec fn be32_b1(x: u32) -> u8 {
    ((x as int % 0x1000000) / 0x10000) as u8
}

/// Third big-endian byte of `x`.
pub open spec fn be32_b2(x: u32) -> u8 {
    ((x as int % 0x10000) / 0x100) as u8
}

/// Least significant big-endian byte of `x`.
pub open spec fn be32_b3(x: u32) -> u8 {
    (x as int % 0x100) as u8
}

/// Splitting a 16-bit word into bytes and recomposing it gives the word back.
pub proof fn lemma_be16_recompose(x: u16)
    ensures
        be16(be16_hi(x), be16_lo(x)) == x,
{
    lemma_fundamental_div_mod(x as int, 256);
}

/// Composing two bytes into a 16-bit word and splitting it gives the bytes back.
pub proof fn lemma_be16_decompose(hi: u8, lo: u8)
    ensures
        be16_hi(be16(hi, lo)) == hi,
        be16_lo(be16(hi, lo)) == lo,
{
    lemma_fundamental_div_mod_converse(
        hi as int * 256 + lo as int,
        256,
        hi as int,
        lo as int,
    );
}

/// Splitting a 32-bit word into bytes and recomposing it gives the word back.
pub proof fn lemma_be32_recompose(x: u32)
    ensures
        be32(be32_b0(x), be32_b1(x), be32_b2(x), be32_b3(x)) == x,
{
    let xi = x as int;
    lemma_fundamental_div_mod(xi, 0x1000000);
    let r0 = xi % 0x1000000;
    lemma_fundamental_div_mod(r0, 0x10000);
    // x % 0x10000 agrees with (x % 0x1000000) % 0x10000.
    lemma_mod_multiples_vanish((xi / 0x1000000) * 0x100, r0, 0x10000);
    let r1 = xi % 0x10000;
    lemma_fundamental_div_mod(r1, 0x100);
    // x % 0x100 agrees with (x % 0x10000) % 0x100.
    lemma_mod_multiples_vanish((xi / 0x10000) * 0x100, r1, 0x100);
    lemma_fundamental_div_mod(xi, 0x10000);
}

/// Relies on `byteorder::BigEndian::read_u16`: it returns the 16-bit integer
/// held big-endian in the first two bytes of the slice it is given, and the
/// slice passed here has exactly two bytes.
#[verifier::external_body]
pub(crate) fn read_be_u16(buffer: &[u8], start: usize) -> (r: u16)
    requires
        start + 2 <= buffer@.len(),
    ensures
        r == be16(buffer@[start as int], buffer@[start as int + 1]),
{
    BigEndian::read_u16(&buffer[start..start + 2])
}

/// Relies on `byteorder::BigEndian::read_u32`: it returns the 32-bit integer
/// held big-endian in the first four bytes of the slice it is given, and the
/// slice passed here has exactly four bytes.
#[verifier::external_body]
pub(crate) fn read_be_u32(buffer: &[u8], start: usize) -> (r: u32)
    requires
        start + 4 <= buffer@.len(),
    ensures
        r == be32(
            buffer@[start as int],
            buffer@[start as int + 1],
            buffer@[start as int + 2],
            buffer@[start as int + 3],
        ),
{
    BigEndian::read_u32(&buffer[start..start + 4])
}

} // verus!
