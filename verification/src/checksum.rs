//! The Internet checksum (RFC 1071): the ones' complement of the
//! end-around-carry fold of the wrapping 32-bit sum of a buffer's big-endian
//! 16-bit words. The same engine serves the IPv4 header checksum and, through
//! the pseudo-header, the TCP segment checksum.

use crate::big_endian::{be16, read_be_u16};
use vstd::arithmetic::div_mod::{
    lemma_add_mod_noop, lemma_fundamental_div_mod, lemma_mod_multiples_vanish, lemma_small_mod,
};
use vstd::prelude::*;
use vstd::wrapping::u32_specs;

verus! {

/// The buffer whose words are summed: the input itself when its length is
/// even, the input with one zero byte appended when it is odd. The caller's
/// buffer is never changed; the padding exists only in this view.
pub open spec fn padded(bytes: Seq<u8>) -> Seq<u8> {
    if bytes.len() % 2 == 0 {
        bytes
    } else {
        bytes.push(0u8)
    }
}

/// The `i`-th big-endian 16-bit word of the buffer.
pub open spec fn word_at(bytes: Seq<u8>, i: int) -> u16
    recommends
        0 <= i,
        2 * i + 1 < bytes.len(),
{
    be16(bytes[2 * i], bytes[2 * i + 1])
}

/// The wrapping 32-bit sum of the first `n` words of the buffer.
pub open spec fn sum_words(bytes: Seq<u8>, n: int) -> u32
    decreases n,
{
    if n <= 0 {
        0u32
    } else {
        u32_specs::wrapping_add(sum_words(bytes, n - 1), word_at(bytes, n - 1) as u32)
    }
}

/// End-around carry: fold the high 16 bits back into the low 16 bits until
/// the value fits in 16 bits.
pub open spec fn fold_carry(s: int) -> int
    recommends
        s >= 0,
    decreases s,
    via fold_carry_decreases
{
    if s > 0xFFFF {
        fold_carry(s % 0x10000 + s / 0x10000)
    } else {
        s
    }
}

#[via_fn]
proof fn fold_carry_decreases(s: int) {
    if s > 0xFFFF {
        lemma_fundamental_div_mod(s, 0x10000);
    }
}

/// The number of 16-bit words the checksum runs over.
pub open spec fn num_words(bytes: Seq<u8>) -> int {
    padded(bytes).len() as int / 2
}

/// The Internet checksum of the buffer.
pub open spec fn checksum_spec(bytes: Seq<u8>) -> u16 {
    (0xFFFF - fold_carry(sum_words(padded(bytes), num_words(bytes)) as int)) as u16
}

/// Folding keeps the value's residue modulo 0xFFFF, lands within 16 bits,
/// and reaches zero only from zero.
pub proof fn lemma_fold_carry_properties(s: int)
    requires
        s >= 0,
    ensures
        0 <= fold_carry(s) <= 0xFFFF,
        fold_carry(s) % 0xFFFF == s % 0xFFFF,
        fold_carry(s) == 0 ==> s == 0,
    decreases s,
{
    if s > 0xFFFF {
        lemma_fundamental_div_mod(s, 0x10000);
        let q = s / 0x10000;
        let r = s % 0x10000;
        lemma_fold_carry_properties(q + r);
        lemma_mod_multiples_vanish(q, q + r, 0xFFFF);
    }
}

/// Adding `0xFFFF - fold_carry(s)` — the checksum computed from `s` — back
/// into `s` makes the sum fold to exactly 0xFFFF.
pub proof fn lemma_fold_carry_insert(s: int)
    requires
        s >= 0,
    ensures
        fold_carry(s + (0xFFFF - fold_carry(s))) == 0xFFFF,
{
    lemma_fold_carry_properties(s);
    let f = fold_carry(s);
    let t = s + (0xFFFF - f);
    if f == 0xFFFF {
        assert(t == s);
    } else if s == 0 {
        assert(t == 0xFFFF);
    } else {
        // Here 1 <= f <= 0xFFFE, so both f and 0xFFFF - f are reduced mod 0xFFFF.
        lemma_add_mod_noop(s, 0xFFFF - f, 0xFFFF);
        lemma_small_mod((0xFFFF - f) as nat, 0xFFFF as nat);
        lemma_small_mod(f as nat, 0xFFFF as nat);
        lemma_add_mod_noop(f, 0xFFFF - f, 0xFFFF);
        assert(t % 0xFFFF == 0xFFFFint % 0xFFFF);
        lemma_fundamental_div_mod(0xFFFFint, 0xFFFF);
        assert(t % 0xFFFF == 0);
        lemma_fold_carry_properties(t);
        let g = fold_carry(t);
        if g < 0xFFFF {
            lemma_small_mod(g as nat, 0xFFFF as nat);
            // then g == g % 0xFFFF == t % 0xFFFF == 0, so t == 0; but t >= s >= 1
            assert(false);
        }
    }
}

/// The plain integer sum of the first `n` words of the buffer.
pub open spec fn int_sum_words(bytes: Seq<u8>, n: int) -> int
    decreases n,
{
    if n <= 0 {
        0
    } else {
        int_sum_words(bytes, n - 1) + word_at(bytes, n - 1) as int
    }
}

/// While the plain sum stays below 2^32 the wrapping sum agrees with it.
proof fn lemma_sum_words_no_wrap(bytes: Seq<u8>, n: int)
    requires
        0 <= n,
        n * 0xFFFF < 0x1_0000_0000,
    ensures
        sum_words(bytes, n) as int == int_sum_words(bytes, n),
        0 <= int_sum_words(bytes, n) <= n * 0xFFFF,
    decreases n,
{
    if n > 0 {
        lemma_sum_words_no_wrap(bytes, n - 1);
    }
}

/// Changing word `k` alone shifts the plain sum by the difference at `k`.
proof fn lemma_int_sum_words_update(b0: Seq<u8>, b1: Seq<u8>, k: int, n: int)
    requires
        b0.len() == b1.len(),
        0 <= k,
        2 * k + 1 < b0.len(),
        forall|i: int|
            0 <= i && 2 * i + 1 < b0.len() && i != k ==> word_at(b0, i) == word_at(b1, i),
        0 <= n,
        2 * n <= b0.len(),
    ensures
        k < n ==> int_sum_words(b1, n) == int_sum_words(b0, n) - word_at(b0, k) + word_at(b1, k),
        n <= k ==> int_sum_words(b1, n) == int_sum_words(b0, n),
    decreases n,
{
    if n > 0 {
        lemma_int_sum_words_update(b0, b1, k, n - 1);
        if n - 1 != k {
            assert(word_at(b0, n - 1) == word_at(b1, n - 1));
        }
    }
}

/// The Internet checksum is self-verifying: take a buffer whose checksum
/// word is zero, compute its checksum, and write that value into the word;
/// the checksum of the completed buffer is then exactly zero.
pub proof fn lemma_checksum_self_verifying(b0: Seq<u8>, b1: Seq<u8>, k: int)
    requires
        b0.len() == b1.len(),
        b0.len() % 2 == 0,
        b0.len() <= 0xFFFF,
        0 <= k,
        2 * k + 1 < b0.len(),
        word_at(b0, k) == 0,
        word_at(b1, k) == checksum_spec(b0),
        forall|i: int|
            0 <= i && 2 * i + 1 < b0.len() && i != k ==> word_at(b0, i) == word_at(b1, i),
    ensures
        checksum_spec(b1) == 0,
{
    let n = b0.len() as int / 2;
    assert(padded(b0) == b0);
    assert(padded(b1) == b1);
    lemma_fundamental_div_mod(b0.len() as int, 2);
    assert(2 * n == b0.len());
    lemma_sum_words_no_wrap(b0, n);
    lemma_sum_words_no_wrap(b1, n);
    lemma_int_sum_words_update(b0, b1, k, n);
    let s0 = int_sum_words(b0, n);
    lemma_fold_carry_properties(s0);
    let f = fold_carry(s0);
    assert(word_at(b1, k) as int == 0xFFFF - f);
    assert(int_sum_words(b1, n) == s0 + (0xFFFF - f));
    lemma_fold_carry_insert(s0);
    assert(fold_carry(int_sum_words(b1, n)) == 0xFFFF);
}

/// Compute the Internet checksum of a buffer: sum its big-endian 16-bit
/// words into a wrapping 32-bit accumulator (a buffer of odd length is
/// treated as if one zero byte were appended; the buffer itself is not
/// touched), fold the accumulator to 16 bits with end-around carry, and
/// return the ones' complement of the result.
pub fn checksum(bytes: &[u8]) -> (r: u16)
    ensures
        r == checksum_spec(bytes@),
{
    let n = bytes.len();
    let pairs = n / 2;
    proof {
        lemma_fundamental_div_mod(n as int, 2);
    }
    let mut sum: u32 = 0;
    let mut w: usize = 0;
    while w < pairs
        invariant
            w <= pairs,
            pairs == n / 2,
            2 * pairs <= n,
            n == bytes@.len(),
            sum == sum_words(padded(bytes@), w as int),
        decreases pairs - w,
    {
        let word = read_be_u16(bytes, 2 * w);
        proof {
            assert(padded(bytes@)[2 * (w as int)] == bytes@[2 * (w as int)]);
            assert(padded(bytes@)[2 * (w as int) + 1] == bytes@[2 * (w as int) + 1]);
        }
        sum = sum.wrapping_add(word as u32);
        w = w + 1;
    }
    if n % 2 == 1 {
        // The conceptual padding byte is zero, so the last word is the
        // final byte shifted into the high half.
        let word = (bytes[n - 1] as u16) * 256;
        proof {
            assert(2 * (pairs as int) == n - 1);
            assert(padded(bytes@).len() == n + 1);
            assert(word_at(padded(bytes@), pairs as int) == be16(bytes@[n - 1], 0u8));
            assert(num_words(bytes@) == pairs + 1);
        }
        sum = sum.wrapping_add(word as u32);
    }
    assert(sum == sum_words(padded(bytes@), num_words(bytes@)));
    let ghost total = sum;
    while sum > 0xFFFF
        invariant
            fold_carry(sum as int) == fold_carry(total as int),
        decreases sum,
    {
        proof {
            lemma_fundamental_div_mod(sum as int, 0x10000);
        }
        sum = (sum % 0x10000) + (sum / 0x10000);
    }
    proof {
        lemma_fold_carry_properties(total as int);
    }
    0xFFFF - (sum as u16)
}

} // verus!
