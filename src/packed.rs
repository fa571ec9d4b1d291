//! Fixed-width bit fields packed into 64-bit words.
//!
//! Bit `k` of the stream is bit `k % 64` of word `k / 64`; a field of `width`
//! bits starting at bit `start` holds its least significant bit first and may
//! run on from one word into the next.

use vstd::arithmetic::power2::{lemma2_to64, lemma_pow2_strictly_increases, lemma_pow2_unfold, pow2};
use vstd::prelude::*;

verus! {

/// Bit `k` of the stream held by `words`.
pub open spec fn bit_at(words: Seq<u64>, k: int) -> nat {
    if (words[k / 64] >> ((k % 64) as u64)) & 1u64 == 1u64 {
        1
    } else {
        0
    }
}

/// The unsigned value of the `width` bits from bit `start` on, least significant first.
pub open spec fn field(words: Seq<u64>, start: int, width: nat) -> nat
    decreases width,
{
    if width == 0 {
        0
    } else {
        bit_at(words, start) + 2 * field(words, start + 1, (width - 1) as nat)
    }
}

/// A field of `width` bits is below `2^width`.
pub proof fn lemma_field_bound(words: Seq<u64>, start: int, width: nat)
    ensures
        field(words, start, width) < pow2(width),
    decreases width,
{
    if width == 0 {
        lemma2_to64();
    } else {
        lemma_field_bound(words, start + 1, (width - 1) as nat);
        lemma_pow2_unfold(width);
    }
}

/// A field of at most 16 bits fits in a `u16`.
pub proof fn lemma_field_fits_u16(words: Seq<u64>, start: int, width: nat)
    requires
        width <= 16,
    ensures
        field(words, start, width) <= 0xffff,
{
    lemma_field_bound(words, start, width);
    lemma2_to64();
    if width < 16 {
        lemma_pow2_strictly_increases(width, 16);
    }
}

/// Reads the field of `width` bits that starts at bit `start`.
pub fn read_field(words: &[u64], start: usize, width: usize) -> (r: u16)
    requires
        width <= 16,
        start + width <= words@.len() * 64,
        start + width <= usize::MAX,
    ensures
        r as nat == field(words@, start as int, width as nat),
{
    let mut acc: u32 = 0;
    let mut j: usize = width;
    while j > 0
        invariant
            j <= width <= 16,
            start + width <= words@.len() * 64,
            start + width <= usize::MAX,
            acc <= 0xffff,
            acc as nat == field(words@, start + j, (width - j) as nat),
        decreases j,
    {
        let k: usize = start + j - 1;
        let word: u64 = words[k / 64];
        let bit: u64 = (word >> ((k % 64) as u64)) & 1u64;
        assert(bit == 0 || bit == 1) by (bit_vector)
            requires
                bit == (word >> ((k % 64) as u64)) & 1u64,
        ;
        assert(bit as nat == bit_at(words@, k as int));
        acc = acc * 2 + bit as u32;
        j = j - 1;
        assert(acc as nat == field(words@, start + j, (width - j) as nat));
        proof {
            lemma_field_fits_u16(words@, start + j, (width - j) as nat);
        }
    }
    acc as u16
}

} // verus!
