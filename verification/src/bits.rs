//! Big-endian bit-field extraction over a byte slice.
//!
//! Mode S fields are specified by bit positions counted from the first
//! transmitted bit, most significant bit of each byte first.  All
//! decoders below read their fields through `bits32`.

use vstd::prelude::*;
use vstd::arithmetic::power2::{pow2, lemma_pow2_unfold, lemma_pow2_strictly_increases,
    lemma2_to64};

verus! {

/// Bit `i` of the stream (0 = most significant bit of byte 0).
pub open spec fn spec_bit(s: Seq<u8>, i: int) -> u32 {
    ((s[i / 8] >> ((7 - i % 8) as u32)) & 1) as u32
}

/// The unsigned value of bits `[start, start + len)` read big-endian.
pub open spec fn spec_bits(s: Seq<u8>, start: int, len: int) -> nat
    decreases len,
{
    if len <= 0 {
        0
    } else {
        (spec_bits(s, start, len - 1) * 2 + spec_bit(s, start + len - 1)) as nat
    }
}

/// A `len`-bit field is below `pow2(len)`.
pub proof fn lemma_spec_bits_bound(s: Seq<u8>, start: int, len: int)
    requires
        len >= 0,
    ensures
        spec_bits(s, start, len) < pow2(len as nat),
    decreases len,
{
    if len == 0 {
        lemma2_to64();
    } else {
        lemma_spec_bits_bound(s, start, len - 1);
        lemma_pow2_unfold(len as nat);
        assert(forall|t: Seq<u8>, i: int| spec_bit(t, i) <= 1) by {
            assert forall|t: Seq<u8>, i: int| spec_bit(t, i) <= 1 by {
                let b = t[i / 8];
                let sh = (7 - i % 8) as u32;
                assert(((b >> sh) & 1) <= 1) by (bit_vector);
            }
        }
    }
}

/// Reads bits `[start, start + len)` of `buf`, most significant first.
pub fn bits32(buf: &[u8], start: usize, len: usize) -> (r: u32)
    requires
        len <= 32,
        start + len <= buf@.len() * 8,
        8 * buf@.len() <= usize::MAX,
    ensures
        r == spec_bits(buf@, start as int, len as int),
{
    let mut acc: u64 = 0;
    let mut i: usize = 0;
    proof {
        lemma2_to64();
    }
    while i < len
        invariant
            i <= len <= 32,
            start + len <= buf@.len() * 8,
            8 * buf@.len() <= usize::MAX,
            acc == spec_bits(buf@, start as int, i as int),
            acc < pow2(i as nat),
        decreases len - i,
    {
        let pos: usize = start + i;
        let byte: u8 = buf[pos / 8];
        let sh: u32 = 7 - (pos % 8) as u32;
        let bit: u32 = ((byte >> sh) & 1) as u32;
        proof {
            lemma2_to64();
            assert(bit == spec_bit(buf@, pos as int));
            assert((byte >> sh) & 1 <= 1) by (bit_vector);
            lemma_pow2_strictly_increases(i as nat, 32);
            lemma_pow2_unfold((i + 1) as nat);
        }
        acc = acc * 2 + bit as u64;
        i = i + 1;
    }
    proof {
        if (i as nat) < 32 {
            lemma_pow2_strictly_increases(i as nat, 32);
        }
        lemma2_to64();
    }
    acc as u32
}

/// The single bit at `pos`, as a boolean.
pub fn bit_at(buf: &[u8], pos: usize) -> (r: bool)
    requires
        pos < buf@.len() * 8,
        8 * buf@.len() <= usize::MAX,
    ensures
        r == (spec_bit(buf@, pos as int) == 1),
{
    let v: u32 = bits32(buf, pos, 1);
    proof {
        let s = buf@;
        assert(spec_bits(s, pos as int, 0) == 0);
        assert(spec_bits(s, pos as int, 1) == spec_bit(s, pos as int));
        let b = s[pos as int / 8];
        let sh = (7 - pos as int % 8) as u32;
        assert(((b >> sh) & 1) <= 1) by (bit_vector);
    }
    v == 1
}

} // verus!
