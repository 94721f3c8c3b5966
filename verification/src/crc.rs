//! The Mode S 24-bit parity check.
//!
//! Every Mode S frame ends in 24 bits that fold the frame's cyclic
//! redundancy check with either the interrogator identifier or the
//! aircraft address.  `modes_checksum` recomputes the CRC over the body
//! and XORs the trailing 24 bits in, so it returns 0 exactly when the
//! parity field matches (DF 17/18), and the embedded aircraft address
//! for the reply formats that overlay it.

use vstd::prelude::*;
use crate::DecodeError;

verus! {

/// One shift-and-reduce step with the Mode S generator polynomial
/// `0x1FFF409`, keeping 24 bits.
pub open spec fn spec_poly_step(x: u32) -> u32 {
    if x & 0x80_0000 != 0 {
        ((x << 1) ^ 0x1FF_F409) & 0xFF_FFFF
    } else {
        (x << 1) & 0xFF_FFFF
    }
}

/// `n` reduction steps applied to `x`.
pub open spec fn spec_poly_steps(x: u32, n: nat) -> u32
    decreases n,
{
    if n == 0 {
        x
    } else {
        spec_poly_step(spec_poly_steps(x, (n - 1) as nat))
    }
}

/// The table entry for byte `b`: `b << 16` reduced by the polynomial
/// over GF(2), masked to 24 bits.
pub open spec fn spec_crc_table(b: u8) -> u32 {
    spec_poly_steps((b as u32) << 16, 8)
}

/// One byte folded into the running 24-bit remainder.
pub open spec fn spec_crc_step(rem: u32, b: u8) -> u32 {
    ((rem << 8) ^ spec_crc_table(b ^ ((rem >> 16) as u8))) & 0xFF_FFFF
}

/// The remainder after folding in the first `k` bytes of `s`.
pub open spec fn spec_crc_rem(s: Seq<u8>, k: int) -> u32
    decreases k,
{
    if k <= 0 {
        0
    } else {
        spec_crc_step(spec_crc_rem(s, k - 1), s[k - 1])
    }
}

/// The checksum of an `n`-byte frame: the CRC of the first `n - 3`
/// bytes XORed with the trailing 24-bit parity field.
pub open spec fn spec_checksum(s: Seq<u8>, n: int) -> u32 {
    spec_crc_rem(s, n - 3) ^ (((s[n - 3] as u32) << 16) ^ ((s[n - 2] as u32) << 8) ^ (s[n
        - 1] as u32))
}

/// The reduced image of `b << 16`, computed step by step.
fn crc_table_entry(b: u8) -> (r: u32)
    ensures
        r == spec_crc_table(b),
{
    let mut x: u32 = (b as u32) << 16;
    let mut i: usize = 0;
    while i < 8
        invariant
            i <= 8,
            x == spec_poly_steps((b as u32) << 16, i as nat),
        decreases 8 - i,
    {
        if x & 0x80_0000 != 0 {
            x = ((x << 1) ^ 0x1FF_F409) & 0xFF_FFFF;
        } else {
            x = (x << 1) & 0xFF_FFFF;
        }
        i = i + 1;
    }
    x
}

/// The Mode S checksum of the first `bits / 8` bytes of `message`.
///
/// Returns 0 exactly when the frame's parity is consistent; for the
/// reply formats whose parity field is overlaid with the aircraft
/// address, the returned syndrome is the 24-bit address candidate.
/// Fails with `ShortFrame` when fewer than 24 bits are announced or the
/// slice is shorter than announced.
pub fn modes_checksum(message: &[u8], bits: usize) -> (r: Result<u32, DecodeError>)
    ensures
        r is Err <==> (bits / 8 < 3 || message@.len() < bits / 8),
        r is Err ==> r == Err::<u32, DecodeError>(DecodeError::ShortFrame),
        r is Ok ==> r->Ok_0 == spec_checksum(message@, (bits / 8) as int) && r->Ok_0
            < 0x100_0000,
{
    let n: usize = bits / 8;
    if n < 3 || message.len() < n {
        return Err(DecodeError::ShortFrame);
    }

    let mut rem: u32 = 0;
    let mut i: usize = 0;
    while i < n - 3
        invariant
            i <= n - 3,
            3 <= n <= message@.len(),
            rem == spec_crc_rem(message@, i as int),
            rem < 0x100_0000,
        decreases n - 3 - i,
    {
        let top: u8 = (rem >> 16) as u8;
        let e: u32 = crc_table_entry(message[i] ^ top);
        let rem2: u32 = ((rem << 8) ^ e) & 0xFF_FFFF;
        proof {
            assert(rem2 == spec_crc_step(rem, message@[i as int]));
            assert(((rem << 8) ^ e) & 0xFF_FFFF < 0x100_0000) by (bit_vector);
        }
        rem = rem2;
        i = i + 1;
    }

    let msg_1: u32 = (message[n - 3] as u32) << 16;
    let msg_2: u32 = (message[n - 2] as u32) << 8;
    let msg_3: u32 = message[n - 1] as u32;
    let xor_term: u32 = msg_1 ^ msg_2 ^ msg_3;
    let out: u32 = rem ^ xor_term;
    proof {
        let b1 = message@[n - 3];
        let b2 = message@[n - 2];
        let b3 = message@[n - 1];
        let r0 = rem;
        assert(r0 < 0x100_0000 ==> (r0 ^ (((b1 as u32) << 16) ^ ((b2 as u32) << 8) ^ (
        b3 as u32))) < 0x100_0000) by (bit_vector);
    }
    Ok(out)
}

} // verus!
