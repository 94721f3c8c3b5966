//! Hexadecimal text to bytes, and 24-bit addresses to hexadecimal text.
//!
//! The demodulator feed hands frames over as ASCII hex strings of 14 or
//! 28 digits; the state table is keyed by the 24-bit address and
//! rendered back as 6 lowercase hex characters.

use vstd::prelude::*;
use crate::DecodeError;

verus! {

/// Relies on `String::push` from std: appends the given character to
/// the end of the string.
pub assume_specification[ String::push ](s: &mut String, c: char)
    ensures
        final(s)@ == old(s)@.push(c),
;

/// The value of an ASCII hex digit, or 16 when `b` is no hex digit.
pub open spec fn spec_hex_digit(b: u8) -> u8 {
    if 48 <= b <= 57 {
        (b - 48) as u8
    } else if 97 <= b <= 102 {
        (b - 87) as u8
    } else if 65 <= b <= 70 {
        (b - 55) as u8
    } else {
        16
    }
}

/// The byte encoded by the digit pair at positions `2i`, `2i + 1`.
pub open spec fn spec_hex_pair(s: Seq<u8>, i: int) -> u8 {
    (spec_hex_digit(s[2 * i]) * 16 + spec_hex_digit(s[2 * i + 1])) as u8
}

/// Whether `s` is an even-length run of ASCII hex digits.
pub open spec fn spec_is_hex(s: Seq<u8>) -> bool {
    s.len() % 2 == 0 && forall|i: int| 0 <= i < s.len() ==> spec_hex_digit(s[i]) < 16
}

fn hex_digit(b: u8) -> (r: u8)
    ensures
        r == spec_hex_digit(b),
{
    if 48 <= b && b <= 57 {
        b - 48
    } else if 97 <= b && b <= 102 {
        b - 87
    } else if 65 <= b && b <= 70 {
        b - 55
    } else {
        16
    }
}

/// Decodes ASCII hex text to bytes.
///
/// Succeeds exactly on even-length strings of hex digits; every other
/// input is `InvalidHex`.
pub fn parse_hex(text: &[u8]) -> (r: Result<Vec<u8>, DecodeError>)
    ensures
        r is Ok <==> spec_is_hex(text@),
        r is Err ==> r == Err::<Vec<u8>, DecodeError>(DecodeError::InvalidHex),
        r is Ok ==> r->Ok_0@.len() == text@.len() / 2 && forall|i: int|
            0 <= i < r->Ok_0@.len() ==> r->Ok_0@[i] == spec_hex_pair(text@, i),
{
    if text.len() % 2 != 0 {
        return Err(DecodeError::InvalidHex);
    }
    let n: usize = text.len() / 2;
    let mut out: Vec<u8> = Vec::new();
    let mut i: usize = 0;
    while i < n
        invariant
            i <= n,
            2 * n <= usize::MAX,
            n == text@.len() / 2,
            text@.len() % 2 == 0,
            out@.len() == i,
            forall|j: int| 0 <= j < i ==> #[trigger] spec_hex_digit(text@[2 * j]) < 16,
            forall|j: int| 0 <= j < i ==> #[trigger] spec_hex_digit(text@[2 * j + 1]) < 16,
            forall|j: int| 0 <= j < i ==> out@[j] == #[trigger] spec_hex_pair(text@, j),
        decreases n - i,
    {
        let hi: u8 = hex_digit(text[2 * i]);
        let lo: u8 = hex_digit(text[2 * i + 1]);
        if hi >= 16 || lo >= 16 {
            return Err(DecodeError::InvalidHex);
        }
        out.push(hi * 16 + lo);
        i = i + 1;
    }
    proof {
        assert forall|k: int| 0 <= k < text@.len() implies spec_hex_digit(text@[k]) < 16 by {
            let j = k / 2;
            assert(k == 2 * j || k == 2 * j + 1);
            if k == 2 * j {
                assert(spec_hex_digit(text@[2 * j]) < 16);
            } else {
                assert(spec_hex_digit(text@[2 * j + 1]) < 16);
            }
        }
    }
    Ok(out)
}

/// The lowercase hex digit for a value below 16.
pub open spec fn spec_hex_char(v: u8) -> char {
    if v < 10 {
        ((v + 48) as u8) as char
    } else {
        ((v + 87) as u8) as char
    }
}

/// The 6 lowercase hex characters of a 24-bit address, most significant
/// digit first.
pub open spec fn spec_icao_string(a: u32) -> Seq<char> {
    seq![
        spec_hex_char(((a >> 20) & 0xF) as u8),
        spec_hex_char(((a >> 16) & 0xF) as u8),
        spec_hex_char(((a >> 12) & 0xF) as u8),
        spec_hex_char(((a >> 8) & 0xF) as u8),
        spec_hex_char(((a >> 4) & 0xF) as u8),
        spec_hex_char((a & 0xF) as u8),
    ]
}

fn hex_char(v: u8) -> (r: char)
    requires
        v < 16,
    ensures
        r == spec_hex_char(v),
{
    if v < 10 {
        (v + 48) as char
    } else {
        (v + 87) as char
    }
}

/// Renders a 24-bit address as 6 lowercase hex characters.
pub fn icao_to_hex(a: u32) -> (r: String)
    requires
        a < 0x100_0000,
    ensures
        r@ == spec_icao_string(a),
{
    let mut s: String = String::new();
    proof {
        assert((a >> 20) & 0xF < 16) by (bit_vector);
        assert((a >> 16) & 0xF < 16) by (bit_vector);
        assert((a >> 12) & 0xF < 16) by (bit_vector);
        assert((a >> 8) & 0xF < 16) by (bit_vector);
        assert((a >> 4) & 0xF < 16) by (bit_vector);
        assert(a & 0xF < 16) by (bit_vector);
    }
    let c0: char = hex_char(((a >> 20) & 0xF) as u8);
    let c1: char = hex_char(((a >> 16) & 0xF) as u8);
    let c2: char = hex_char(((a >> 12) & 0xF) as u8);
    let c3: char = hex_char(((a >> 8) & 0xF) as u8);
    let c4: char = hex_char(((a >> 4) & 0xF) as u8);
    let c5: char = hex_char((a & 0xF) as u8);
    s.push(c0);
    s.push(c1);
    s.push(c2);
    s.push(c3);
    s.push(c4);
    s.push(c5);
    proof {
        assert(s@ =~= spec_icao_string(a));
    }
    s
}

} // verus!
