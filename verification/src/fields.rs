//! Decoders for the fixed Mode S fields: the 13-bit altitude code, the
//! 12-bit ADS-B altitude, the 13-bit identity (squawk) code and the
//! 6-bit callsign characters.
//!
//! A 13-bit field extracted from frame bits 20..33 is handled most
//! significant bit first: bit `i` of the field is bit `12 - i` of the
//! integer.

use vstd::prelude::*;

verus! {

/// Gray code to binary for a value of at most 8 bits.
pub open spec fn spec_gray8(g: u32) -> u32 {
    g ^ (g >> 1) ^ (g >> 2) ^ (g >> 3) ^ (g >> 4) ^ (g >> 5) ^ (g >> 6) ^ (g >> 7)
}

fn gray8(g: u32) -> (r: u32)
    ensures
        r == spec_gray8(g),
{
    g ^ (g >> 1) ^ (g >> 2) ^ (g >> 3) ^ (g >> 4) ^ (g >> 5) ^ (g >> 6) ^ (g >> 7)
}

/// The altitude, in feet, encoded by a 12-bit AC field with the M bit
/// already removed (the ADS-B AC12 layout, Q at bit 7).
///
/// With Q set the field counts 25-foot increments from -1000 ft; with Q
/// clear it is Gillham (Gray) coded in 100-foot increments.  Altitudes
/// below zero and invalid Gillham codes decode to `None`.
pub open spec fn spec_ac12_alt(x: u32) -> Option<u16> {
    if (x >> 4) & 1 == 1 {
        spec_ac12_q(x)
    } else {
        spec_ac12_gillham(x)
    }
}

/// The 25-foot branch: the 11 bits around Q count from -1000 ft.
pub open spec fn spec_ac12_q(x: u32) -> Option<u16> {
    let n = (x >> 5) * 16 + (x & 0xF);
    if n * 25 >= 1000 {
        Some((n * 25 - 1000) as u16)
    } else {
        None
    }
}

/// The Gillham branch: 500-foot Gray code D2 D4 A1 A2 A4 B1 B2 B4 and
/// 100-foot Gray code C1 C2 C4.
pub open spec fn spec_ac12_gillham(x: u32) -> Option<u16> {
    let c1 = (x >> 11) & 1;
    let a1 = (x >> 10) & 1;
    let c2 = (x >> 9) & 1;
    let a2 = (x >> 8) & 1;
    let c4 = (x >> 7) & 1;
    let a4 = (x >> 6) & 1;
    let b1 = (x >> 5) & 1;
    let b2 = (x >> 3) & 1;
    let d2 = (x >> 2) & 1;
    let b4 = (x >> 1) & 1;
    let d4 = x & 1;
    let g500 = (d2 * 128 + d4 * 64 + a1 * 32 + a2 * 16 + a4 * 8 + b1 * 4 + b2 * 2
        + b4) as u32;
    let n500 = spec_gray8(g500);
    let g100 = (c1 * 4 + c2 * 2 + c4) as u32;
    let n100 = spec_gray8(g100);
    if n100 == 0 || n100 == 5 || n100 == 6 {
        None
    } else {
        let n100b = if n100 == 7 {
            5
        } else {
            n100
        };
        let n100c = if n500 % 2 == 1 {
            (6 - n100b) as u32
        } else {
            n100b
        };
        if 1300 <= n500 * 500 + n100c * 100 && n500 * 500 + n100c * 100 - 1300 <= 0xFFFF {
            Some((n500 * 500 + n100c * 100 - 1300) as u16)
        } else {
            None
        }
    }
}

/// The altitude encoded by the 13-bit AC field of DF 4 and DF 20
/// (M at bit 6, Q at bit 8); `None` for metric (M set) coding.
pub open spec fn spec_ac13_alt(x: u32) -> Option<u16> {
    if (x >> 6) & 1 == 1 {
        None
    } else {
        spec_ac12_alt(((x >> 7) << 6 | (x & 0x3F)) as u32)
    }
}

proof fn lemma_gray8_bound(g: u32)
    ensures
        g < 256 ==> spec_gray8(g) < 256,
{
    assert(g < 256 ==> (g ^ (g >> 1) ^ (g >> 2) ^ (g >> 3) ^ (g >> 4) ^ (g >> 5) ^ (g
        >> 6) ^ (g >> 7)) < 256) by (bit_vector);
}

/// Decodes the 12-bit AC field (ADS-B airborne position altitude).
pub fn ac12_alt(x: u32) -> (r: Option<u16>)
    requires
        x < 0x1000,
    ensures
        r == spec_ac12_alt(x),
{
    if (x >> 4) & 1 == 1 {
        proof {
            assert(x < 0x1000 ==> (x >> 5) * 16 + (x & 0xF) < 2048) by (bit_vector);
        }
        let n: u32 = (x >> 5) * 16 + (x & 0xF);
        if n * 25 >= 1000 {
            Some((n * 25 - 1000) as u16)
        } else {
            None
        }
    } else {
        let c1: u32 = (x >> 11) & 1;
        let a1: u32 = (x >> 10) & 1;
        let c2: u32 = (x >> 9) & 1;
        let a2: u32 = (x >> 8) & 1;
        let c4: u32 = (x >> 7) & 1;
        let a4: u32 = (x >> 6) & 1;
        let b1: u32 = (x >> 5) & 1;
        let b2: u32 = (x >> 3) & 1;
        let d2: u32 = (x >> 2) & 1;
        let b4: u32 = (x >> 1) & 1;
        let d4: u32 = x & 1;
        proof {
            assert((x >> 11) & 1 <= 1 && (x >> 10) & 1 <= 1 && (x >> 9) & 1 <= 1 && (x
                >> 8) & 1 <= 1 && (x >> 7) & 1 <= 1 && (x >> 6) & 1 <= 1 && (x >> 5) & 1
                <= 1 && (x >> 3) & 1 <= 1 && (x >> 2) & 1 <= 1 && (x >> 1) & 1 <= 1 && x
                & 1 <= 1) by (bit_vector);
        }
        let g500: u32 = d2 * 128 + d4 * 64 + a1 * 32 + a2 * 16 + a4 * 8 + b1 * 4 + b2 * 2
            + b4;
        let n500: u32 = gray8(g500);
        let g100: u32 = c1 * 4 + c2 * 2 + c4;
        let n100: u32 = gray8(g100);
        proof {
            lemma_gray8_bound(g500);
            lemma_gray8_bound(g100);
        }
        if n100 == 0 || n100 == 5 || n100 == 6 {
            None
        } else {
            let n100b: u32 = if n100 == 7 {
                5
            } else {
                n100
            };
            proof {
                let g = g100;
                assert(g < 8 ==> spec_gray8(g) < 8) by (bit_vector);
            }
            let n100c: u32 = if n500 % 2 == 1 {
                6 - n100b
            } else {
                n100b
            };
            let v: u32 = n500 * 500 + n100c * 100;
            if 1300 <= v && v - 1300 <= 0xFFFF {
                Some((v - 1300) as u16)
            } else {
                None
            }
        }
    }
}

/// Decodes the 13-bit AC field of DF 4 / DF 20.
pub fn ac13_alt(x: u32) -> (r: Option<u16>)
    requires
        x < 0x2000,
    ensures
        r == spec_ac13_alt(x),
{
    if (x >> 6) & 1 == 1 {
        None
    } else {
        let stripped: u32 = (x >> 7) << 6 | (x & 0x3F);
        proof {
            assert(x < 0x2000 ==> ((x >> 7) << 6 | (x & 0x3F)) < 0x1000) by (bit_vector);
        }
        ac12_alt(stripped)
    }
}

/// The four-digit octal squawk encoded by the 13-bit identity field of
/// DF 5 / DF 21, as the decimal number `A*1000 + B*100 + C*10 + D`.
pub open spec fn spec_id13_squawk(x: u32) -> u16 {
    let c1 = (x >> 12) & 1;
    let a1 = (x >> 11) & 1;
    let c2 = (x >> 10) & 1;
    let a2 = (x >> 9) & 1;
    let c4 = (x >> 8) & 1;
    let a4 = (x >> 7) & 1;
    let b1 = (x >> 5) & 1;
    let d1 = (x >> 4) & 1;
    let b2 = (x >> 3) & 1;
    let d2 = (x >> 2) & 1;
    let b4 = (x >> 1) & 1;
    let d4 = x & 1;
    ((a4 * 4 + a2 * 2 + a1) * 1000 + (b4 * 4 + b2 * 2 + b1) * 100 + (c4 * 4 + c2 * 2 + c1)
        * 10 + (d4 * 4 + d2 * 2 + d1)) as u16
}

/// Decodes the 13-bit identity field to a squawk.
pub fn id13_squawk(x: u32) -> (r: u16)
    requires
        x < 0x2000,
    ensures
        r == spec_id13_squawk(x),
{
    proof {
        assert((x >> 12) & 1 <= 1 && (x >> 11) & 1 <= 1 && (x >> 10) & 1 <= 1 && (x >> 9)
            & 1 <= 1 && (x >> 8) & 1 <= 1 && (x >> 7) & 1 <= 1 && (x >> 5) & 1 <= 1 && (x
            >> 4) & 1 <= 1 && (x >> 3) & 1 <= 1 && (x >> 2) & 1 <= 1 && (x >> 1) & 1 <= 1
            && x & 1 <= 1) by (bit_vector);
    }
    let c1: u32 = (x >> 12) & 1;
    let a1: u32 = (x >> 11) & 1;
    let c2: u32 = (x >> 10) & 1;
    let a2: u32 = (x >> 9) & 1;
    let c4: u32 = (x >> 8) & 1;
    let a4: u32 = (x >> 7) & 1;
    let b1: u32 = (x >> 5) & 1;
    let d1: u32 = (x >> 4) & 1;
    let b2: u32 = (x >> 3) & 1;
    let d2: u32 = (x >> 2) & 1;
    let b4: u32 = (x >> 1) & 1;
    let d4: u32 = x & 1;
    let s: u32 = (a4 * 4 + a2 * 2 + a1) * 1000 + (b4 * 4 + b2 * 2 + b1) * 100 + (c4 * 4
        + c2 * 2 + c1) * 10 + (d4 * 4 + d2 * 2 + d1);
    s as u16
}

/// The character for one 6-bit callsign code: 1..26 are `A`..`Z`, 48..57
/// are `0`..`9`, 32 is a space, anything else renders as `#`.
pub open spec fn spec_cs_char(v: u32) -> char {
    if 1 <= v <= 26 {
        ((v + 64) as u8) as char
    } else if 48 <= v <= 57 {
        (v as u8) as char
    } else if v == 32 {
        ' '
    } else {
        '#'
    }
}

/// Decodes one 6-bit callsign character.
pub fn cs_char(v: u32) -> (r: char)
    requires
        v < 64,
    ensures
        r == spec_cs_char(v),
{
    if 1 <= v && v <= 26 {
        ((v + 64) as u8) as char
    } else if 48 <= v && v <= 57 {
        (v as u8) as char
    } else if v == 32 {
        ' '
    } else {
        '#'
    }
}

/// `s` with its trailing spaces removed.
pub open spec fn spec_trim_spaces(s: Seq<char>) -> Seq<char>
    decreases s.len(),
{
    if s.len() > 0 && s[s.len() - 1] == ' ' {
        spec_trim_spaces(s.drop_last())
    } else {
        s
    }
}

/// Dropping an all-space suffix first does not change the trim.
pub proof fn lemma_trim_suffix(s: Seq<char>, k: int)
    requires
        0 <= k <= s.len(),
        forall|i: int| k <= i < s.len() ==> s[i] == ' ',
    ensures
        spec_trim_spaces(s) == spec_trim_spaces(s.take(k)),
    decreases s.len() - k,
{
    if k < s.len() {
        assert(s[s.len() - 1] == ' ');
        assert(s.drop_last() =~= s.take(s.len() - 1));
        lemma_trim_suffix(s.take(s.len() - 1), k);
        assert(s.take(s.len() - 1).take(k) =~= s.take(k));
    } else {
        assert(s.take(k) =~= s);
    }
}

} // verus!
