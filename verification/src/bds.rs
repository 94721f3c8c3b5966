//! Comm-B register classification for DF 20 / DF 21 replies.
//!
//! The 56-bit MB field carries one of many registers with no tag, so the
//! decoder pattern-matches the required static structure of BDS 5,0
//! (track and turn) and BDS 6,0 (heading and speed): every field whose
//! status bit is clear must be all zero, and every decoded value must
//! lie in its documented range.  A frame may match both patterns; the
//! aggregator then trusts neither.
//!
//! The MB field occupies frame bits 32..88.  Angles are in 2048-per-turn
//! units (the exact LSB of these registers), speeds in knots, the Mach
//! number in thousandths, vertical rates in feet per minute.

use vstd::prelude::*;
use vstd::arithmetic::power2::lemma2_to64;
use crate::bits::{spec_bits, bits32, bit_at, spec_bit, lemma_spec_bits_bound};

verus! {

/// Track and turn report: roll and track angle, groundspeed, track
/// rate (in 8/256 degree-per-second steps) and true airspeed.
#[derive(Clone, Copy, PartialEq, Eq, Structural, Debug)]
pub struct Bds50 {
    pub roll: Option<i16>,
    pub track: Option<u16>,
    pub groundspeed: Option<u16>,
    pub track_rate: Option<i16>,
    pub tas: Option<u16>,
}

/// Heading and speed report: magnetic heading, indicated airspeed,
/// Mach number and the two vertical rates.
#[derive(Clone, Copy, PartialEq, Eq, Structural, Debug)]
pub struct Bds60 {
    pub heading: Option<u16>,
    pub ias: Option<u16>,
    pub mach: Option<u16>,
    pub vrate_baro: Option<i16>,
    pub vrate_inertial: Option<i16>,
}

/// The candidate registers a DF 20/21 MB field matched.
#[derive(Clone, Copy, PartialEq, Eq, Structural, Debug)]
pub struct CommB {
    pub bds50: Option<Bds50>,
    pub bds60: Option<Bds60>,
}

/// A 10-bit sign-and-magnitude-free (two's complement) field as an i16.
pub open spec fn spec_signed10(r: nat) -> i16 {
    if r >= 512 {
        (r - 1024) as i16
    } else {
        r as i16
    }
}

/// The BDS 5,0 pattern: a field whose status bit is clear is all zero,
/// the roll is within 50 degrees, the groundspeed within 600 knots,
/// the true airspeed within 500 knots.
pub open spec fn spec_bds50(s: Seq<u8>) -> Option<Bds50> {
    let st_roll = spec_bit(s, 32) == 1;
    let r_roll = spec_bits(s, 33, 10);
    let st_trk = spec_bit(s, 43) == 1;
    let r_trk = spec_bits(s, 44, 11);
    let st_gs = spec_bit(s, 55) == 1;
    let r_gs = spec_bits(s, 56, 10);
    let st_tr = spec_bit(s, 66) == 1;
    let r_tr = spec_bits(s, 67, 10);
    let st_tas = spec_bit(s, 77) == 1;
    let r_tas = spec_bits(s, 78, 10);
    if (!st_roll && r_roll != 0) || (!st_trk && r_trk != 0) || (!st_gs && r_gs != 0) || (
    !st_tr && r_tr != 0) || (!st_tas && r_tas != 0) {
        None
    } else if st_roll && (spec_signed10(r_roll) > 284 || spec_signed10(r_roll) < -284) {
        None
    } else if st_gs && r_gs * 2 > 600 {
        None
    } else if st_tas && r_tas * 2 > 500 {
        None
    } else {
        Some(
            Bds50 {
                roll: if st_roll {
                    Some(spec_signed10(r_roll))
                } else {
                    None
                },
                track: if st_trk {
                    Some(r_trk as u16)
                } else {
                    None
                },
                groundspeed: if st_gs {
                    Some((r_gs * 2) as u16)
                } else {
                    None
                },
                track_rate: if st_tr {
                    Some(spec_signed10(r_tr))
                } else {
                    None
                },
                tas: if st_tas {
                    Some((r_tas * 2) as u16)
                } else {
                    None
                },
            },
        )
    }
}

/// The BDS 6,0 pattern: a field whose status bit is clear is all zero,
/// the indicated airspeed within 500 knots, the Mach number within
/// 1.000, both vertical rates within 6000 feet per minute.
pub open spec fn spec_bds60(s: Seq<u8>) -> Option<Bds60> {
    let st_hdg = spec_bit(s, 32) == 1;
    let r_hdg = spec_bits(s, 33, 11);
    let st_ias = spec_bit(s, 44) == 1;
    let r_ias = spec_bits(s, 45, 10);
    let st_mach = spec_bit(s, 55) == 1;
    let r_mach = spec_bits(s, 56, 10);
    let st_vb = spec_bit(s, 66) == 1;
    let r_vb = spec_bits(s, 67, 10);
    let st_vi = spec_bit(s, 77) == 1;
    let r_vi = spec_bits(s, 78, 10);
    if (!st_hdg && r_hdg != 0) || (!st_ias && r_ias != 0) || (!st_mach && r_mach != 0) || (
    !st_vb && r_vb != 0) || (!st_vi && r_vi != 0) {
        None
    } else if st_ias && r_ias > 500 {
        None
    } else if st_mach && r_mach * 4 > 1000 {
        None
    } else if st_vb && (spec_signed10(r_vb) > 187 || spec_signed10(r_vb) < -187) {
        None
    } else if st_vi && (spec_signed10(r_vi) > 187 || spec_signed10(r_vi) < -187) {
        None
    } else {
        Some(
            Bds60 {
                heading: if st_hdg {
                    Some(r_hdg as u16)
                } else {
                    None
                },
                ias: if st_ias {
                    Some(r_ias as u16)
                } else {
                    None
                },
                mach: if st_mach {
                    Some((r_mach * 4) as u16)
                } else {
                    None
                },
                vrate_baro: if st_vb {
                    Some((spec_signed10(r_vb) * 32) as i16)
                } else {
                    None
                },
                vrate_inertial: if st_vi {
                    Some((spec_signed10(r_vi) * 32) as i16)
                } else {
                    None
                },
            },
        )
    }
}

fn signed10(r: u32) -> (v: i16)
    requires
        r < 1024,
    ensures
        v == spec_signed10(r as nat),
{
    if r >= 512 {
        (r as i32 - 1024) as i16
    } else {
        r as i16
    }
}

/// Decodes the BDS 5,0 candidate of a 14-byte reply frame.
pub fn decode_bds50(buf: &[u8]) -> (r: Option<Bds50>)
    requires
        buf@.len() == 14,
    ensures
        r == spec_bds50(buf@),
{
    proof {
        lemma2_to64();
        lemma_spec_bits_bound(buf@, 33, 10);
        lemma_spec_bits_bound(buf@, 44, 11);
        lemma_spec_bits_bound(buf@, 56, 10);
        lemma_spec_bits_bound(buf@, 67, 10);
        lemma_spec_bits_bound(buf@, 78, 10);
    }
    let st_roll: bool = bit_at(buf, 32);
    let r_roll: u32 = bits32(buf, 33, 10);
    let st_trk: bool = bit_at(buf, 43);
    let r_trk: u32 = bits32(buf, 44, 11);
    let st_gs: bool = bit_at(buf, 55);
    let r_gs: u32 = bits32(buf, 56, 10);
    let st_tr: bool = bit_at(buf, 66);
    let r_tr: u32 = bits32(buf, 67, 10);
    let st_tas: bool = bit_at(buf, 77);
    let r_tas: u32 = bits32(buf, 78, 10);
    if (!st_roll && r_roll != 0) || (!st_trk && r_trk != 0) || (!st_gs && r_gs != 0) || (
    !st_tr && r_tr != 0) || (!st_tas && r_tas != 0) {
        return None;
    }
    let roll_v: i16 = signed10(r_roll);
    if st_roll && (roll_v > 284 || roll_v < -284) {
        return None;
    }
    if st_gs && r_gs * 2 > 600 {
        return None;
    }
    if st_tas && r_tas * 2 > 500 {
        return None;
    }
    Some(
        Bds50 {
            roll: if st_roll {
                Some(roll_v)
            } else {
                None
            },
            track: if st_trk {
                Some(r_trk as u16)
            } else {
                None
            },
            groundspeed: if st_gs {
                Some((r_gs * 2) as u16)
            } else {
                None
            },
            track_rate: if st_tr {
                Some(signed10(r_tr))
            } else {
                None
            },
            tas: if st_tas {
                Some((r_tas * 2) as u16)
            } else {
                None
            },
        },
    )
}

/// Decodes the BDS 6,0 candidate of a 14-byte reply frame.
pub fn decode_bds60(buf: &[u8]) -> (r: Option<Bds60>)
    requires
        buf@.len() == 14,
    ensures
        r == spec_bds60(buf@),
{
    proof {
        lemma2_to64();
        lemma_spec_bits_bound(buf@, 33, 11);
        lemma_spec_bits_bound(buf@, 45, 10);
        lemma_spec_bits_bound(buf@, 56, 10);
        lemma_spec_bits_bound(buf@, 67, 10);
        lemma_spec_bits_bound(buf@, 78, 10);
    }
    let st_hdg: bool = bit_at(buf, 32);
    let r_hdg: u32 = bits32(buf, 33, 11);
    let st_ias: bool = bit_at(buf, 44);
    let r_ias: u32 = bits32(buf, 45, 10);
    let st_mach: bool = bit_at(buf, 55);
    let r_mach: u32 = bits32(buf, 56, 10);
    let st_vb: bool = bit_at(buf, 66);
    let r_vb: u32 = bits32(buf, 67, 10);
    let st_vi: bool = bit_at(buf, 77);
    let r_vi: u32 = bits32(buf, 78, 10);
    if (!st_hdg && r_hdg != 0) || (!st_ias && r_ias != 0) || (!st_mach && r_mach != 0) || (
    !st_vb && r_vb != 0) || (!st_vi && r_vi != 0) {
        return None;
    }
    if st_ias && r_ias > 500 {
        return None;
    }
    if st_mach && r_mach * 4 > 1000 {
        return None;
    }
    let vb: i16 = signed10(r_vb);
    let vi: i16 = signed10(r_vi);
    if st_vb && (vb > 187 || vb < -187) {
        return None;
    }
    if st_vi && (vi > 187 || vi < -187) {
        return None;
    }
    Some(
        Bds60 {
            heading: if st_hdg {
                Some(r_hdg as u16)
            } else {
                None
            },
            ias: if st_ias {
                Some(r_ias as u16)
            } else {
                None
            },
            mach: if st_mach {
                Some((r_mach * 4) as u16)
            } else {
                None
            },
            vrate_baro: if st_vb {
                Some(vb * 32)
            } else {
                None
            },
            vrate_inertial: if st_vi {
                Some(vi * 32)
            } else {
                None
            },
        },
    )
}

} // verus!
