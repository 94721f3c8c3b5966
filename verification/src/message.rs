//! The Mode S frame parser: downlink-format dispatch, field extraction
//! and the typed message value.
//!
//! A frame is 7 bytes (short formats, DF below 16) or 14 bytes (long
//! formats).  The top 5 bits select the downlink format; the last 24
//! bits fold the CRC with the interrogator or aircraft address, so the
//! recomputed checksum of a reply frame is the 24-bit address candidate.

use vstd::prelude::*;
use vstd::arithmetic::power2::lemma2_to64;
use crate::DecodeError;
use crate::bits::{spec_bits, spec_bit, bits32, bit_at, lemma_spec_bits_bound};
use crate::crc::{spec_checksum, modes_checksum};
use crate::fields::{spec_ac12_alt, spec_ac13_alt, spec_id13_squawk, spec_cs_char,
    spec_trim_spaces, ac12_alt, ac13_alt, id13_squawk, cs_char, lemma_trim_suffix};
use crate::bds::{CommB, spec_bds50, spec_bds60, decode_bds50, decode_bds60};
use crate::math::{spec_track_unit, track_unit, isqrt};

verus! {

/// Airborne position (BDS 0,5): altitude and one CPR-encoded point.
/// The latitude and longitude, in millionths of a degree, are filled in
/// by the position reconstructor, never by the parser.
#[derive(Clone, Debug)]
pub struct Bds05 {
    pub tc: u8,
    pub alt: Option<u16>,
    pub odd: bool,
    pub lat_cpr: u32,
    pub lon_cpr: u32,
    pub latitude: Option<i64>,
    pub longitude: Option<i64>,
}

/// Surface position (BDS 0,6): movement, ground track and one
/// CPR-encoded point.  Track in 2048-per-turn units, movement in knots.
#[derive(Clone, Debug)]
pub struct Bds06 {
    pub odd: bool,
    pub lat_cpr: u32,
    pub lon_cpr: u32,
    pub track: Option<u16>,
    pub groundspeed: Option<u32>,
    pub latitude: Option<i64>,
    pub longitude: Option<i64>,
}

/// Identification (BDS 0,8): the callsign, trailing spaces trimmed.
#[derive(Clone, Debug)]
pub struct Bds08 {
    pub tc: u8,
    pub ca: u8,
    pub callsign: String,
}

/// Airborne velocity (BDS 0,9).  Subtypes 1 and 2 carry a ground
/// velocity vector, subtypes 3 and 4 a heading and an airspeed.
/// Track and heading in 2048-per-turn units, speeds in knots, the
/// vertical rate in feet per minute.
#[derive(Clone, Debug)]
pub struct Bds09 {
    pub subtype: u8,
    pub vertical_rate: Option<i16>,
    pub groundspeed: Option<u32>,
    pub track: Option<u16>,
    pub heading: Option<u16>,
    pub ias: Option<u16>,
    pub tas: Option<u16>,
}

/// The 56-bit extended squitter payload, tagged by its 5-bit type code.
#[derive(Clone, Debug)]
pub enum ME {
    BDS05(Bds05),
    BDS06(Bds06),
    BDS08(Bds08),
    BDS09(Bds09),
    Other { tc: u8 },
}

/// A decoded Mode S message, tagged by downlink format.  The `ap`
/// fields hold the checksum syndrome, which for these reply formats is
/// the 24-bit aircraft address candidate.
#[derive(Clone, Debug)]
pub enum Message {
    ShortAirAirSurveillance { vs: u8, altitude: Option<u16>, ap: u32 },
    SurveillanceAltitudeReply { fs: u8, altitude: Option<u16>, ap: u32 },
    SurveillanceIdentityReply { fs: u8, id: u16, ap: u32 },
    AllCallReply { ca: u8, icao: u32 },
    LongAirAirSurveillance { vs: u8, altitude: Option<u16>, ap: u32 },
    ExtendedSquitterADSB { icao24: u32, ca: u8, message: ME },
    ExtendedSquitterTisB { cf: u8, aa: u32, me: ME },
    CommBAltitudeReply { fs: u8, altitude: Option<u16>, bds: CommB, ap: u32 },
    CommBIdentityReply { fs: u8, id: u16, bds: CommB, ap: u32 },
    Unsupported { df: u8 },
}

/// The downlink format of a frame.
pub open spec fn spec_df(s: Seq<u8>) -> nat {
    spec_bits(s, 0, 5)
}

/// The formats this decoder extracts fields from.
pub open spec fn spec_df_supported(df: nat) -> bool {
    df == 0 || df == 4 || df == 5 || df == 11 || df == 16 || df == 17 || df == 18 || df
        == 20 || df == 21
}

/// Assigned long formats that parse to the opaque catch-all variant.
pub open spec fn spec_df_opaque(df: nat) -> bool {
    df == 19 || df == 22 || df == 23 || (24 <= df < 32)
}

/// The airborne position payload of a frame.
pub open spec fn spec_bds05(s: Seq<u8>) -> Bds05 {
    Bds05 {
        tc: spec_bits(s, 32, 5) as u8,
        alt: spec_ac12_alt(spec_bits(s, 40, 12) as u32),
        odd: spec_bit(s, 53) == 1,
        lat_cpr: spec_bits(s, 54, 17) as u32,
        lon_cpr: spec_bits(s, 71, 17) as u32,
        latitude: None,
        longitude: None,
    }
}

/// The surface movement field in eighths of a knot, `None` when the
/// field is absent or reserved.
pub open spec fn spec_movement_eighths(m: nat) -> Option<nat> {
    if m == 0 || m >= 125 {
        None
    } else if m == 1 {
        Some(0)
    } else if m <= 8 {
        Some((m - 1) as nat)
    } else if m <= 12 {
        Some((8 + 2 * (m - 9)) as nat)
    } else if m <= 38 {
        Some((16 + 4 * (m - 13)) as nat)
    } else if m <= 93 {
        Some((120 + 8 * (m - 39)) as nat)
    } else if m <= 108 {
        Some((560 + 16 * (m - 94)) as nat)
    } else if m <= 123 {
        Some((800 + 40 * (m - 109)) as nat)
    } else {
        Some(1400)
    }
}

/// The surface position payload of a frame.
pub open spec fn spec_bds06(s: Seq<u8>) -> Bds06 {
    let mov = spec_movement_eighths(spec_bits(s, 37, 7));
    Bds06 {
        odd: spec_bit(s, 53) == 1,
        lat_cpr: spec_bits(s, 54, 17) as u32,
        lon_cpr: spec_bits(s, 71, 17) as u32,
        track: if spec_bit(s, 44) == 1 {
            Some((spec_bits(s, 45, 7) * 16) as u16)
        } else {
            None
        },
        groundspeed: match mov {
            Some(e) => Some((e / 8) as u32),
            None => None,
        },
        latitude: None,
        longitude: None,
    }
}

/// The eight raw callsign characters of an identification payload.
pub open spec fn spec_cs_seq(s: Seq<u8>) -> Seq<char> {
    seq![
        spec_cs_char(spec_bits(s, 40, 6) as u32),
        spec_cs_char(spec_bits(s, 46, 6) as u32),
        spec_cs_char(spec_bits(s, 52, 6) as u32),
        spec_cs_char(spec_bits(s, 58, 6) as u32),
        spec_cs_char(spec_bits(s, 64, 6) as u32),
        spec_cs_char(spec_bits(s, 70, 6) as u32),
        spec_cs_char(spec_bits(s, 76, 6) as u32),
        spec_cs_char(spec_bits(s, 82, 6) as u32),
    ]
}

/// What a correct airborne velocity decode looks like.  The groundspeed
/// is pinned as the integer square root of the squared vector; the
/// track is the exact rational arc tangent.
pub open spec fn spec_bds09_ok(s: Seq<u8>, b: Bds09) -> bool {
    let st = spec_bits(s, 37, 3);
    let svr = spec_bit(s, 68);
    let vr_raw = spec_bits(s, 69, 9);
    b.subtype == st && b.vertical_rate == (if vr_raw == 0 {
        None
    } else if svr == 1 {
        Some((-1 * ((vr_raw - 1) * 64)) as i16)
    } else {
        Some(((vr_raw - 1) * 64) as i16)
    }) && if st == 1 || st == 2 {
        let mult: int = if st == 2 {
            4
        } else {
            1
        };
        let dew = spec_bit(s, 45);
        let vew = spec_bits(s, 46, 10);
        let dns = spec_bit(s, 56);
        let vns = spec_bits(s, 57, 10);
        let vx: int = if dew == 1 {
            -1 * ((vew - 1) * mult)
        } else {
            (vew - 1) * mult
        };
        let vy: int = if dns == 1 {
            -1 * ((vns - 1) * mult)
        } else {
            (vns - 1) * mult
        };
        b.heading is None && b.ias is None && b.tas is None && if vew == 0 || vns == 0 {
            b.groundspeed is None && b.track is None
        } else {
            (b.groundspeed matches Some(g) && g * g <= vx * vx + vy * vy && vx * vx + vy
                * vy < (g + 1) * (g + 1)) && b.track == Some(
                spec_track_unit(vx as i32, vy as i32) as u16,
            )
        }
    } else if st == 3 || st == 4 {
        let mult: int = if st == 4 {
            4
        } else {
            1
        };
        let hdg_st = spec_bit(s, 45);
        let hdg = spec_bits(s, 46, 10);
        let as_type = spec_bit(s, 56);
        let as_raw = spec_bits(s, 57, 10);
        b.groundspeed is None && b.track is None && b.heading == (if hdg_st == 1 {
            Some((hdg * 2) as u16)
        } else {
            None
        }) && if as_raw == 0 {
            b.ias is None && b.tas is None
        } else if as_type != 1 {
            b.ias == Some(((as_raw - 1) * mult) as u16) && b.tas is None
        } else {
            b.tas == Some(((as_raw - 1) * mult) as u16) && b.ias is None
        }
    } else {
        b.groundspeed is None && b.track is None && b.heading is None && b.ias is None
            && b.tas is None
    }
}

/// What a correct payload decode looks like, by type code.
pub open spec fn spec_me_ok(s: Seq<u8>, me: ME) -> bool {
    let tc = spec_bits(s, 32, 5);
    if 1 <= tc <= 4 {
        me matches ME::BDS08(b) && b.tc == tc && b.ca == spec_bits(s, 37, 3)
            && b.callsign@ == spec_trim_spaces(spec_cs_seq(s))
    } else if 5 <= tc <= 8 {
        me == ME::BDS06(spec_bds06(s))
    } else if (9 <= tc <= 18) || (20 <= tc <= 22) {
        me == ME::BDS05(spec_bds05(s))
    } else if tc == 19 {
        me matches ME::BDS09(b) && spec_bds09_ok(s, b)
    } else {
        me == (ME::Other { tc: tc as u8 })
    }
}

/// Which error, if any, `parse` returns on `s`.
pub open spec fn spec_parse_err(s: Seq<u8>, strict: bool) -> Option<DecodeError> {
    let df = spec_df(s);
    if s.len() != 7 && s.len() != 14 {
        Some(DecodeError::ShortFrame)
    } else if df < 16 && s.len() != 7 {
        Some(DecodeError::WrongLength)
    } else if df >= 16 && s.len() != 14 {
        Some(DecodeError::WrongLength)
    } else if strict && (df == 17 || df == 18) && spec_checksum(s, 14) != 0 {
        Some(DecodeError::CrcMismatch)
    } else if !spec_df_supported(df) && !spec_df_opaque(df) {
        Some(DecodeError::UnsupportedDF(df as u8))
    } else {
        None
    }
}

/// What a correct parse of frame `s` looks like, variant by variant.
pub open spec fn spec_msg_ok(s: Seq<u8>, m: Message) -> bool {
    let df = spec_df(s);
    match m {
        Message::ShortAirAirSurveillance { vs, altitude, ap } => df == 0 && vs
            == spec_bits(s, 5, 1) && altitude == spec_ac13_alt(spec_bits(s, 19, 13) as u32)
            && ap == spec_checksum(s, 7),
        Message::SurveillanceAltitudeReply { fs, altitude, ap } => df == 4 && fs
            == spec_bits(s, 5, 3) && altitude == spec_ac13_alt(
            spec_bits(s, 19, 13) as u32,
        ) && ap == spec_checksum(s, 7),
        Message::SurveillanceIdentityReply { fs, id, ap } => df == 5 && fs == spec_bits(
            s,
            5,
            3,
        ) && id == spec_id13_squawk(spec_bits(s, 19, 13) as u32) && ap == spec_checksum(
            s,
            7,
        ),
        Message::AllCallReply { ca, icao } => df == 11 && ca == spec_bits(s, 5, 3) && icao
            == spec_bits(s, 8, 24),
        Message::LongAirAirSurveillance { vs, altitude, ap } => df == 16 && vs
            == spec_bits(s, 5, 1) && altitude == spec_ac13_alt(spec_bits(s, 19, 13) as u32)
            && ap == spec_checksum(s, 14),
        Message::ExtendedSquitterADSB { icao24, ca, message } => df == 17 && ca
            == spec_bits(s, 5, 3) && icao24 == spec_bits(s, 8, 24) && spec_me_ok(
            s,
            message,
        ),
        Message::ExtendedSquitterTisB { cf, aa, me } => df == 18 && cf == spec_bits(
            s,
            5,
            3,
        ) && aa == spec_bits(s, 8, 24) && spec_me_ok(s, me),
        Message::CommBAltitudeReply { fs, altitude, bds, ap } => df == 20 && fs
            == spec_bits(s, 5, 3) && altitude == spec_ac13_alt(spec_bits(s, 19, 13) as u32)
            && bds.bds50 == spec_bds50(s) && bds.bds60 == spec_bds60(s) && ap
            == spec_checksum(s, 14),
        Message::CommBIdentityReply { fs, id, bds, ap } => df == 21 && fs == spec_bits(
            s,
            5,
            3,
        ) && id == spec_id13_squawk(spec_bits(s, 19, 13) as u32) && bds.bds50
            == spec_bds50(s) && bds.bds60 == spec_bds60(s) && ap == spec_checksum(s, 14),
        Message::Unsupported { df: d } => d == df && spec_df_opaque(df),
    }
}

/// The 24-bit address a message is keyed by: in the clear for the
/// extended squitters and the all-call reply, the checksum syndrome for
/// the reply formats, absent for the opaque formats.
pub open spec fn spec_icao24(m: Message) -> Option<u32> {
    match m {
        Message::ShortAirAirSurveillance { ap, .. } => Some(ap),
        Message::SurveillanceAltitudeReply { ap, .. } => Some(ap),
        Message::SurveillanceIdentityReply { ap, .. } => Some(ap),
        Message::AllCallReply { icao, .. } => Some(icao),
        Message::LongAirAirSurveillance { ap, .. } => Some(ap),
        Message::ExtendedSquitterADSB { icao24, .. } => Some(icao24),
        Message::ExtendedSquitterTisB { aa, .. } => Some(aa),
        Message::CommBAltitudeReply { ap, .. } => Some(ap),
        Message::CommBIdentityReply { ap, .. } => Some(ap),
        Message::Unsupported { .. } => None,
    }
}

/// The address of a decoded message, if it carries one.
pub fn icao24(msg: &Message) -> (r: Option<u32>)
    ensures
        r == spec_icao24(*msg),
{
    match msg {
        Message::ShortAirAirSurveillance { ap, .. } => Some(*ap),
        Message::SurveillanceAltitudeReply { ap, .. } => Some(*ap),
        Message::SurveillanceIdentityReply { ap, .. } => Some(*ap),
        Message::AllCallReply { icao, .. } => Some(*icao),
        Message::LongAirAirSurveillance { ap, .. } => Some(*ap),
        Message::ExtendedSquitterADSB { icao24, .. } => Some(*icao24),
        Message::ExtendedSquitterTisB { aa, .. } => Some(*aa),
        Message::CommBAltitudeReply { ap, .. } => Some(*ap),
        Message::CommBIdentityReply { ap, .. } => Some(*ap),
        Message::Unsupported { .. } => None,
    }
}

fn checksum_of(buf: &[u8], n: usize) -> (r: u32)
    requires
        3 <= n <= 14,
        buf@.len() >= n,
    ensures
        r == spec_checksum(buf@, n as int),
{
    match modes_checksum(buf, n * 8) {
        Ok(v) => v,
        Err(_) => vstd::pervasive::unreached(),
    }
}

/// Decodes the callsign of an identification payload, trimming the
/// trailing spaces.
fn decode_callsign(buf: &[u8]) -> (r: String)
    requires
        buf@.len() == 14,
    ensures
        r@ == spec_trim_spaces(spec_cs_seq(buf@)),
{
    let mut cs: Vec<char> = Vec::new();
    let mut k: usize = 0;
    while k < 8
        invariant
            k <= 8,
            buf@.len() == 14,
            cs@.len() == k,
            forall|j: int| 0 <= j < k ==> cs@[j] == spec_cs_seq(buf@)[j],
        decreases 8 - k,
    {
        proof {
            lemma2_to64();
            lemma_spec_bits_bound(buf@, 40 + 6 * (k as int), 6);
        }
        let v: u32 = bits32(buf, 40 + 6 * k, 6);
        cs.push(cs_char(v));
        k = k + 1;
    }
    let mut count: usize = 8;
    while count > 0 && cs[count - 1] == ' '
        invariant
            count <= 8,
            cs@.len() == 8,
            buf@.len() == 14,
            forall|j: int| 0 <= j < 8 ==> cs@[j] == spec_cs_seq(buf@)[j],
            forall|i: int| count <= i < 8 ==> spec_cs_seq(buf@)[i] == ' ',
        decreases count,
    {
        count = count - 1;
    }
    let mut out: String = String::new();
    let mut j: usize = 0;
    while j < count
        invariant
            j <= count <= 8,
            cs@.len() == 8,
            buf@.len() == 14,
            forall|t: int| 0 <= t < 8 ==> cs@[t] == spec_cs_seq(buf@)[t],
            out@ =~= spec_cs_seq(buf@).take(j as int),
        decreases count - j,
    {
        out.push(cs[j]);
        proof {
            assert(out@ =~= spec_cs_seq(buf@).take(j + 1));
        }
        j = j + 1;
    }
    proof {
        let full = spec_cs_seq(buf@);
        lemma_trim_suffix(full, count as int);
        if count > 0 {
            assert(full.take(count as int)[count - 1] != ' ');
        }
        assert(spec_trim_spaces(full.take(count as int)) == full.take(count as int));
    }
    out
}

/// Decodes the velocity payload (type code 19).
fn decode_bds09(buf: &[u8]) -> (b: Bds09)
    requires
        buf@.len() == 14,
    ensures
        spec_bds09_ok(buf@, b),
{
    proof {
        lemma2_to64();
        lemma_spec_bits_bound(buf@, 37, 3);
        lemma_spec_bits_bound(buf@, 69, 9);
        lemma_spec_bits_bound(buf@, 46, 10);
        lemma_spec_bits_bound(buf@, 57, 10);
    }
    let st: u32 = bits32(buf, 37, 3);
    let svr: bool = bit_at(buf, 68);
    let vr_raw: u32 = bits32(buf, 69, 9);
    let vertical_rate: Option<i16> = if vr_raw == 0 {
        None
    } else if svr {
        Some(-(((vr_raw - 1) * 64) as i16))
    } else {
        Some(((vr_raw - 1) * 64) as i16)
    };
    if st == 1 || st == 2 {
        let mult: i32 = if st == 2 {
            4
        } else {
            1
        };
        let dew: bool = bit_at(buf, 45);
        let vew: u32 = bits32(buf, 46, 10);
        let dns: bool = bit_at(buf, 56);
        let vns: u32 = bits32(buf, 57, 10);
        if vew == 0 || vns == 0 {
            Bds09 {
                subtype: st as u8,
                vertical_rate,
                groundspeed: None,
                track: None,
                heading: None,
                ias: None,
                tas: None,
            }
        } else {
            proof {
                assert(0 <= (vew - 1) * (mult as int) <= 4088 && 0 <= (vns - 1) * (
                mult as int) <= 4088) by (nonlinear_arith)
                    requires
                        1 <= vew < 1024,
                        1 <= vns < 1024,
                        1 <= mult <= 4,
                ;
            }
            let mx: i32 = ((vew - 1) as i32) * mult;
            let my: i32 = ((vns - 1) as i32) * mult;
            let vx: i32 = if dew {
                -mx
            } else {
                mx
            };
            let vy: i32 = if dns {
                -my
            } else {
                my
            };
            proof {
                assert(0 <= vx * vx + vy * vy <= 2 * 4088 * 4088 && 0 <= vx * vx && 0
                    <= vy * vy) by (nonlinear_arith)
                    requires
                        -4088 <= vx <= 4088,
                        -4088 <= vy <= 4088,
                ;
            }
            let sq: u64 = ((vx * vx) + (vy * vy)) as u64;
            let g: u64 = isqrt(sq);
            proof {
                assert(g > 0xFFFF ==> g * g > 0xFFFF_FFFF) by (nonlinear_arith);
            }
            let t: u64 = track_unit(vx, vy);
            Bds09 {
                subtype: st as u8,
                vertical_rate,
                groundspeed: Some(g as u32),
                track: Some(t as u16),
                heading: None,
                ias: None,
                tas: None,
            }
        }
    } else if st == 3 || st == 4 {
        let mult: u32 = if st == 4 {
            4
        } else {
            1
        };
        let hdg_st: bool = bit_at(buf, 45);
        let hdg: u32 = bits32(buf, 46, 10);
        let as_type: bool = bit_at(buf, 56);
        let as_raw: u32 = bits32(buf, 57, 10);
        let heading: Option<u16> = if hdg_st {
            Some((hdg * 2) as u16)
        } else {
            None
        };
        let speed: u16 = if as_raw == 0 {
            0
        } else {
            ((as_raw - 1) * mult) as u16
        };
        Bds09 {
            subtype: st as u8,
            vertical_rate,
            groundspeed: None,
            track: None,
            heading,
            ias: if as_raw != 0 && !as_type {
                Some(speed)
            } else {
                None
            },
            tas: if as_raw != 0 && as_type {
                Some(speed)
            } else {
                None
            },
        }
    } else {
        Bds09 {
            subtype: st as u8,
            vertical_rate,
            groundspeed: None,
            track: None,
            heading: None,
            ias: None,
            tas: None,
        }
    }
}

/// Decodes the 56-bit extended squitter payload of a long frame.
pub fn decode_me(buf: &[u8]) -> (me: ME)
    requires
        buf@.len() == 14,
    ensures
        spec_me_ok(buf@, me),
{
    proof {
        lemma2_to64();
        lemma_spec_bits_bound(buf@, 32, 5);
        lemma_spec_bits_bound(buf@, 37, 3);
        lemma_spec_bits_bound(buf@, 37, 7);
        lemma_spec_bits_bound(buf@, 40, 12);
        lemma_spec_bits_bound(buf@, 45, 7);
        lemma_spec_bits_bound(buf@, 54, 17);
        lemma_spec_bits_bound(buf@, 71, 17);
    }
    let tc: u32 = bits32(buf, 32, 5);
    if 1 <= tc && tc <= 4 {
        ME::BDS08(
            Bds08 {
                tc: tc as u8,
                ca: bits32(buf, 37, 3) as u8,
                callsign: decode_callsign(buf),
            },
        )
    } else if 5 <= tc && tc <= 8 {
        let mov: u32 = bits32(buf, 37, 7);
        let gs: Option<u32> = match movement_eighths(mov) {
            Some(e) => Some(e / 8),
            None => None,
        };
        ME::BDS06(
            Bds06 {
                odd: bit_at(buf, 53),
                lat_cpr: bits32(buf, 54, 17),
                lon_cpr: bits32(buf, 71, 17),
                track: if bit_at(buf, 44) {
                    Some((bits32(buf, 45, 7) * 16) as u16)
                } else {
                    None
                },
                groundspeed: gs,
                latitude: None,
                longitude: None,
            },
        )
    } else if (9 <= tc && tc <= 18) || (20 <= tc && tc <= 22) {
        ME::BDS05(
            Bds05 {
                tc: tc as u8,
                alt: ac12_alt(bits32(buf, 40, 12)),
                odd: bit_at(buf, 53),
                lat_cpr: bits32(buf, 54, 17),
                lon_cpr: bits32(buf, 71, 17),
                latitude: None,
                longitude: None,
            },
        )
    } else if tc == 19 {
        ME::BDS09(decode_bds09(buf))
    } else {
        ME::Other { tc: tc as u8 }
    }
}

fn movement_eighths(m: u32) -> (r: Option<u32>)
    requires
        m < 128,
    ensures
        r == match spec_movement_eighths(m as nat) {
            Some(e) => Some(e as u32),
            None => None::<u32>,
        },
{
    if m == 0 || m >= 125 {
        None
    } else if m == 1 {
        Some(0)
    } else if m <= 8 {
        Some(m - 1)
    } else if m <= 12 {
        Some(8 + 2 * (m - 9))
    } else if m <= 38 {
        Some(16 + 4 * (m - 13))
    } else if m <= 93 {
        Some(120 + 8 * (m - 39))
    } else if m <= 108 {
        Some(560 + 16 * (m - 94))
    } else if m <= 123 {
        Some(800 + 40 * (m - 109))
    } else {
        Some(1400)
    }
}

/// Parses a raw frame into a typed message.
///
/// The slice must be 7 or 14 bytes (`ShortFrame` otherwise) and its
/// length must match the downlink format (`WrongLength`).  With
/// `strict` set, an extended squitter whose parity does not check out
/// is `CrcMismatch`.  Unassigned short formats are `UnsupportedDF`;
/// assigned long formats this decoder does not extract (military and
/// Comm-D traffic) parse to the opaque catch-all variant.
pub fn parse(buf: &[u8], strict: bool) -> (r: Result<Message, DecodeError>)
    ensures
        spec_parse_err(buf@, strict) matches Some(e) ==> r == Err::<Message, DecodeError>(
            e,
        ),
        spec_parse_err(buf@, strict) is None ==> r is Ok && spec_msg_ok(buf@, r->Ok_0),
{
    let len: usize = buf.len();
    if len != 7 && len != 14 {
        return Err(DecodeError::ShortFrame);
    }
    proof {
        lemma2_to64();
        lemma_spec_bits_bound(buf@, 0, 5);
        lemma_spec_bits_bound(buf@, 5, 1);
        lemma_spec_bits_bound(buf@, 5, 3);
        lemma_spec_bits_bound(buf@, 8, 24);
        lemma_spec_bits_bound(buf@, 19, 13);
    }
    let df: u32 = bits32(buf, 0, 5);
    if df < 16 && len != 7 {
        return Err(DecodeError::WrongLength);
    }
    if df >= 16 && len != 14 {
        return Err(DecodeError::WrongLength);
    }
    if strict && (df == 17 || df == 18) {
        let cs: u32 = checksum_of(buf, 14);
        if cs != 0 {
            return Err(DecodeError::CrcMismatch);
        }
    }
    if df == 0 {
        Ok(
            Message::ShortAirAirSurveillance {
                vs: bits32(buf, 5, 1) as u8,
                altitude: ac13_alt(bits32(buf, 19, 13)),
                ap: checksum_of(buf, 7),
            },
        )
    } else if df == 4 {
        Ok(
            Message::SurveillanceAltitudeReply {
                fs: bits32(buf, 5, 3) as u8,
                altitude: ac13_alt(bits32(buf, 19, 13)),
                ap: checksum_of(buf, 7),
            },
        )
    } else if df == 5 {
        Ok(
            Message::SurveillanceIdentityReply {
                fs: bits32(buf, 5, 3) as u8,
                id: id13_squawk(bits32(buf, 19, 13)),
                ap: checksum_of(buf, 7),
            },
        )
    } else if df == 11 {
        Ok(Message::AllCallReply { ca: bits32(buf, 5, 3) as u8, icao: bits32(buf, 8, 24) })
    } else if df == 16 {
        Ok(
            Message::LongAirAirSurveillance {
                vs: bits32(buf, 5, 1) as u8,
                altitude: ac13_alt(bits32(buf, 19, 13)),
                ap: checksum_of(buf, 14),
            },
        )
    } else if df == 17 {
        Ok(
            Message::ExtendedSquitterADSB {
                icao24: bits32(buf, 8, 24),
                ca: bits32(buf, 5, 3) as u8,
                message: decode_me(buf),
            },
        )
    } else if df == 18 {
        Ok(
            Message::ExtendedSquitterTisB {
                cf: bits32(buf, 5, 3) as u8,
                aa: bits32(buf, 8, 24),
                me: decode_me(buf),
            },
        )
    } else if df == 20 {
        Ok(
            Message::CommBAltitudeReply {
                fs: bits32(buf, 5, 3) as u8,
                altitude: ac13_alt(bits32(buf, 19, 13)),
                bds: CommB { bds50: decode_bds50(buf), bds60: decode_bds60(buf) },
                ap: checksum_of(buf, 14),
            },
        )
    } else if df == 21 {
        Ok(
            Message::CommBIdentityReply {
                fs: bits32(buf, 5, 3) as u8,
                id: id13_squawk(bits32(buf, 19, 13)),
                bds: CommB { bds50: decode_bds50(buf), bds60: decode_bds60(buf) },
                ap: checksum_of(buf, 14),
            },
        )
    } else if df == 19 || df >= 22 {
        Ok(Message::Unsupported { df: df as u8 })
    } else {
        Err(DecodeError::UnsupportedDF(df as u8))
    }
}

} // verus!
