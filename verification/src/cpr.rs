//! Compact position reporting: the reconstruction of latitude and
//! longitude from the two interleaved 17-bit encodings.
//!
//! All angles are integers in millionths of a degree, so every step of
//! the reconstruction is exact integer arithmetic; the only rounding is
//! the final floor to a millionth of a degree (about a tenth of a
//! metre).  A global decode needs an even and an odd frame within 10
//! seconds; a local decode needs a reference position, and is gated to
//! 180 nautical miles of it when airborne and 45 when on the surface.
//! A surface decode, global or local, also needs the reference: the
//! 90-degree ambiguity of the halved zones cannot be settled without it.
//! The range gate measures with a rational cosine, exact to a fraction
//! of a percent.

use vstd::prelude::*;
use vstd::pervasive::VecAdditionalExecFns;
use crate::math::{spec_cos_milli, cos_milli};
use crate::message::{ME, Bds05, Bds06};

verus! {

/// A decoded point, in millionths of a degree.
#[derive(Clone, Copy, PartialEq, Eq, Structural, Debug)]
pub struct Position {
    pub lat_udeg: i64,
    pub lon_udeg: i64,
}

/// One received CPR encoding and its timestamp, in seconds.
#[derive(Clone, Copy, PartialEq, Eq, Structural, Debug)]
pub struct CprFrame {
    pub lat_cpr: u32,
    pub lon_cpr: u32,
    pub ts: u64,
}

/// The per-aircraft scratch: the latest even and odd encodings and the
/// last reconstructed position.
#[derive(Clone, Copy, PartialEq, Eq, Structural, Debug)]
pub struct AircraftState {
    pub even_frame: Option<CprFrame>,
    pub odd_frame: Option<CprFrame>,
    pub last_position: Option<Position>,
}

/// A position with both coordinates on the globe.
pub open spec fn spec_pos_in_range(p: Position) -> bool {
    -90_000_000 <= p.lat_udeg <= 90_000_000 && -180_000_000 <= p.lon_udeg <= 180_000_000
}

/// The number of longitude zones at a latitude, from the transition
/// table of the compact position reporting specification; the argument
/// is the absolute latitude in hundredths of a millionth of a degree.
pub open spec fn spec_nl100(a: u64) -> u64 {
    if a < 1047047130 {
        59
    } else if a < 1482817437 {
        58
    } else if a < 1818626357 {
        57
    } else if a < 2102939493 {
        56
    } else if a < 2354504487 {
        55
    } else if a < 2582924707 {
        54
    } else if a < 2793898710 {
        53
    } else if a < 2991135686 {
        52
    } else if a < 3177209708 {
        51
    } else if a < 3353993436 {
        50
    } else if a < 3522899598 {
        49
    } else if a < 3685025108 {
        48
    } else if a < 3841241892 {
        47
    } else if a < 3992256684 {
        46
    } else if a < 4138651832 {
        45
    } else if a < 4280914012 {
        44
    } else if a < 4419454951 {
        43
    } else if a < 4554626723 {
        42
    } else if a < 4686733252 {
        41
    } else if a < 4816039128 {
        40
    } else if a < 4942776439 {
        39
    } else if a < 5067150166 {
        38
    } else if a < 5189342469 {
        37
    } else if a < 5309516153 {
        36
    } else if a < 5427817472 {
        35
    } else if a < 5544378444 {
        34
    } else if a < 5659318756 {
        33
    } else if a < 5772747354 {
        32
    } else if a < 5884763776 {
        31
    } else if a < 5995459277 {
        30
    } else if a < 6104917774 {
        29
    } else if a < 6213216659 {
        28
    } else if a < 6320427479 {
        27
    } else if a < 6426616523 {
        26
    } else if a < 6531845310 {
        25
    } else if a < 6636171008 {
        24
    } else if a < 6739646774 {
        23
    } else if a < 6842322022 {
        22
    } else if a < 6944242631 {
        21
    } else if a < 7045451075 {
        20
    } else if a < 7145986473 {
        19
    } else if a < 7245884545 {
        18
    } else if a < 7345177442 {
        17
    } else if a < 7443893416 {
        16
    } else if a < 7542056257 {
        15
    } else if a < 7639684391 {
        14
    } else if a < 7736789461 {
        13
    } else if a < 7833374083 {
        12
    } else if a < 7929428225 {
        11
    } else if a < 8024923213 {
        10
    } else if a < 8119801349 {
        9
    } else if a < 8213956981 {
        8
    } else if a < 8307199445 {
        7
    } else if a < 8399173563 {
        6
    } else if a < 8489166191 {
        5
    } else if a < 8575541621 {
        4
    } else if a < 8653536998 {
        3
    } else if a <= 8700000000 {
        2
    } else {
        1
    }
}

/// Longitude zone count for a latitude in millionths of a degree.
pub open spec fn spec_nl(lat_udeg: i64) -> u64 {
    if lat_udeg >= 0 {
        spec_nl100((lat_udeg * 100) as u64)
    } else {
        spec_nl100((-1 * lat_udeg * 100) as u64)
    }
}

fn nl100(a: u64) -> (r: u64)
    ensures
        r == spec_nl100(a),
        1 <= r <= 59,
{
    if a < 1047047130 {
        59
    } else if a < 1482817437 {
        58
    } else if a < 1818626357 {
        57
    } else if a < 2102939493 {
        56
    } else if a < 2354504487 {
        55
    } else if a < 2582924707 {
        54
    } else if a < 2793898710 {
        53
    } else if a < 2991135686 {
        52
    } else if a < 3177209708 {
        51
    } else if a < 3353993436 {
        50
    } else if a < 3522899598 {
        49
    } else if a < 3685025108 {
        48
    } else if a < 3841241892 {
        47
    } else if a < 3992256684 {
        46
    } else if a < 4138651832 {
        45
    } else if a < 4280914012 {
        44
    } else if a < 4419454951 {
        43
    } else if a < 4554626723 {
        42
    } else if a < 4686733252 {
        41
    } else if a < 4816039128 {
        40
    } else if a < 4942776439 {
        39
    } else if a < 5067150166 {
        38
    } else if a < 5189342469 {
        37
    } else if a < 5309516153 {
        36
    } else if a < 5427817472 {
        35
    } else if a < 5544378444 {
        34
    } else if a < 5659318756 {
        33
    } else if a < 5772747354 {
        32
    } else if a < 5884763776 {
        31
    } else if a < 5995459277 {
        30
    } else if a < 6104917774 {
        29
    } else if a < 6213216659 {
        28
    } else if a < 6320427479 {
        27
    } else if a < 6426616523 {
        26
    } else if a < 6531845310 {
        25
    } else if a < 6636171008 {
        24
    } else if a < 6739646774 {
        23
    } else if a < 6842322022 {
        22
    } else if a < 6944242631 {
        21
    } else if a < 7045451075 {
        20
    } else if a < 7145986473 {
        19
    } else if a < 7245884545 {
        18
    } else if a < 7345177442 {
        17
    } else if a < 7443893416 {
        16
    } else if a < 7542056257 {
        15
    } else if a < 7639684391 {
        14
    } else if a < 7736789461 {
        13
    } else if a < 7833374083 {
        12
    } else if a < 7929428225 {
        11
    } else if a < 8024923213 {
        10
    } else if a < 8119801349 {
        9
    } else if a < 8213956981 {
        8
    } else if a < 8307199445 {
        7
    } else if a < 8399173563 {
        6
    } else if a < 8489166191 {
        5
    } else if a < 8575541621 {
        4
    } else if a < 8653536998 {
        3
    } else if a <= 8700000000 {
        2
    } else {
        1
    }
}

/// The longitude zone count of a latitude in millionths of a degree.
pub fn nl(lat_udeg: i64) -> (r: u64)
    requires
        -90_000_000 <= lat_udeg <= 90_000_000,
    ensures
        r == spec_nl(lat_udeg),
        1 <= r <= 59,
{
    if lat_udeg >= 0 {
        nl100((lat_udeg as u64) * 100)
    } else {
        nl100(((-lat_udeg) as u64) * 100)
    }
}


/// One global latitude candidate, `360 (k + cpr / 2^17) / zones`
/// degrees in millionths, rebased southward above 270 degrees.
pub open spec fn spec_cand_lat(k: int, cpr: int, zones: int) -> int {
    let udeg = (360 * (k * 131072 + cpr) * 1000000) / (zones * 131072);
    if udeg >= 270_000_000 {
        udeg - 360_000_000
    } else {
        udeg
    }
}

fn cand_lat(k: u64, cpr: u32, zones: u64) -> (r: i64)
    requires
        k < 60,
        cpr < 131072,
        zones == 59 || zones == 60,
    ensures
        r == spec_cand_lat(k as int, cpr as int, zones as int),
{
    let num: u64 = 360 * (k * 131072 + cpr as u64) * 1000000;
    let udeg: u64 = num / (zones * 131072);
    if udeg >= 270_000_000 {
        (udeg as i64) - 360_000_000
    } else {
        udeg as i64
    }
}

/// A globally unambiguous decode from an even and an odd encoding.
/// `None` when the two candidates straddle a longitude-zone boundary:
/// the caller waits for fresher frames.
pub open spec fn spec_global_air(le: int, lo: int, lce: int, lco: int, odd_fresh: bool) -> Option<
    Position,
> {
    let jp = (59 * le + 7929856 - 60 * lo) / 131072;
    let ke = jp % 60;
    let ko = (jp + 58) % 59;
    let lat_e = spec_cand_lat(ke, le, 60);
    let lat_o = spec_cand_lat(ko, lo, 59);
    if lat_e < -90_000_000 || lat_e > 90_000_000 || lat_o < -90_000_000 || lat_o
        > 90_000_000 {
        None
    } else if spec_nl(lat_e as i64) != spec_nl(lat_o as i64) {
        None
    } else {
        let nlv = spec_nl(lat_e as i64) as int;
        let zones = if odd_fresh {
            if nlv >= 2 {
                nlv - 1
            } else {
                1
            }
        } else {
            nlv
        };
        let lat = if odd_fresh {
            lat_o
        } else {
            lat_e
        };
        let lcpr = if odd_fresh {
            lco
        } else {
            lce
        };
        let mp = (lce * (nlv - 1) + nlv * 131072 + 65536 - lco * nlv) / 131072;
        let klon = (mp + 60 * zones - nlv) % zones;
        let lon0 = (360 * (klon * 131072 + lcpr) * 1000000) / (zones * 131072);
        let lon = if lon0 >= 180_000_000 {
            lon0 - 360_000_000
        } else {
            lon0
        };
        Some(Position { lat_udeg: lat as i64, lon_udeg: lon as i64 })
    }
}

/// Reconstructs a position from an even and an odd airborne encoding,
/// using the longitude of the fresher one.
pub fn global_air(le: u32, lo: u32, lce: u32, lco: u32, odd_fresh: bool) -> (r: Option<
    Position,
>)
    requires
        le < 131072,
        lo < 131072,
        lce < 131072,
        lco < 131072,
    ensures
        r == spec_global_air(le as int, lo as int, lce as int, lco as int, odd_fresh),
{
    let jp: u64 = (59 * (le as u64) + 7929856 - 60 * (lo as u64)) / 131072;
    let ke: u64 = jp % 60;
    let ko: u64 = (jp + 58) % 59;
    let lat_e: i64 = cand_lat(ke, le, 60);
    let lat_o: i64 = cand_lat(ko, lo, 59);
    if lat_e < -90_000_000 || lat_e > 90_000_000 || lat_o < -90_000_000 || lat_o
        > 90_000_000 {
        return None;
    }
    let nle: u64 = nl(lat_e);
    let nlo: u64 = nl(lat_o);
    if nle != nlo {
        return None;
    }
    let zones: u64 = if odd_fresh {
        if nle >= 2 {
            nle - 1
        } else {
            1
        }
    } else {
        nle
    };
    let lat: i64 = if odd_fresh {
        lat_o
    } else {
        lat_e
    };
    let lcpr: u64 = if odd_fresh {
        lco as u64
    } else {
        lce as u64
    };
    proof {
        assert((lce as u64) * (nle - 1) <= 131072 * 59 && (lco as u64) * nle < nle * 131072
            && (lco as u64) * nle <= 131072 * 59) by (nonlinear_arith)
            requires
                lce < 131072,
                lco < 131072,
                1 <= nle <= 59,
        ;
    }
    let mp: u64 = ((lce as u64) * (nle - 1) + nle * 131072 + 65536 - (lco as u64) * nle)
        / 131072;
    let klon: u64 = (mp + 60 * zones - nle) % zones;
    let num: u64 = 360 * (klon * 131072 + lcpr) * 1000000;
    let lon0: u64 = num / (zones * 131072);
    let lon: i64 = if lon0 >= 180_000_000 {
        (lon0 as i64) - 360_000_000
    } else {
        lon0 as i64
    };
    Some(Position { lat_udeg: lat, lon_udeg: lon })
}

/// A locally unambiguous decode against a reference position; the zone
/// index is recovered from the reference, so the result is within half
/// a zone of it.  `surface` halves the zone sizes.
pub open spec fn spec_local(
    rlat: int,
    rlon: int,
    latc: int,
    lonc: int,
    odd: bool,
    surface: bool,
) -> Option<Position> {
    let base = if surface {
        90_000_000
    } else {
        360_000_000
    };
    let zlat: int = if odd {
        59
    } else {
        60
    };
    let roff = rlat + 360_000_000;
    let a = roff * zlat;
    let j1p = a / base;
    let frac = a % base;
    let mp = frac * 262144 + base * 131072 + base * 262144 - latc * base * 2;
    let j2p = mp / (base * 262144);
    let shift = if surface {
        4 * zlat
    } else {
        zlat
    };
    if j1p + j2p + 4 * zlat < shift + 1 {
        None
    } else {
        let jj = j1p + j2p + 4 * zlat - shift - 1;
        if jj > 700 {
            None
        } else {
            let latv = (base * (jj * 131072 + latc)) / (zlat * 131072) - 4 * base;
            if latv < -90_000_000 || latv > 90_000_000 {
                None
            } else {
                let nlv = spec_nl(latv as i64) as int;
                let zlon: int = if odd {
                    if nlv >= 2 {
                        nlv - 1
                    } else {
                        1
                    }
                } else {
                    nlv
                };
                let roff2 = rlon + 360_000_000;
                let a2 = roff2 * zlon;
                let j1p2 = a2 / base;
                let frac2 = a2 % base;
                let mp2 = frac2 * 262144 + base * 131072 + base * 262144 - lonc * base * 2;
                let j2p2 = mp2 / (base * 262144);
                let shift2 = if surface {
                    4 * zlon
                } else {
                    zlon
                };
                if j1p2 + j2p2 + 4 * zlon < shift2 + 1 {
                    None
                } else {
                    let jj2 = j1p2 + j2p2 + 4 * zlon - shift2 - 1;
                    if jj2 > 700 {
                        None
                    } else {
                        let lonv = (base * (jj2 * 131072 + lonc)) / (zlon * 131072) - 4
                            * base;
                        if lonv < -180_000_000 || lonv > 180_000_000 {
                            None
                        } else {
                            Some(
                                Position {
                                    lat_udeg: latv as i64,
                                    lon_udeg: lonv as i64,
                                },
                            )
                        }
                    }
                }
            }
        }
    }
}

/// Reconstructs a position from one encoding and a reference.
#[verifier::rlimit(30)]
pub fn cpr_local(rlat: i64, rlon: i64, latc: u32, lonc: u32, odd: bool, surface: bool) -> (r:
    Option<Position>)
    requires
        -90_000_000 <= rlat <= 90_000_000,
        -180_000_000 <= rlon <= 180_000_000,
        latc < 131072,
        lonc < 131072,
    ensures
        r == spec_local(rlat as int, rlon as int, latc as int, lonc as int, odd, surface),
{
    let base: u64 = if surface {
        90_000_000
    } else {
        360_000_000
    };
    let zlat: u64 = if odd {
        59
    } else {
        60
    };
    let roff: u64 = (rlat + 360_000_000) as u64;
    let a: u64 = if odd {
        roff * 59
    } else {
        roff * 60
    };
    let j1p: u64 = a / base;
    let frac: u64 = a % base;
    proof {
        assert((latc as u64) * base * 2 <= base * 262144 && (latc as u64) * base * 2
            <= 131072 * 360_000_000 * 2) by (nonlinear_arith)
            requires
                latc < 131072,
                0 < base <= 360_000_000,
        ;
    }
    let mp: u64 = frac * 262144 + base * 131072 + base * 262144 - (latc as u64) * base * 2;
    let j2p: u64 = mp / (base * 262144);
    let shift: u64 = if surface {
        4 * zlat
    } else {
        zlat
    };
    if j1p + j2p + 4 * zlat < shift + 1 {
        return None;
    }
    let jj: u64 = j1p + j2p + 4 * zlat - shift - 1;
    if jj > 700 {
        return None;
    }
    proof {
        assert(base * (jj * 131072 + latc) <= 360_000_000 * (700 * 131072 + 131072)) by (
        nonlinear_arith)
            requires
                jj <= 700,
                latc < 131072,
                0 < base <= 360_000_000,
        ;
    }
    let q: u64 = (base * (jj * 131072 + (latc as u64))) / (zlat * 131072);
    let latv: i64 = (q as i64) - 4 * (base as i64);
    if latv < -90_000_000 || latv > 90_000_000 {
        return None;
    }
    let nlv: u64 = nl(latv);
    let zlon: u64 = if odd {
        if nlv >= 2 {
            nlv - 1
        } else {
            1
        }
    } else {
        nlv
    };
    let roff2: u64 = (rlon + 360_000_000) as u64;
    proof {
        assert(roff2 * zlon <= 540_000_000 * 59) by (nonlinear_arith)
            requires
                roff2 <= 540_000_000,
                zlon <= 59,
        ;
        assert((lonc as u64) * base * 2 <= base * 262144 && (lonc as u64) * base * 2
            <= 131072 * 360_000_000 * 2) by (nonlinear_arith)
            requires
                lonc < 131072,
                0 < base <= 360_000_000,
        ;
    }
    let a2: u64 = roff2 * zlon;
    let j1p2: u64 = a2 / base;
    let frac2: u64 = a2 % base;
    let mp2: u64 = frac2 * 262144 + base * 131072 + base * 262144 - (lonc as u64) * base
        * 2;
    let j2p2: u64 = mp2 / (base * 262144);
    let shift2: u64 = if surface {
        4 * zlon
    } else {
        zlon
    };
    if j1p2 + j2p2 + 4 * zlon < shift2 + 1 {
        return None;
    }
    let jj2: u64 = j1p2 + j2p2 + 4 * zlon - shift2 - 1;
    if jj2 > 700 {
        return None;
    }
    proof {
        assert(base * (jj2 * 131072 + lonc) <= 360_000_000 * (700 * 131072 + 131072) && 0
            < zlon * 131072) by (nonlinear_arith)
            requires
                jj2 <= 700,
                lonc < 131072,
                0 < base <= 360_000_000,
                1 <= zlon,
        ;
    }
    let q2: u64 = (base * (jj2 * 131072 + (lonc as u64))) / (zlon * 131072);
    let lonv: i64 = (q2 as i64) - 4 * (base as i64);
    if lonv < -180_000_000 || lonv > 180_000_000 {
        return None;
    }
    Some(Position { lat_udeg: latv, lon_udeg: lonv })
}

/// Whether `p` lies within `limit_nm` nautical miles of `r`, measured
/// on a plane scaled by the rational cosine of the reference latitude.
pub open spec fn spec_range_ok(p: Position, r: Position, limit_nm: int) -> bool {
    let dlat = if p.lat_udeg >= r.lat_udeg {
        p.lat_udeg - r.lat_udeg
    } else {
        r.lat_udeg - p.lat_udeg
    };
    let dlon = if p.lon_udeg >= r.lon_udeg {
        p.lon_udeg - r.lon_udeg
    } else {
        r.lon_udeg - p.lon_udeg
    };
    let x = if r.lat_udeg >= 0 {
        r.lat_udeg as int
    } else {
        -1 * r.lat_udeg
    };
    let cosm = spec_cos_milli(((x + 500000) / 1000000) as u64);
    let a = dlat * 60;
    let b = (dlon * 60 * cosm) / 1000;
    a * a + b * b <= (limit_nm * 1000000) * (limit_nm * 1000000)
}

fn range_ok(p: Position, r: Position, limit_nm: u64) -> (ok: bool)
    requires
        spec_pos_in_range(r),
        -90_000_000 <= p.lat_udeg <= 90_000_000,
        -180_000_000 <= p.lon_udeg <= 180_000_000,
        limit_nm <= 1000,
    ensures
        ok == spec_range_ok(p, r, limit_nm as int),
{
    let dlat: u64 = if p.lat_udeg >= r.lat_udeg {
        (p.lat_udeg - r.lat_udeg) as u64
    } else {
        (r.lat_udeg - p.lat_udeg) as u64
    };
    let dlon: u64 = if p.lon_udeg >= r.lon_udeg {
        (p.lon_udeg - r.lon_udeg) as u64
    } else {
        (r.lon_udeg - p.lon_udeg) as u64
    };
    let x: u64 = if r.lat_udeg >= 0 {
        r.lat_udeg as u64
    } else {
        (-r.lat_udeg) as u64
    };
    let cosm: u64 = cos_milli((x + 500000) / 1000000);
    let a: u64 = dlat * 60;
    proof {
        assert((dlon * 60) * cosm <= 360_000_000 * 60 * 1000) by (nonlinear_arith)
            requires
                dlon <= 360_000_000,
                cosm <= 1000,
        ;
    }
    let b: u64 = (dlon * 60 * cosm) / 1000;
    proof {
        assert((a as u128) * (a as u128) + (b as u128) * (b as u128)
            <= 2u128 * 21_600_000_000 * 21_600_000_000) by (nonlinear_arith)
            requires
                a <= 10_800_000_000u64,
                b <= 21_600_000_000u64,
        ;
        assert((limit_nm as u128 * 1000000) * (limit_nm as u128 * 1000000)
            <= 1_000_000_000u128 * 1_000_000_000u128) by (nonlinear_arith)
            requires
                limit_nm <= 1000,
        ;
    }
    let lhs: u128 = (a as u128) * (a as u128) + (b as u128) * (b as u128);
    let lim: u128 = (limit_nm as u128) * 1000000;
    let rhs: u128 = lim * lim;
    lhs <= rhs
}

/// Where `spec_find` scans a table's entries for the first match.
pub open spec fn spec_find(s: Seq<(u32, AircraftState)>, k: u32) -> Option<AircraftState>
    decreases s.len(),
{
    if s.len() == 0 {
        None
    } else if s[0].0 == k {
        Some(s[0].1)
    } else {
        spec_find(s.drop_first(), k)
    }
}

proof fn lemma_find_at(s: Seq<(u32, AircraftState)>, k: u32, i: int)
    requires
        0 <= i < s.len(),
        s[i].0 == k,
        forall|j: int| 0 <= j < i ==> s[j].0 != k,
    ensures
        spec_find(s, k) == Some(s[i].1),
    decreases i,
{
    if i > 0 {
        lemma_find_at(s.drop_first(), k, i - 1);
    }
}

proof fn lemma_find_none(s: Seq<(u32, AircraftState)>, k: u32)
    requires
        forall|j: int| 0 <= j < s.len() ==> s[j].0 != k,
    ensures
        spec_find(s, k) is None,
    decreases s.len(),
{
    if s.len() > 0 {
        lemma_find_none(s.drop_first(), k);
    }
}

proof fn lemma_find_update(s: Seq<(u32, AircraftState)>, i: int, st: AircraftState, q: u32)
    requires
        0 <= i < s.len(),
        s[i].0 != q,
    ensures
        spec_find(s.update(i, (s[i].0, st)), q) == spec_find(s, q),
    decreases i,
{
    let s2 = s.update(i, (s[i].0, st));
    if i == 0 {
        assert(s2.drop_first() =~= s.drop_first());
    } else {
        assert(s2.drop_first() =~= s.drop_first().update(i - 1, (s[i].0, st)));
        lemma_find_update(s.drop_first(), i - 1, st, q);
    }
}

proof fn lemma_find_push(s: Seq<(u32, AircraftState)>, k: u32, st: AircraftState, q: u32)
    ensures
        spec_find(s.push((k, st)), q) == if spec_find(s, q) is Some {
            spec_find(s, q)
        } else if q == k {
            Some(st)
        } else {
            None::<AircraftState>
        },
    decreases s.len(),
{
    if s.len() == 0 {
        assert(s.push((k, st)).drop_first() =~= Seq::<(u32, AircraftState)>::empty());
    } else {
        assert(s.push((k, st)).drop_first() =~= s.drop_first().push((k, st)));
        lemma_find_push(s.drop_first(), k, st, q);
    }
}

/// The per-aircraft CPR scratch table, keyed by 24-bit address.
pub struct CprTable {
    pub entries: Vec<(u32, AircraftState)>,
}

impl CprTable {
    /// An empty table.
    pub fn new() -> (t: CprTable)
        ensures
            t.entries@.len() == 0,
    {
        CprTable { entries: Vec::new() }
    }

    /// The scratch state of one aircraft, if any.
    pub fn get(&self, k: u32) -> (r: Option<AircraftState>)
        ensures
            r == spec_find(self.entries@, k),
    {
        let n: usize = self.entries.len();
        let mut i: usize = 0;
        while i < n
            invariant
                i <= n == self.entries@.len(),
                forall|j: int| 0 <= j < i ==> self.entries@[j].0 != k,
            decreases n - i,
        {
            if self.entries[i].0 == k {
                proof {
                    lemma_find_at(self.entries@, k, i as int);
                }
                return Some(self.entries[i].1);
            }
            i = i + 1;
        }
        proof {
            lemma_find_none(self.entries@, k);
        }
        None
    }

    /// Stores the scratch state of one aircraft, leaving every other
    /// aircraft untouched.
    pub fn put(&mut self, k: u32, st: AircraftState)
        ensures
            spec_find(final(self).entries@, k) == Some(st),
            forall|q: u32| q != k ==> spec_find(final(self).entries@, q) == spec_find(
                old(self).entries@,
                q,
            ),
    {
        let n: usize = self.entries.len();
        let mut i: usize = 0;
        while i < n
            invariant
                i <= n == self.entries@.len(),
                self.entries@ == old(self).entries@,
                forall|j: int| 0 <= j < i ==> self.entries@[j].0 != k,
            decreases n - i,
        {
            if self.entries[i].0 == k {
                self.entries.set(i, (k, st));
                proof {
                    lemma_find_at(self.entries@, k, i as int);
                    assert forall|q: u32| q != k implies spec_find(self.entries@, q)
                        == spec_find(old(self).entries@, q) by {
                        lemma_find_update(old(self).entries@, i as int, st, q);
                        assert(self.entries@ =~= old(self).entries@.update(
                            i as int,
                            (old(self).entries@[i as int].0, st),
                        ));
                    }
                }
                return ;
            }
            i = i + 1;
        }
        proof {
            lemma_find_none(self.entries@, k);
        }
        self.entries.push((k, st));
        proof {
            lemma_find_none(old(self).entries@, k);
            lemma_find_push(old(self).entries@, k, st, k);
            assert forall|q: u32| q != k implies spec_find(self.entries@, q) == spec_find(
                old(self).entries@,
                q,
            ) by {
                lemma_find_push(old(self).entries@, k, st, q);
            }
        }
    }
}



/// The absolute difference of two angles in millionths of a degree.
pub open spec fn spec_absdiff(a: int, b: int) -> int {
    if a >= b {
        a - b
    } else {
        b - a
    }
}

/// An angle folded into (-180, 180] degrees, for values below 360.
pub open spec fn spec_lon_norm(c: int) -> int {
    if c > 180_000_000 {
        c - 360_000_000
    } else {
        c
    }
}

/// One surface latitude candidate before the hemisphere choice:
/// `90 (k + cpr / 2^17) / zones` degrees in millionths, in [0, 90).
pub open spec fn spec_cand_lat_surface(k: int, cpr: int, zones: int) -> int {
    (90 * (k * 131072 + cpr) * 1000000) / (zones * 131072)
}

/// The candidate or its southern twin, whichever lies nearer the
/// reference latitude.
pub open spec fn spec_pick_hemisphere(lat0: int, rlat: int) -> int {
    if spec_absdiff(lat0, rlat) <= spec_absdiff(lat0 - 90_000_000, rlat) {
        lat0
    } else {
        lat0 - 90_000_000
    }
}

/// Of the four quadrant solutions of a surface longitude in [0, 90),
/// the one nearest the reference longitude.
pub open spec fn spec_pick_quadrant(lon0: int, rlon: int) -> int {
    let c0 = spec_lon_norm(lon0);
    let c1 = spec_lon_norm(lon0 + 90_000_000);
    let c2 = spec_lon_norm(lon0 + 180_000_000);
    let c3 = spec_lon_norm(lon0 + 270_000_000);
    let b1 = if spec_absdiff(c1, rlon) < spec_absdiff(c0, rlon) {
        c1
    } else {
        c0
    };
    let b2 = if spec_absdiff(c2, rlon) < spec_absdiff(b1, rlon) {
        c2
    } else {
        b1
    };
    if spec_absdiff(c3, rlon) < spec_absdiff(b2, rlon) {
        c3
    } else {
        b2
    }
}

/// A globally unambiguous surface decode: the airborne algorithm with
/// zone sizes halved, the hemisphere and longitude quadrant settled by
/// the reference.  `None` when the candidates straddle a zone boundary.
pub open spec fn spec_global_surface(
    le: int,
    lo: int,
    lce: int,
    lco: int,
    odd_fresh: bool,
    r: Position,
) -> Option<Position> {
    let jp = (59 * le + 7929856 - 60 * lo) / 131072;
    let ke = jp % 60;
    let ko = (jp + 58) % 59;
    let lat_e = spec_pick_hemisphere(spec_cand_lat_surface(ke, le, 60), r.lat_udeg as int);
    let lat_o = spec_pick_hemisphere(spec_cand_lat_surface(ko, lo, 59), r.lat_udeg as int);
    if lat_e < -90_000_000 || lat_e > 90_000_000 || lat_o < -90_000_000 || lat_o
        > 90_000_000 {
        None
    } else if spec_nl(lat_e as i64) != spec_nl(lat_o as i64) {
        None
    } else {
        let nlv = spec_nl(lat_e as i64) as int;
        let zones = if odd_fresh {
            if nlv >= 2 {
                nlv - 1
            } else {
                1
            }
        } else {
            nlv
        };
        let latv = if odd_fresh {
            lat_o
        } else {
            lat_e
        };
        let lcpr = if odd_fresh {
            lco
        } else {
            lce
        };
        let mp = (lce * (nlv - 1) + nlv * 131072 + 65536 - lco * nlv) / 131072;
        let klon = (mp + 60 * zones - nlv) % zones;
        let lon0 = (90 * (klon * 131072 + lcpr) * 1000000) / (zones * 131072);
        Some(
            Position {
                lat_udeg: latv as i64,
                lon_udeg: spec_pick_quadrant(lon0, r.lon_udeg as int) as i64,
            },
        )
    }
}

fn absdiff(a: i64, b: i64) -> (r: i64)
    requires
        -540_000_000 <= a <= 540_000_000,
        -540_000_000 <= b <= 540_000_000,
    ensures
        r == spec_absdiff(a as int, b as int),
{
    if a >= b {
        a - b
    } else {
        b - a
    }
}

fn cand_lat_surface(k: u64, cpr: u32, zones: u64) -> (r: i64)
    requires
        k < zones,
        cpr < 131072,
        zones == 59 || zones == 60,
    ensures
        r == spec_cand_lat_surface(k as int, cpr as int, zones as int),
        0 <= r < 90_000_000,
{
    let num: u64 = 90 * (k * 131072 + cpr as u64) * 1000000;
    proof {
        assert(90 * ((k as int) * 131072 + cpr as int) * 1000000 < ((zones as int)
            * 131072) * 90_000_000) by (nonlinear_arith)
            requires
                k < zones,
                cpr < 131072,
                zones == 59 || zones == 60,
        ;
        vstd::arithmetic::div_mod::lemma_multiply_divide_lt(
            90 * ((k as int) * 131072 + cpr as int) * 1000000,
            (zones as int) * 131072,
            90_000_000,
        );
    }
    let udeg: u64 = num / (zones * 131072);
    udeg as i64
}

/// Reconstructs a surface position from an even and an odd encoding,
/// the reference settling the hemisphere and the longitude quadrant.
pub fn global_surface(le: u32, lo: u32, lce: u32, lco: u32, odd_fresh: bool, r: Position) -> (p:
    Option<Position>)
    requires
        le < 131072,
        lo < 131072,
        lce < 131072,
        lco < 131072,
        spec_pos_in_range(r),
    ensures
        p == spec_global_surface(le as int, lo as int, lce as int, lco as int, odd_fresh, r),
{
    let jp: u64 = (59 * (le as u64) + 7929856 - 60 * (lo as u64)) / 131072;
    let ke: u64 = jp % 60;
    let ko: u64 = (jp + 58) % 59;
    let lat0_e: i64 = cand_lat_surface(ke, le, 60);
    let lat0_o: i64 = cand_lat_surface(ko, lo, 59);
    let lat_e: i64 = if absdiff(lat0_e, r.lat_udeg) <= absdiff(lat0_e - 90_000_000, r.lat_udeg) {
        lat0_e
    } else {
        lat0_e - 90_000_000
    };
    let lat_o: i64 = if absdiff(lat0_o, r.lat_udeg) <= absdiff(lat0_o - 90_000_000, r.lat_udeg) {
        lat0_o
    } else {
        lat0_o - 90_000_000
    };
    if lat_e < -90_000_000 || lat_e > 90_000_000 || lat_o < -90_000_000 || lat_o
        > 90_000_000 {
        return None;
    }
    let nle: u64 = nl(lat_e);
    let nlo: u64 = nl(lat_o);
    if nle != nlo {
        return None;
    }
    let zones: u64 = if odd_fresh {
        if nle >= 2 {
            nle - 1
        } else {
            1
        }
    } else {
        nle
    };
    let latv: i64 = if odd_fresh {
        lat_o
    } else {
        lat_e
    };
    let lcpr: u64 = if odd_fresh {
        lco as u64
    } else {
        lce as u64
    };
    proof {
        assert((lce as u64) * (nle - 1) <= 131072 * 59 && (lco as u64) * nle < nle * 131072
            && (lco as u64) * nle <= 131072 * 59) by (nonlinear_arith)
            requires
                lce < 131072,
                lco < 131072,
                1 <= nle <= 59,
        ;
    }
    let mp: u64 = ((lce as u64) * (nle - 1) + nle * 131072 + 65536 - (lco as u64) * nle)
        / 131072;
    let klon: u64 = (mp + 60 * zones - nle) % zones;
    proof {
        assert(90 * ((klon as int) * 131072 + lcpr as int) * 1000000 < ((zones as int)
            * 131072) * 90_000_000) by (nonlinear_arith)
            requires
                klon < zones,
                lcpr < 131072,
                1 <= zones <= 59,
        ;
        vstd::arithmetic::div_mod::lemma_multiply_divide_lt(
            90 * ((klon as int) * 131072 + lcpr as int) * 1000000,
            (zones as int) * 131072,
            90_000_000,
        );
    }
    let num: u64 = 90 * (klon * 131072 + lcpr) * 1000000;
    let lon0: u64 = num / (zones * 131072);
    let c0: i64 = lon_norm(lon0 as i64);
    let c1: i64 = lon_norm(lon0 as i64 + 90_000_000);
    let c2: i64 = lon_norm(lon0 as i64 + 180_000_000);
    let c3: i64 = lon_norm(lon0 as i64 + 270_000_000);
    let b1: i64 = if absdiff(c1, r.lon_udeg) < absdiff(c0, r.lon_udeg) {
        c1
    } else {
        c0
    };
    let b2: i64 = if absdiff(c2, r.lon_udeg) < absdiff(b1, r.lon_udeg) {
        c2
    } else {
        b1
    };
    let lon: i64 = if absdiff(c3, r.lon_udeg) < absdiff(b2, r.lon_udeg) {
        c3
    } else {
        b2
    };
    Some(Position { lat_udeg: latv, lon_udeg: lon })
}

fn lon_norm(c: i64) -> (r: i64)
    requires
        0 <= c <= 540_000_000,
    ensures
        r == spec_lon_norm(c as int),
        -180_000_000 <= r <= 180_000_000,
{
    if c > 180_000_000 {
        c - 360_000_000
    } else {
        c
    }
}

/// Two timestamps within the 10-second global-decoding window.
pub open spec fn spec_ts_close(a: u64, b: u64) -> bool {
    (a >= b && a - b <= 10) || (b >= a && b - a <= 10)
}

/// The empty scratch.
pub open spec fn spec_state0() -> AircraftState {
    AircraftState { even_frame: None, odd_frame: None, last_position: None }
}

/// One step of the position reconstructor on one aircraft's scratch:
/// stale slots (timestamps that would decrease) reset, the incoming
/// encoding stored in its slot, then a global attempt when both slots
/// are within the window (airborne only), else a local attempt against
/// the reference.  Yields the new scratch, the decoded position if any,
/// and the new reference.  A local decode beyond the range gate resets
/// the slot just stored and decodes nothing.
pub open spec fn spec_cpr_step(
    st0: AircraftState,
    odd: bool,
    latc: int,
    lonc: int,
    ts: u64,
    reference: Option<Position>,
    surface: bool,
) -> (AircraftState, Option<Position>, Option<Position>) {
    let ev0 = match st0.even_frame {
        Some(f) => if f.ts > ts {
            None
        } else {
            Some(f)
        },
        None => None,
    };
    let od0 = match st0.odd_frame {
        Some(f) => if f.ts > ts {
            None
        } else {
            Some(f)
        },
        None => None,
    };
    let cur = CprFrame { lat_cpr: latc as u32, lon_cpr: lonc as u32, ts };
    let ev = if !odd {
        Some(cur)
    } else {
        ev0
    };
    let od = if odd {
        Some(cur)
    } else {
        od0
    };
    let kept = AircraftState { even_frame: ev, odd_frame: od, last_position: st0.last_position };
    if ev is Some && od is Some && spec_ts_close(ev->Some_0.ts, od->Some_0.ts) {
        let e = ev->Some_0;
        let o = od->Some_0;
        if e.lat_cpr < 131072 && e.lon_cpr < 131072 && o.lat_cpr < 131072 && o.lon_cpr
            < 131072 {
            if !surface {
                match spec_global_air(
                    e.lat_cpr as int,
                    o.lat_cpr as int,
                    e.lon_cpr as int,
                    o.lon_cpr as int,
                    o.ts > e.ts,
                ) {
                    Some(p) => (
                        AircraftState {
                            even_frame: ev,
                            odd_frame: od,
                            last_position: Some(p),
                        },
                        Some(p),
                        Some(p),
                    ),
                    None => (kept, None, reference),
                }
            } else {
                match reference {
                    Some(r) => if spec_pos_in_range(r) {
                        match spec_global_surface(
                            e.lat_cpr as int,
                            o.lat_cpr as int,
                            e.lon_cpr as int,
                            o.lon_cpr as int,
                            o.ts > e.ts,
                            r,
                        ) {
                            Some(p) => (
                                AircraftState {
                                    even_frame: ev,
                                    odd_frame: od,
                                    last_position: Some(p),
                                },
                                Some(p),
                                Some(p),
                            ),
                            None => (kept, None, reference),
                        }
                    } else {
                        (kept, None, reference)
                    },
                    None => (kept, None, reference),
                }
            }
        } else {
            (kept, None, reference)
        }
    } else {
        match reference {
            Some(r) => if spec_pos_in_range(r) && latc < 131072 && lonc < 131072 {
                match spec_local(r.lat_udeg as int, r.lon_udeg as int, latc, lonc, odd, surface) {
                    Some(p) => if spec_range_ok(
                        p,
                        r,
                        if surface {
                            45
                        } else {
                            180
                        },
                    ) {
                        (
                            AircraftState {
                                even_frame: ev,
                                odd_frame: od,
                                last_position: Some(p),
                            },
                            Some(p),
                            Some(p),
                        )
                    } else {
                        (
                            AircraftState {
                                even_frame: if !odd {
                                    None
                                } else {
                                    ev
                                },
                                odd_frame: if odd {
                                    None
                                } else {
                                    od
                                },
                                last_position: st0.last_position,
                            },
                            None,
                            reference,
                        )
                    },
                    None => (kept, None, reference),
                }
            } else {
                (kept, None, reference)
            },
            None => (kept, None, reference),
        }
    }
}

/// Runs one reconstruction step on a scratch state.
#[verifier::rlimit(60)]
fn cpr_step(
    st0: AircraftState,
    odd: bool,
    latc: u32,
    lonc: u32,
    ts: u64,
    reference: Option<Position>,
    surface: bool,
) -> (r: (AircraftState, Option<Position>, Option<Position>))
    ensures
        r == spec_cpr_step(st0, odd, latc as int, lonc as int, ts, reference, surface),
{
    let ev0: Option<CprFrame> = match st0.even_frame {
        Some(f) => if f.ts > ts {
            None
        } else {
            Some(f)
        },
        None => None,
    };
    let od0: Option<CprFrame> = match st0.odd_frame {
        Some(f) => if f.ts > ts {
            None
        } else {
            Some(f)
        },
        None => None,
    };
    let cur = CprFrame { lat_cpr: latc, lon_cpr: lonc, ts };
    let ev: Option<CprFrame> = if !odd {
        Some(cur)
    } else {
        ev0
    };
    let od: Option<CprFrame> = if odd {
        Some(cur)
    } else {
        od0
    };
    let kept = AircraftState { even_frame: ev, odd_frame: od, last_position: st0.last_position };
    if ev.is_some() && od.is_some() {
        let e = ev.unwrap();
        let o = od.unwrap();
        let close: bool = if e.ts >= o.ts {
            e.ts - o.ts <= 10
        } else {
            o.ts - e.ts <= 10
        };
        if close {
            if e.lat_cpr < 131072 && e.lon_cpr < 131072 && o.lat_cpr < 131072 && o.lon_cpr
                < 131072 {
                if !surface {
                    match global_air(e.lat_cpr, o.lat_cpr, e.lon_cpr, o.lon_cpr, o.ts
                        > e.ts) {
                        Some(p) => {
                            return (
                                AircraftState {
                                    even_frame: ev,
                                    odd_frame: od,
                                    last_position: Some(p),
                                },
                                Some(p),
                                Some(p),
                            );
                        },
                        None => {
                            return (kept, None, reference);
                        },
                    }
                } else {
                    match reference {
                        Some(r) => {
                            if -90_000_000 <= r.lat_udeg && r.lat_udeg <= 90_000_000
                                && -180_000_000 <= r.lon_udeg && r.lon_udeg
                                <= 180_000_000 {
                                match global_surface(
                                    e.lat_cpr,
                                    o.lat_cpr,
                                    e.lon_cpr,
                                    o.lon_cpr,
                                    o.ts > e.ts,
                                    r,
                                ) {
                                    Some(p) => {
                                        return (
                                            AircraftState {
                                                even_frame: ev,
                                                odd_frame: od,
                                                last_position: Some(p),
                                            },
                                            Some(p),
                                            Some(p),
                                        );
                                    },
                                    None => {
                                        return (kept, None, reference);
                                    },
                                }
                            } else {
                                return (kept, None, reference);
                            }
                        },
                        None => {
                            return (kept, None, reference);
                        },
                    }
                }
            } else {
                return (kept, None, reference);
            }
        }
    }
    match reference {
        Some(r) => {
            if -90_000_000 <= r.lat_udeg && r.lat_udeg <= 90_000_000 && -180_000_000
                <= r.lon_udeg && r.lon_udeg <= 180_000_000 && latc < 131072 && lonc
                < 131072 {
                match cpr_local(r.lat_udeg, r.lon_udeg, latc, lonc, odd, surface) {
                    Some(p) => {
                        let limit: u64 = if surface {
                            45
                        } else {
                            180
                        };
                        if range_ok(p, r, limit) {
                            (
                                AircraftState {
                                    even_frame: ev,
                                    odd_frame: od,
                                    last_position: Some(p),
                                },
                                Some(p),
                                Some(p),
                            )
                        } else {
                            (
                                AircraftState {
                                    even_frame: if !odd {
                                        None
                                    } else {
                                        ev
                                    },
                                    odd_frame: if odd {
                                        None
                                    } else {
                                        od
                                    },
                                    last_position: st0.last_position,
                                },
                                None,
                                reference,
                            )
                        }
                    },
                    None => (kept, None, reference),
                }
            } else {
                (kept, None, reference)
            }
        },
        None => (kept, None, reference),
    }
}

/// The CPR fields of a payload: parity, the two encodings, and whether
/// it is a surface frame.
pub open spec fn spec_me_cpr(me: ME) -> Option<(bool, u32, u32, bool)> {
    match me {
        ME::BDS05(b) => Some((b.odd, b.lat_cpr, b.lon_cpr, false)),
        ME::BDS06(b) => Some((b.odd, b.lat_cpr, b.lon_cpr, true)),
        _ => None,
    }
}

/// `me` with its position fields filled from `p`, when `p` is decoded
/// and `me` carries positions.
pub open spec fn spec_me_with_pos(me: ME, p: Option<Position>) -> ME {
    match p {
        None => me,
        Some(pos) => match me {
            ME::BDS05(b) => ME::BDS05(
                Bds05 {
                    tc: b.tc,
                    alt: b.alt,
                    odd: b.odd,
                    lat_cpr: b.lat_cpr,
                    lon_cpr: b.lon_cpr,
                    latitude: Some(pos.lat_udeg),
                    longitude: Some(pos.lon_udeg),
                },
            ),
            ME::BDS06(b) => ME::BDS06(
                Bds06 {
                    odd: b.odd,
                    lat_cpr: b.lat_cpr,
                    lon_cpr: b.lon_cpr,
                    track: b.track,
                    groundspeed: b.groundspeed,
                    latitude: Some(pos.lat_udeg),
                    longitude: Some(pos.lon_udeg),
                },
            ),
            _ => me,
        },
    }
}

/// Reconstructs the position carried by a position-bearing payload.
///
/// Mutates the aircraft's scratch in `aircraft` exactly as
/// `spec_cpr_step` says, fills the payload's latitude and longitude on
/// success, and moves the reference to the decoded position so later
/// local decodes stay anchored.  Payloads without position fields
/// change nothing.
pub fn decode_position(
    me: &mut ME,
    ts: u64,
    icao: u32,
    aircraft: &mut CprTable,
    reference: &mut Option<Position>,
)
    ensures
        spec_me_cpr(*old(me)) is None ==> *final(me) == *old(me) && final(aircraft).entries@
            == old(aircraft).entries@ && *final(reference) == *old(reference),
        spec_me_cpr(*old(me)) matches Some(c) ==> {
            let st0 = match spec_find(old(aircraft).entries@, icao) {
                Some(s) => s,
                None => spec_state0(),
            };
            let step = spec_cpr_step(st0, c.0, c.1 as int, c.2 as int, ts, *old(reference), c.3);
            &&& spec_find(final(aircraft).entries@, icao) == Some(step.0)
            &&& forall|q: u32| q != icao ==> spec_find(final(aircraft).entries@, q)
                == spec_find(old(aircraft).entries@, q)
            &&& *final(reference) == step.2
            &&& *final(me) == spec_me_with_pos(*old(me), step.1)
        },
{
    let cpr: Option<(bool, u32, u32, bool)> = match &*me {
        ME::BDS05(b) => Some((b.odd, b.lat_cpr, b.lon_cpr, false)),
        ME::BDS06(b) => Some((b.odd, b.lat_cpr, b.lon_cpr, true)),
        _ => None,
    };
    match cpr {
        None => {
        },
        Some((odd, latc, lonc, surface)) => {
            let st0: AircraftState = match aircraft.get(icao) {
                Some(s) => s,
                None => AircraftState {
                    even_frame: None,
                    odd_frame: None,
                    last_position: None,
                },
            };
            let step = cpr_step(st0, odd, latc, lonc, ts, *reference, surface);
            aircraft.put(icao, step.0);
            *reference = step.2;
            if let Some(p) = step.1 {
                let repl: Option<ME> = match &*me {
                    ME::BDS05(b) => Some(
                        ME::BDS05(
                            Bds05 {
                                tc: b.tc,
                                alt: b.alt,
                                odd: b.odd,
                                lat_cpr: b.lat_cpr,
                                lon_cpr: b.lon_cpr,
                                latitude: Some(p.lat_udeg),
                                longitude: Some(p.lon_udeg),
                            },
                        ),
                    ),
                    ME::BDS06(b) => Some(
                        ME::BDS06(
                            Bds06 {
                                odd: b.odd,
                                lat_cpr: b.lat_cpr,
                                lon_cpr: b.lon_cpr,
                                track: b.track,
                                groundspeed: b.groundspeed,
                                latitude: Some(p.lat_udeg),
                                longitude: Some(p.lon_udeg),
                            },
                        ),
                    ),
                    _ => None,
                };
                if let Some(nm) = repl {
                    *me = nm;
                }
            }
        },
    }
}

} // verus!
