//! Small exact-integer helpers for the velocity and position decoders:
//! an integer square root, a track angle from a velocity vector, and a
//! rational cosine approximation for the range gate.
//!
//! Angles are carried in units of `360 / 2048` of a degree turn: 2048
//! units make a full circle, so 512 units are 90 degrees.  The unit is
//! exact for every angular field of the Mode S registers.

use vstd::prelude::*;

verus! {

/// The integer square root: the largest `r` with `r * r <= v`.
pub fn isqrt(v: u64) -> (r: u64)
    requires
        v < 0x1_0000_0000,
    ensures
        r * r <= v,
        (r + 1) * (r + 1) > v,
{
    let mut r: u64 = 0;
    while (r + 1) * (r + 1) <= v
        invariant
            v < 0x1_0000_0000,
            r * r <= v,
            r < 0x1_0000,
            (r + 1) * (r + 1) <= 0x1_0000_0000,
        decreases v - r * r,
    {
        proof {
            assert((r + 1) * (r + 1) <= v && v < 0x1_0000_0000 ==> r + 1 < 0x1_0000
                && r * r < (r + 1) * (r + 1)) by (nonlinear_arith);
            assert(r + 1 < 0x1_0000 ==> (r + 1 + 1) * (r + 1 + 1) <= 0x1_0000_0000) by (
            nonlinear_arith);
        }
        r = r + 1;
    }
    r
}

/// The arc tangent of `num / den` in 2048-per-turn units, by the
/// rational fit `atan(z) ~ 256 z + 89 z (1 - z)` for `z` in [0, 1]
/// (exact at 0 and 45 degrees, within a fifth of a degree between).
pub open spec fn spec_atan_unit(num: u64, den: u64) -> u64 {
    ((256 * num * den + 89 * num * (den - num)) / (den * den)) as u64
}

proof fn lemma_atan_unit_bound(num: u64, den: u64)
    requires
        0 < den,
        num <= den,
    ensures
        spec_atan_unit(num, den) <= 256,
{
    let n = num as int;
    let d = den as int;
    assert(256 * n * d + 89 * n * (d - n) <= 256 * (d * d) && 0 < d * d) by (
    nonlinear_arith)
        requires
            0 < d,
            0 <= n <= d,
    ;
    vstd::arithmetic::div_mod::lemma_div_is_ordered(
        256 * n * d + 89 * n * (d - n),
        256 * (d * d),
        d * d,
    );
    vstd::arithmetic::div_mod::lemma_div_multiples_vanish(256, d * d);
    assert((d * d) * 256 == 256 * (d * d));
}

fn atan_unit(num: u64, den: u64) -> (r: u64)
    requires
        0 < den <= 0x10000,
        num <= den,
    ensures
        r == spec_atan_unit(num, den),
        r <= 256,
{
    proof {
        lemma_atan_unit_bound(num, den);
        assert(num * den <= 0x10000 * 0x10000) by (nonlinear_arith)
            requires
                0 < den <= 0x10000,
                num <= den,
        ;
        assert(num * (den - num) <= 0x10000 * 0x10000) by (nonlinear_arith)
            requires
                0 < den <= 0x10000,
                num <= den,
        ;
        assert(0 < den * den <= 0x10000 * 0x10000) by (nonlinear_arith)
            requires
                0 < den <= 0x10000,
        ;
        assert(256 * (num * den) == 256 * num * den) by (nonlinear_arith);
        assert(89 * (num * (den - num)) == 89 * num * (den - num)) by (nonlinear_arith)
            requires
                num <= den,
        ;
    }
    (256 * num * den + 89 * num * (den - num)) / (den * den)
}

/// The direction of the velocity vector `(east, north)` measured
/// clockwise from north, in 2048-per-turn units (0 when the vector is
/// zero).
pub open spec fn spec_track_unit(east: i32, north: i32) -> u64 {
    let ax = if east >= 0 {
        east as int
    } else {
        -(east as int)
    };
    let ay = if north >= 0 {
        north as int
    } else {
        -(north as int)
    };
    if ax == 0 && ay == 0 {
        0
    } else {
        let base = if ax <= ay {
            spec_atan_unit(ax as u64, ay as u64) as int
        } else {
            512 - spec_atan_unit(ay as u64, ax as u64)
        };
        if east >= 0 && north >= 0 {
            base as u64
        } else if east >= 0 {
            (1024 - base) as u64
        } else if north < 0 {
            (1024 + base) as u64
        } else {
            ((2048 - base) % 2048) as u64
        }
    }
}

/// The track angle of a velocity vector, clockwise from north, in
/// 2048-per-turn units.
pub fn track_unit(east: i32, north: i32) -> (r: u64)
    requires
        -0x8000 < east < 0x8000,
        -0x8000 < north < 0x8000,
    ensures
        r == spec_track_unit(east, north),
        r < 2048,
{
    let ax: u64 = if east >= 0 {
        east as u64
    } else {
        (-(east as i64)) as u64
    };
    let ay: u64 = if north >= 0 {
        north as u64
    } else {
        (-(north as i64)) as u64
    };
    if ax == 0 && ay == 0 {
        return 0;
    }
    let base: u64 = if ax <= ay {
        atan_unit(ax, ay)
    } else {
        512 - atan_unit(ay, ax)
    };
    if east >= 0 && north >= 0 {
        base
    } else if east >= 0 {
        1024 - base
    } else if north < 0 {
        1024 + base
    } else {
        (2048 - base) % 2048
    }
}

/// A rational cosine: `cos(x degrees)` scaled by 1000, by Bhaskara's
/// approximation `4 (8100 - x^2) / (32400 + x^2)` for `x` in [0, 90].
pub open spec fn spec_cos_milli(x: u64) -> u64 {
    ((4000 * (8100 - x * x)) / (32400 + x * x)) as u64
}

/// Cosine of `x` whole degrees, scaled by 1000.
pub fn cos_milli(x: u64) -> (r: u64)
    requires
        x <= 90,
    ensures
        r == spec_cos_milli(x),
        r <= 1000,
{
    proof {
        assert(x * x <= 8100) by (nonlinear_arith)
            requires
                x <= 90,
        ;
    }
    let r: u64 = (4000 * (8100 - x * x)) / (32400 + x * x);
    proof {
        assert((4000 * (8100 - x * x)) / (32400 + x * x) <= 1000) by (nonlinear_arith)
            requires
                x * x <= 8100,
        ;
    }
    r
}

} // verus!
