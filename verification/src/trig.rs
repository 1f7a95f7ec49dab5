//! Fixed-point sine and cosine.
//!
//! The argument is reduced to a quarter turn around zero and both functions
//! are evaluated by a truncated Taylor polynomial. The polynomial, its
//! truncating rescalings and the final clamp into `[-1, 1]` are the exact
//! specification of the result: two equal arguments always give equal
//! results, bit for bit.

use vstd::prelude::*;

use crate::fixed::{abs_i, in_range, lemma_mul_abs_bound, tdiv, tdiv_i64, SCALE};

verus! {

/// A quarter turn, `pi/2`, in raw units.
pub const HALF_PI: i64 = 26353589;

/// Half of [`HALF_PI`], the midpoint used when rounding to the nearest quarter turn.
pub const H2: i64 = 13176794;

/// Cosine of a reduced argument `|r| <= pi/4`, by Taylor terms through degree 8.
pub open spec fn cos_red_s(r: int) -> int {
    let p2 = tdiv(r * r, SCALE as int);
    let p4 = tdiv(p2 * p2, SCALE as int);
    let p6 = tdiv(p4 * p2, SCALE as int);
    let p8 = tdiv(p4 * p4, SCALE as int);
    SCALE - tdiv(p2, 2) + tdiv(p4, 24) - tdiv(p6, 720) + tdiv(p8, 40320)
}

/// Sine of a reduced argument `|r| <= pi/4`, by Taylor terms through degree 9.
pub open spec fn sin_red_s(r: int) -> int {
    let p2 = tdiv(r * r, SCALE as int);
    let p4 = tdiv(p2 * p2, SCALE as int);
    let p6 = tdiv(p4 * p2, SCALE as int);
    let p8 = tdiv(p4 * p4, SCALE as int);
    r - tdiv(tdiv(p2 * r, SCALE as int), 6) + tdiv(tdiv(p4 * r, SCALE as int), 120) - tdiv(
        tdiv(p6 * r, SCALE as int),
        5040,
    ) + tdiv(tdiv(p8 * r, SCALE as int), 362880)
}

/// Clamp a scalar into `[-1, 1]`.
pub open spec fn clamp_unit_s(a: int) -> int {
    if a > SCALE {
        SCALE as int
    } else if a < -(SCALE as int) {
        -(SCALE as int)
    } else {
        a
    }
}

/// Sine and cosine of a fixed-point angle in radians.
pub open spec fn sin_cos_s(x: int) -> (int, int) {
    let xa = abs_i(x);
    let t = xa + H2;
    let q = (t / (HALF_PI as int)) % 4;
    let r = t % (HALF_PI as int) - H2;
    let sr = sin_red_s(r);
    let cr = cos_red_s(r);
    let s0 = if q == 0 {
        sr
    } else if q == 1 {
        cr
    } else if q == 2 {
        -sr
    } else {
        -cr
    };
    let c0 = if q == 0 {
        cr
    } else if q == 1 {
        -sr
    } else if q == 2 {
        -cr
    } else {
        sr
    };
    let sa = clamp_unit_s(s0);
    let c = clamp_unit_s(c0);
    (if x >= 0 {
        sa
    } else {
        -sa
    }, c)
}

/// Taylor evaluation on a reduced argument; returns `(sin, cos)` before the clamp.
#[verifier::rlimit(100)]
fn sin_cos_red(r: i64) -> (o: (i64, i64))
    requires
        -13176794 <= r <= 13176795,
    ensures
        o.0 == sin_red_s(r as int),
        o.1 == cos_red_s(r as int),
        abs_i(o.0 as int) <= 0x2000000,
        abs_i(o.1 as int) <= 0x2000000,
{
    proof {
        lemma_mul_abs_bound(r as int, r as int, 13176795, 13176795);
    }
    let rr: i64 = r * r;
    let p2: i64 = tdiv_i64(rr, SCALE);
    proof {
        lemma_mul_abs_bound(p2 as int, p2 as int, 10350654, 10350654);
        lemma_mul_abs_bound(p2 as int, r as int, 10350654, 13176795);
    }
    let p4: i64 = tdiv_i64(p2 * p2, SCALE);
    proof {
        lemma_mul_abs_bound(p4 as int, p2 as int, 6386492, 10350654);
        lemma_mul_abs_bound(p4 as int, p4 as int, 6386492, 6386492);
        lemma_mul_abs_bound(p4 as int, r as int, 6386492, 13176795);
    }
    let p6: i64 = tdiv_i64(p4 * p2, SCALE);
    let p8: i64 = tdiv_i64(p4 * p4, SCALE);
    proof {
        lemma_mul_abs_bound(p6 as int, r as int, 3940265, 13176795);
        lemma_mul_abs_bound(p8 as int, r as int, 2431202, 13176795);
    }
    let c: i64 = SCALE - tdiv_i64(p2, 2) + tdiv_i64(p4, 24) - tdiv_i64(p6, 720) + tdiv_i64(
        p8,
        40320,
    );
    let s: i64 = r - tdiv_i64(tdiv_i64(p2 * r, SCALE), 6) + tdiv_i64(
        tdiv_i64(p4 * r, SCALE),
        120,
    ) - tdiv_i64(tdiv_i64(p6 * r, SCALE), 5040) + tdiv_i64(tdiv_i64(p8 * r, SCALE), 362880);
    (s, c)
}

/// Sine and cosine of an admitted angle, each clamped into `[-1, 1]`.
pub fn sin_cos_fx(x: i64) -> (o: (i64, i64))
    requires
        in_range(x as int),
    ensures
        o.0 == sin_cos_s(x as int).0,
        o.1 == sin_cos_s(x as int).1,
        abs_i(o.0 as int) <= SCALE,
        abs_i(o.1 as int) <= SCALE,
{
    let xa: i64 = if x >= 0 {
        x
    } else {
        -x
    };
    let t: u64 = (xa as u64) + (H2 as u64);
    let q: u64 = (t / (HALF_PI as u64)) % 4;
    let m: u64 = t % (HALF_PI as u64);
    let r: i64 = (m as i64) - H2;
    let (sr, cr) = sin_cos_red(r);
    let s0: i64 = if q == 0 {
        sr
    } else if q == 1 {
        cr
    } else if q == 2 {
        -sr
    } else {
        -cr
    };
    let c0: i64 = if q == 0 {
        cr
    } else if q == 1 {
        -sr
    } else if q == 2 {
        -cr
    } else {
        sr
    };
    let sa: i64 = clamp_unit(s0);
    let c: i64 = clamp_unit(c0);
    (if x >= 0 {
        sa
    } else {
        -sa
    }, c)
}

/// Clamp an executable scalar into `[-1, 1]`.
fn clamp_unit(a: i64) -> (r: i64)
    ensures
        r == clamp_unit_s(a as int),
        abs_i(r as int) <= SCALE,
{
    if a > SCALE {
        SCALE
    } else if a < -SCALE {
        -SCALE
    } else {
        a
    }
}

} // verus!
