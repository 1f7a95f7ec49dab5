//! The covariance ellipse: eigen-decomposition of a symmetric 2 x 2
//! covariance block, confidence-scaled semi-axes, rotation angle, and the
//! sampled polyline a renderer draws.
//!
//! This is a pure geometric post-processor over the filter's covariance
//! output; it is not part of the filter itself.

use vstd::prelude::*;

use crate::fixed::{
    abs_i, add_rng, add_rng_s, in_range, isqrt, isqrt_s, lemma_isqrt_bounds, lemma_mul_abs_bound,
    mul2, narrow1, narrow1_s, sqrt_fx, sqrt_fx_s, tdiv, tdiv_i64, tdiv_i128, unit_scale, BOUND,
    SCALE,
};
use crate::mat::{m2_ok, m2_sym, Mat2, Point};
use crate::trig::{sin_cos_fx, sin_cos_s, HALF_PI};
use crate::EkfError;

verus! {

/// A quarter of a half turn, `pi/4`, in raw units.
pub const QUARTER_PI: i64 = 13176795;

/// A half turn, `pi`, in raw units.
pub const PI_FX: i64 = 52707179;

/// The tangent of `pi/8`, the threshold of the half-angle reduction.
pub const TAN_PI_8: i64 = 6949350;

/// The angular step between sampled ellipse vertices: 0.1 rad.
pub const ANG_STEP: i64 = 1677722;

/// Number of sampled vertices: angles `0, 0.1, ..., 6.2` rad.
pub const N_VERTICES: usize = 63;

/// Arctangent of `z in [0, 1]` by the alternating series through degree 11.
pub open spec fn atan_poly_s(z: int) -> int {
    let p2 = tdiv(z * z, SCALE as int);
    let z3 = tdiv(p2 * z, SCALE as int);
    let z5 = tdiv(p2 * z3, SCALE as int);
    let z7 = tdiv(p2 * z5, SCALE as int);
    let z9 = tdiv(p2 * z7, SCALE as int);
    let z11 = tdiv(p2 * z9, SCALE as int);
    z - tdiv(z3, 3) + tdiv(z5, 5) - tdiv(z7, 7) + tdiv(z9, 9) - tdiv(z11, 11)
}

/// Arctangent of `z in [0, 1]`, with large ratios folded through `pi/4`.
pub open spec fn atan_pos_s(z: int) -> int {
    if z > TAN_PI_8 {
        QUARTER_PI + atan_poly_s(tdiv((z - SCALE) * SCALE, z + SCALE))
    } else {
        atan_poly_s(z)
    }
}

/// Quadrant-aware arctangent of `y / x`; zero when both are zero.
pub open spec fn atan2_s(y: int, x: int) -> int {
    let ax = abs_i(x);
    let ay = abs_i(y);
    let base = if ax >= ay {
        if ax == 0 {
            0
        } else {
            atan_pos_s(tdiv(ay * SCALE, ax))
        }
    } else {
        HALF_PI - atan_pos_s(tdiv(ax * SCALE, ay))
    };
    let r1 = if x >= 0 {
        base
    } else {
        PI_FX - base
    };
    if y >= 0 {
        r1
    } else {
        -r1
    }
}

/// The odd powers of `z` that the arctangent series sums, each rescaled.
#[verifier::rlimit(100)]
fn atan_powers(z: i64) -> (o: (i64, i64, i64, i64, i64))
    requires
        -SCALE <= z <= SCALE,
    ensures
        o.0 == tdiv(tdiv(z * z, SCALE as int) * z, SCALE as int),
        o.1 == tdiv(tdiv(z * z, SCALE as int) * o.0, SCALE as int),
        o.2 == tdiv(tdiv(z * z, SCALE as int) * o.1, SCALE as int),
        o.3 == tdiv(tdiv(z * z, SCALE as int) * o.2, SCALE as int),
        o.4 == tdiv(tdiv(z * z, SCALE as int) * o.3, SCALE as int),
        abs_i(o.0 as int) <= SCALE,
        abs_i(o.1 as int) <= SCALE,
        abs_i(o.2 as int) <= SCALE,
        abs_i(o.3 as int) <= SCALE,
        abs_i(o.4 as int) <= SCALE,
{
    proof {
        lemma_mul_abs_bound(z as int, z as int, 0x1000000, 0x1000000);
    }
    let p2: i64 = tdiv_i64(z * z, SCALE);
    proof {
        lemma_mul_abs_bound(p2 as int, z as int, 0x1000000, 0x1000000);
    }
    let z3: i64 = tdiv_i64(p2 * z, SCALE);
    proof {
        lemma_mul_abs_bound(p2 as int, z3 as int, 0x1000000, 0x1000000);
    }
    let z5: i64 = tdiv_i64(p2 * z3, SCALE);
    proof {
        lemma_mul_abs_bound(p2 as int, z5 as int, 0x1000000, 0x1000000);
    }
    let z7: i64 = tdiv_i64(p2 * z5, SCALE);
    proof {
        lemma_mul_abs_bound(p2 as int, z7 as int, 0x1000000, 0x1000000);
    }
    let z9: i64 = tdiv_i64(p2 * z7, SCALE);
    proof {
        lemma_mul_abs_bound(p2 as int, z9 as int, 0x1000000, 0x1000000);
    }
    let z11: i64 = tdiv_i64(p2 * z9, SCALE);
    (z3, z5, z7, z9, z11)
}

/// Executable form of [`atan_poly_s`].
#[verifier::rlimit(100)]
fn atan_poly(z: i64) -> (r: i64)
    requires
        -SCALE <= z <= SCALE,
    ensures
        r == atan_poly_s(z as int),
        abs_i(r as int) <= 6 * SCALE,
{
    let (z3, z5, z7, z9, z11) = atan_powers(z);
    z - tdiv_i64(z3, 3) + tdiv_i64(z5, 5) - tdiv_i64(z7, 7) + tdiv_i64(z9, 9) - tdiv_i64(z11, 11)
}

/// Executable form of [`atan_pos_s`].
fn atan_pos(z: i64) -> (r: i64)
    requires
        0 <= z <= SCALE,
    ensures
        r == atan_pos_s(z as int),
        abs_i(r as int) <= 7 * SCALE,
{
    if z > TAN_PI_8 {
        proof {
            lemma_mul_abs_bound((z - SCALE) as int, SCALE as int, 0x1000000, 0x1000000);
            crate::fixed::lemma_tdiv_bound(((z - SCALE) as int) * (SCALE as int), (z + SCALE) as int);
            vstd::arithmetic::div_mod::lemma_div_is_ordered(
                abs_i(((z - SCALE) as int) * (SCALE as int)),
                0x1000000000000,
                (z + SCALE) as int,
            );
        }
        let w: i64 = tdiv_i64((z - SCALE) * SCALE, z + SCALE);
        proof {
            assert(abs_i(w as int) <= 0x1000000000000int / ((z + SCALE) as int));
            vstd::arithmetic::div_mod::lemma_div_is_ordered_by_denominator(
                0x1000000000000int,
                SCALE as int,
                (z + SCALE) as int,
            );
        }
        QUARTER_PI + atan_poly(w)
    } else {
        atan_poly(z)
    }
}

/// Quadrant-aware arctangent over doubled-range fixed-point coordinates.
pub fn atan2_fx(y: i64, x: i64) -> (r: i64)
    requires
        abs_i(y as int) <= 0x40000000000,
        abs_i(x as int) <= 0x40000000000,
    ensures
        r == atan2_s(y as int, x as int),
        abs_i(r as int) <= 16 * SCALE,
{
    let ax: i64 = if x >= 0 {
        x
    } else {
        -x
    };
    let ay: i64 = if y >= 0 {
        y
    } else {
        -y
    };
    let base: i64 = if ax >= ay {
        if ax == 0 {
            0
        } else {
            proof {
                lemma_mul_abs_bound(ay as int, SCALE as int, 0x40000000000, 0x1000000);
                vstd::arithmetic::mul::lemma_mul_inequality(ay as int, ax as int, SCALE as int);
                vstd::arithmetic::div_mod::lemma_div_is_ordered(
                    (ay as int) * (SCALE as int),
                    (ax as int) * (SCALE as int),
                    ax as int,
                );
                vstd::arithmetic::mul::lemma_mul_is_commutative(ax as int, SCALE as int);
                vstd::arithmetic::div_mod::lemma_div_by_multiple(SCALE as int, ax as int);
                vstd::arithmetic::div_mod::lemma_div_pos_is_pos(
                    (ay as int) * (SCALE as int),
                    ax as int,
                );
            }
            let q = tdiv_i128((ay as i128) * (SCALE as i128), ax as i128) as i64;
            atan_pos(q)
        }
    } else {
        proof {
            lemma_mul_abs_bound(ax as int, SCALE as int, 0x40000000000, 0x1000000);
            vstd::arithmetic::mul::lemma_mul_inequality(ax as int, ay as int, SCALE as int);
            vstd::arithmetic::div_mod::lemma_div_is_ordered(
                (ax as int) * (SCALE as int),
                (ay as int) * (SCALE as int),
                ay as int,
            );
            vstd::arithmetic::mul::lemma_mul_is_commutative(ay as int, SCALE as int);
            vstd::arithmetic::div_mod::lemma_div_by_multiple(SCALE as int, ay as int);
            vstd::arithmetic::div_mod::lemma_div_pos_is_pos(
                (ax as int) * (SCALE as int),
                ay as int,
            );
        }
        let q = tdiv_i128((ax as i128) * (SCALE as i128), ay as i128) as i64;
        HALF_PI - atan_pos(q)
    };
    let r1: i64 = if x >= 0 {
        base
    } else {
        PI_FX - base
    };
    if y >= 0 {
        r1
    } else {
        -r1
    }
}

/// The ellipse of a confidence-scaled symmetric covariance block: both
/// semi-axes `sqrt(chi * eigenvalue)`, largest first, and the rotation
/// angle of the first eigenvector.
pub open spec fn covariance_ellipse_s(cov: Mat2, chi: int) -> Result<(i64, i64, i64), EkfError> {
    let tr = cov.m00 + cov.m11;
    let df = cov.m00 - cov.m11;
    let disc = df * df + 4 * (cov.m01 * cov.m01);
    let sq = isqrt_s(disc);
    let l0 = tdiv(tr + sq, 2);
    let l1 = tdiv(tr - sq, 2);
    if l1 < 0 {
        Err(EkfError::InvalidConfiguration)
    } else {
        match narrow1_s(chi * l0) {
            None => Err(EkfError::OutOfRange),
            Some(a2) => match narrow1_s(chi * l1) {
                None => Err(EkfError::OutOfRange),
                Some(b2) => {
                    let ang = if cov.m01 == 0 {
                        if cov.m00 >= cov.m11 {
                            0
                        } else {
                            HALF_PI as int
                        }
                    } else {
                        atan2_s(l0 - cov.m00, cov.m01 as int)
                    };
                    Ok((sqrt_fx_s(a2 as int) as i64, sqrt_fx_s(b2 as int) as i64, ang as i64))
                },
            },
        }
    }
}

/// Eigen-decompose a symmetric covariance block into ellipse parameters.
///
/// A negative eigenvalue means the block was not positive semi-definite
/// and is rejected as an invalid configuration.
pub fn covariance_ellipse(cov: &Mat2, chi: i64) -> (r: Result<(i64, i64, i64), EkfError>)
    requires
        m2_ok(*cov),
        m2_sym(*cov),
        0 <= chi <= BOUND,
    ensures
        r == covariance_ellipse_s(*cov, chi as int),
        r matches Ok(t) ==> 0 <= t.0 <= BOUND && 0 <= t.1 <= BOUND && in_range(t.2 as int),
{
    let df: i64 = cov.m00 - cov.m11;
    let disc: i128 = mul2(df, df) + 4 * mul2(cov.m01, cov.m01);
    proof {
        lemma_mul_abs_bound(df as int, df as int, 0x20000000000, 0x20000000000);
        lemma_mul_abs_bound(cov.m01 as int, cov.m01 as int, 0x10000000000, 0x10000000000);
        assert(disc >= 0) by (nonlinear_arith)
            requires
                disc == (df as int) * (df as int) + 4 * ((cov.m01 as int) * (cov.m01 as int)),
        ;
        lemma_isqrt_bounds(disc as int);
        let s = isqrt_s(disc as int);
        assert(disc <= 0x800000000000000000000);
        assert(s <= 0x40000000000) by (nonlinear_arith)
            requires
                s >= 0,
                s * s <= disc as int,
                disc <= 0x800000000000000000000,
        ;
    }
    let sq: i64 = isqrt(disc as u128) as i64;
    let l0: i64 = tdiv_i64(cov.m00 + cov.m11 + sq, 2);
    let l1: i64 = tdiv_i64(cov.m00 + cov.m11 - sq, 2);
    if l1 < 0 {
        return Err(EkfError::InvalidConfiguration);
    }
    proof {
        lemma_mul_abs_bound(chi as int, l0 as int, 0x10000000000, 0x80000000000);
        lemma_mul_abs_bound(chi as int, l1 as int, 0x10000000000, 0x80000000000);
    }
    let a2 = match narrow1((chi as i128) * (l0 as i128)) {
        Some(v) => v,
        None => {
            return Err(EkfError::OutOfRange);
        },
    };
    let b2 = match narrow1((chi as i128) * (l1 as i128)) {
        Some(v) => v,
        None => {
            return Err(EkfError::OutOfRange);
        },
    };
    proof {
        vstd::arithmetic::div_mod::lemma_div_pos_is_pos((chi as int) * (l0 as int), SCALE as int);
        vstd::arithmetic::div_mod::lemma_div_pos_is_pos((chi as int) * (l1 as int), SCALE as int);
        assert((chi as int) * (l0 as int) >= 0) by (nonlinear_arith)
            requires
                chi >= 0,
                l0 >= 0,
        ;
        assert((chi as int) * (l1 as int) >= 0) by (nonlinear_arith)
            requires
                chi >= 0,
                l1 >= 0,
        ;
    }
    let a = sqrt_fx(a2);
    let b = sqrt_fx(b2);
    let ang: i64 = if cov.m01 == 0 {
        if cov.m00 >= cov.m11 {
            0
        } else {
            HALF_PI
        }
    } else {
        atan2_fx(l0 - cov.m00, cov.m01)
    };
    Ok((a, b, ang))
}

/// Vertex `i` of the sampled ellipse: the axis-aligned point at angle
/// `i / 10` rad, rotated by the ellipse's angle and translated to its
/// center.
pub open spec fn ellipse_point_s(xc: int, yc: int, a: int, b: int, ang: int, i: int) -> Option<
    Point,
> {
    let t = i * (ANG_STEP as int);
    let sc = sin_cos_s(t);
    let rot = sin_cos_s(ang);
    let px = tdiv(a * sc.1, SCALE as int);
    let py = tdiv(b * sc.0, SCALE as int);
    let ex = match narrow1_s(px * rot.1 - py * rot.0) {
        Some(d) => add_rng_s(xc, d as int),
        None => None,
    };
    let ey = match narrow1_s(px * rot.0 + py * rot.1) {
        Some(d) => add_rng_s(yc, d as int),
        None => None,
    };
    if ex is Some && ey is Some {
        Some(Point { x: ex->Some_0, y: ey->Some_0 })
    } else {
        None
    }
}

/// Compute one sampled ellipse vertex.
fn ellipse_point(xc: i64, yc: i64, a: i64, b: i64, ang: i64, i: usize) -> (r: Option<Point>)
    requires
        in_range(xc as int),
        in_range(yc as int),
        in_range(a as int),
        in_range(b as int),
        in_range(ang as int),
        i < N_VERTICES,
    ensures
        r == ellipse_point_s(xc as int, yc as int, a as int, b as int, ang as int, i as int),
{
    let t: i64 = (i as i64) * ANG_STEP;
    let (sn, cs) = sin_cos_fx(t);
    let (rs, rc) = sin_cos_fx(ang);
    let px = unit_scale(a, cs);
    let py = unit_scale(b, sn);
    let ex = match narrow1(mul2(px, rc) - mul2(py, rs)) {
        Some(d) => add_rng(xc, d),
        None => None,
    };
    let ey = match narrow1(mul2(px, rs) + mul2(py, rc)) {
        Some(d) => add_rng(yc, d),
        None => None,
    };
    if ex.is_some() && ey.is_some() {
        Some(Point { x: ex.unwrap(), y: ey.unwrap() })
    } else {
        None
    }
}

/// Sample the ellipse as a closed polyline: 63 vertices at 0.1 rad steps
/// over a full turn.
pub fn ellipse_polyline(xc: i64, yc: i64, a: i64, b: i64, ang: i64) -> (r: Result<
    Vec<Point>,
    EkfError,
>)
    requires
        in_range(xc as int),
        in_range(yc as int),
        in_range(a as int),
        in_range(b as int),
        in_range(ang as int),
    ensures
        r matches Ok(v) ==> v@.len() == N_VERTICES && (forall|i: int|
            0 <= i < N_VERTICES ==> #[trigger] ellipse_point_s(
                xc as int,
                yc as int,
                a as int,
                b as int,
                ang as int,
                i,
            ) is Some && v@[i] == ellipse_point_s(
                xc as int,
                yc as int,
                a as int,
                b as int,
                ang as int,
                i,
            )->Some_0),
        r matches Err(e) ==> e == EkfError::OutOfRange && (exists|i: int|
            0 <= i < N_VERTICES && #[trigger] ellipse_point_s(
                xc as int,
                yc as int,
                a as int,
                b as int,
                ang as int,
                i,
            ) is None),
{
    let mut v: Vec<Point> = Vec::new();
    let mut i: usize = 0;
    while i < N_VERTICES
        invariant
            0 <= i <= N_VERTICES,
            v@.len() == i,
            in_range(xc as int),
            in_range(yc as int),
            in_range(a as int),
            in_range(b as int),
            in_range(ang as int),
            forall|j: int|
                0 <= j < i ==> #[trigger] ellipse_point_s(
                    xc as int,
                    yc as int,
                    a as int,
                    b as int,
                    ang as int,
                    j,
                ) is Some && v@[j] == ellipse_point_s(
                    xc as int,
                    yc as int,
                    a as int,
                    b as int,
                    ang as int,
                    j,
                )->Some_0,
        decreases N_VERTICES - i,
    {
        match ellipse_point(xc, yc, a, b, ang, i) {
            Some(p) => {
                v.push(p);
                i = i + 1;
            },
            None => {
                return Err(EkfError::OutOfRange);
            },
        }
    }
    Ok(v)
}

/// Pair two coordinate sequences into one polyline, vertex by vertex.
pub fn points_to_polyline(xs: &Vec<i64>, ys: &Vec<i64>) -> (r: Vec<Point>)
    ensures
        r@.len() == (if xs@.len() <= ys@.len() {
            xs@.len()
        } else {
            ys@.len()
        }),
        forall|i: int| 0 <= i < r@.len() ==> #[trigger] r@[i] == (Point { x: xs@[i], y: ys@[i] }),
{
    let n: usize = if xs.len() <= ys.len() {
        xs.len()
    } else {
        ys.len()
    };
    let mut r: Vec<Point> = Vec::new();
    let mut i: usize = 0;
    while i < n
        invariant
            0 <= i <= n,
            n == (if xs@.len() <= ys@.len() {
                xs@.len()
            } else {
                ys@.len()
            }),
            r@.len() == i,
            forall|j: int| 0 <= j < i ==> #[trigger] r@[j] == (Point { x: xs@[j], y: ys@[j] }),
        decreases n - i,
    {
        r.push(Point { x: xs[i], y: ys[i] });
        i = i + 1;
    }
    r
}

} // verus!
