//! Fixed-point scalar arithmetic: an `i64` raw value stands for `raw / 2^24`.
//!
//! Products are accumulated exactly in `i128` and rescaled with a single
//! truncating division, so every operation has an exact integer
//! specification. Values whose magnitude exceeds [`BOUND`] are rejected
//! rather than wrapped.

use vstd::prelude::*;

verus! {

/// Number of raw units per real unit.
pub const SCALE: i64 = 0x1000000;

/// `SCALE * SCALE`, the rescaling divisor after a product of two scaled values.
pub const SCALE2: i128 = 0x1000000000000;

/// Largest admitted magnitude of any scalar (2^40 raw units, 65536 real units).
pub const BOUND: i64 = 0x10000000000;

/// Magnitude of an integer.
pub open spec fn abs_i(a: int) -> int {
    if a >= 0 { a } else { -a }
}

/// Division truncating toward zero, for a positive divisor.
pub open spec fn tdiv(a: int, d: int) -> int
    recommends
        d > 0,
{
    if a >= 0 {
        a / d
    } else {
        -((-a) / d)
    }
}

/// A scalar the crate admits: within `[-BOUND, BOUND]`.
pub open spec fn in_range(a: int) -> bool {
    -(BOUND as int) <= a <= BOUND as int
}

proof fn lemma_div_pos_bound(a: int, d: int)
    requires
        a >= 0,
        d > 0,
    ensures
        0 <= a / d <= a,
{
    vstd::arithmetic::div_mod::lemma_div_pos_is_pos(a, d);
    vstd::arithmetic::div_mod::lemma_div_nonincreasing(a, d);
}

/// Truncating division shrinks magnitudes: `|a / d| <= |a|`.
pub proof fn lemma_tdiv_bound(a: int, d: int)
    requires
        d > 0,
    ensures
        abs_i(tdiv(a, d)) <= abs_i(a),
        abs_i(tdiv(a, d)) <= abs_i(a) / d,
{
    if a >= 0 {
        lemma_div_pos_bound(a, d);
    } else {
        lemma_div_pos_bound(-a, d);
    }
}

/// Product magnitudes multiply: `|a| <= ba` and `|b| <= bb` give `|a*b| <= ba*bb`.
pub proof fn lemma_mul_abs_bound(a: int, b: int, ba: int, bb: int)
    requires
        abs_i(a) <= ba,
        abs_i(b) <= bb,
    ensures
        abs_i(a * b) <= ba * bb,
{
    assert(abs_i(a * b) <= ba * bb) by (nonlinear_arith)
        requires
            abs_i(a) <= ba,
            abs_i(b) <= bb,
    ;
}

/// Truncating division of an `i64` value by a positive divisor.
pub fn tdiv_i64(a: i64, d: i64) -> (r: i64)
    requires
        d > 0,
        a != i64::MIN,
    ensures
        r == tdiv(a as int, d as int),
        abs_i(r as int) <= abs_i(a as int),
        abs_i(r as int) <= abs_i(a as int) / (d as int),
        a >= 0 ==> r >= 0,
{
    proof {
        lemma_tdiv_bound(a as int, d as int);
        if a >= 0 {
            vstd::arithmetic::div_mod::lemma_div_pos_is_pos(a as int, d as int);
        }
    }
    if a >= 0 {
        let q: u64 = (a as u64) / (d as u64);
        q as i64
    } else {
        let m: i64 = -a;
        let q: u64 = (m as u64) / (d as u64);
        -(q as i64)
    }
}

/// Exact product of two scalars, at most double range each, in `i128`.
pub fn mul2(a: i64, b: i64) -> (r: i128)
    requires
        abs_i(a as int) <= 0x20000000000,
        abs_i(b as int) <= 0x20000000000,
    ensures
        r == (a as int) * (b as int),
        abs_i(r as int) <= 0x400000000000000000000,
{
    proof {
        lemma_mul_abs_bound(a as int, b as int, 0x20000000000, 0x20000000000);
    }
    (a as i128) * (b as i128)
}

/// Exact product of three admitted scalars in `i128`.
pub fn mul3(a: i64, b: i64, c: i64) -> (r: i128)
    requires
        in_range(a as int),
        in_range(b as int),
        in_range(c as int),
    ensures
        r == (a as int) * (b as int) * (c as int),
        abs_i(r as int) <= 0x1000000000000000000000000000000,
{
    proof {
        lemma_mul_abs_bound(a as int, b as int, 0x10000000000, 0x10000000000);
        lemma_mul_abs_bound(
            (a as int) * (b as int),
            c as int,
            0x100000000000000000000,
            0x10000000000,
        );
    }
    (a as i128) * (b as i128) * (c as i128)
}

/// Rescale the product of an admitted scalar, a unit-bounded scalar and a
/// small constant by `SCALE^2`; the result is always in range.
pub fn smalldiv3(a: i64, b: i64, c: i64) -> (r: i64)
    requires
        in_range(a as int),
        abs_i(b as int) <= SCALE,
        abs_i(c as int) <= 0x200000,
    ensures
        r == tdiv((a as int) * (b as int) * (c as int), SCALE2 as int),
        abs_i(r as int) <= 0x2000000000,
        in_range(r as int),
{
    proof {
        lemma_mul_abs_bound(a as int, b as int, 0x10000000000, 0x1000000);
        lemma_mul_abs_bound((a as int) * (b as int), c as int, 0x10000000000000000, 0x200000);
        lemma_tdiv_bound((a as int) * (b as int) * (c as int), SCALE2 as int);
        vstd::arithmetic::div_mod::lemma_div_is_ordered(
            abs_i((a as int) * (b as int) * (c as int)),
            0x2000000000000000000000,
            SCALE2 as int,
        );
    }
    let p: i128 = (a as i128) * (b as i128) * (c as i128);
    tdiv_i128(p, SCALE2) as i64
}

/// Rescale the product of an admitted scalar and a small constant by
/// `SCALE`; the result is always in range.
pub fn smalldiv2(a: i64, b: i64) -> (r: i64)
    requires
        in_range(a as int),
        abs_i(b as int) <= 0x200000,
    ensures
        r == tdiv((a as int) * (b as int), SCALE as int),
        abs_i(r as int) <= 0x2000000000,
        in_range(r as int),
{
    proof {
        lemma_mul_abs_bound(a as int, b as int, 0x10000000000, 0x200000);
        lemma_tdiv_bound((a as int) * (b as int), SCALE as int);
        vstd::arithmetic::div_mod::lemma_div_is_ordered(
            abs_i((a as int) * (b as int)),
            0x2000000000000000,
            SCALE as int,
        );
    }
    let p: i128 = (a as i128) * (b as i128);
    tdiv_i128(p, SCALE as i128) as i64
}

/// Rescale the product of an admitted scalar and a unit-bounded scalar by
/// `SCALE`; the result is always in range.
pub fn unit_scale(a: i64, c: i64) -> (r: i64)
    requires
        in_range(a as int),
        abs_i(c as int) <= SCALE,
    ensures
        r == tdiv((a as int) * (c as int), SCALE as int),
        in_range(r as int),
{
    proof {
        lemma_mul_abs_bound(a as int, c as int, 0x10000000000, 0x1000000);
        lemma_tdiv_bound((a as int) * (c as int), SCALE as int);
        vstd::arithmetic::div_mod::lemma_div_is_ordered(
            abs_i((a as int) * (c as int)),
            0x10000000000000000,
            SCALE as int,
        );
    }
    let p: i128 = (a as i128) * (c as i128);
    tdiv_i128(p, SCALE as i128) as i64
}

/// Integer square root, as a recursive specification.
pub open spec fn isqrt_s(n: int) -> int
    recommends
        n >= 0,
    decreases n,
{
    if n <= 0 {
        0
    } else {
        let r = 2 * isqrt_s(n / 4);
        if (r + 1) * (r + 1) <= n {
            r + 1
        } else {
            r
        }
    }
}

/// [`isqrt_s`] brackets its argument between consecutive squares.
pub proof fn lemma_isqrt_bounds(n: int)
    requires
        n >= 0,
    ensures
        isqrt_s(n) >= 0,
        isqrt_s(n) * isqrt_s(n) <= n,
        (isqrt_s(n) + 1) * (isqrt_s(n) + 1) > n,
    decreases n,
{
    if n > 0 {
        vstd::arithmetic::div_mod::lemma_div_pos_is_pos(n, 4);
        vstd::arithmetic::div_mod::lemma_div_is_strictly_smaller(n, 4);
        lemma_isqrt_bounds(n / 4);
        let s = isqrt_s(n / 4);
        let r = 2 * s;
        assert(n < 4 * (n / 4) + 4) by {
            vstd::arithmetic::div_mod::lemma_fundamental_div_mod(n, 4);
        };
        assert((r + 2) * (r + 2) > n) by (nonlinear_arith)
            requires
                r == 2 * s,
                (s + 1) * (s + 1) > n / 4,
                n < 4 * (n / 4) + 4,
        ;
        assert(r * r <= n) by (nonlinear_arith)
            requires
                r == 2 * s,
                s * s <= n / 4,
                4 * (n / 4) <= n,
        ;
        assert(4 * (n / 4) <= n) by {
            vstd::arithmetic::div_mod::lemma_fundamental_div_mod(n, 4);
        };
    }
}

/// Any value bracketed between consecutive squares is the integer square root.
pub proof fn lemma_isqrt_unique(n: int, r: int)
    requires
        n >= 0,
        r >= 0,
        r * r <= n,
        (r + 1) * (r + 1) > n,
    ensures
        r == isqrt_s(n),
{
    lemma_isqrt_bounds(n);
    let q = isqrt_s(n);
    if r < q {
        assert(false) by (nonlinear_arith)
            requires
                0 <= r < q,
                (r + 1) * (r + 1) > n,
                q * q <= n,
        ;
    }
    if r > q {
        assert(false) by (nonlinear_arith)
            requires
                0 <= q < r,
                (q + 1) * (q + 1) > n,
                r * r <= n,
        ;
    }
}

/// Integer square root by bisection.
pub fn isqrt(x: u128) -> (r: u64)
    ensures
        r as int == isqrt_s(x as int),
{
    let mut lo: u128 = 0;
    let mut hi: u128 = 0x10000000000000000;
    while hi - lo > 1
        invariant
            0 <= lo < hi <= 0x10000000000000000,
            lo * lo <= x as int,
            hi * hi > x as int,
        decreases hi - lo,
    {
        let mid: u128 = lo + (hi - lo) / 2;
        proof {
            lemma_mul_abs_bound(mid as int, mid as int, 0xffffffffffffffff, 0xffffffffffffffff);
        }
        if mid * mid <= x {
            lo = mid;
        } else {
            hi = mid;
        }
    }
    proof {
        lemma_isqrt_unique(x as int, lo as int);
    }
    lo as u64
}

/// Square root of an admitted non-negative fixed-point scalar.
pub open spec fn sqrt_fx_s(a: int) -> int {
    isqrt_s(a * SCALE)
}

/// Fixed-point square root: `sqrt(a / S) * S == isqrt(a * S)`.
pub fn sqrt_fx(a: i64) -> (r: i64)
    requires
        0 <= a <= BOUND,
    ensures
        r == sqrt_fx_s(a as int),
        0 <= r <= BOUND,
{
    proof {
        lemma_isqrt_bounds(a as int * SCALE);
        let q = isqrt_s(a as int * SCALE);
        assert(q <= BOUND) by (nonlinear_arith)
            requires
                q >= 0,
                q * q <= a as int * SCALE,
                a <= BOUND,
                BOUND as int * BOUND >= BOUND as int * SCALE,
                SCALE == 0x1000000,
                BOUND == 0x10000000000,
        ;
    }
    let prod: u128 = (a as u128) * (SCALE as u128);
    let r = isqrt(prod);
    r as i64
}

/// Truncating division of an exact `i128` product sum by a positive divisor.
pub fn tdiv_i128(a: i128, d: i128) -> (r: i128)
    requires
        d > 0,
        a != i128::MIN,
    ensures
        r == tdiv(a as int, d as int),
        abs_i(r as int) <= abs_i(a as int),
        abs_i(r as int) <= abs_i(a as int) / (d as int),
{
    proof {
        lemma_tdiv_bound(a as int, d as int);
    }
    if a >= 0 {
        let q: u128 = (a as u128) / (d as u128);
        q as i128
    } else {
        let m: i128 = -a;
        let q: u128 = (m as u128) / (d as u128);
        -(q as i128)
    }
}

/// Division truncating toward zero, for any non-zero divisor.
pub open spec fn sdiv(a: int, d: int) -> int
    recommends
        d != 0,
{
    if d >= 0 {
        tdiv(a, d)
    } else {
        -tdiv(a, -d)
    }
}

/// Truncating division by a divisor of either sign.
pub fn sdiv_i128(a: i128, d: i128) -> (r: i128)
    requires
        d != 0,
        a != i128::MIN,
        d != i128::MIN,
    ensures
        r == sdiv(a as int, d as int),
        abs_i(r as int) <= abs_i(a as int),
{
    if d > 0 {
        tdiv_i128(a, d)
    } else {
        let q = tdiv_i128(a, -d);
        -q
    }
}

/// Rescale an exact product sum by `SCALE^2` and admit it only in range.
pub fn narrow2(a: i128) -> (r: Option<i64>)
    requires
        a != i128::MIN,
    ensures
        r == narrow2_s(a as int),
{
    let q = tdiv_i128(a, SCALE2);
    if -(BOUND as i128) <= q && q <= BOUND as i128 {
        Some(q as i64)
    } else {
        None
    }
}

/// Specification of [`narrow2`].
pub open spec fn narrow2_s(a: int) -> Option<i64> {
    if in_range(tdiv(a, SCALE2 as int)) {
        Some(tdiv(a, SCALE2 as int) as i64)
    } else {
        None
    }
}

/// Rescale an exact product sum by `SCALE` and admit it only in range.
pub fn narrow1(a: i128) -> (r: Option<i64>)
    requires
        a != i128::MIN,
    ensures
        r == narrow1_s(a as int),
{
    let q = tdiv_i128(a, SCALE as i128);
    if -(BOUND as i128) <= q && q <= BOUND as i128 {
        Some(q as i64)
    } else {
        None
    }
}

/// Specification of [`narrow1`].
pub open spec fn narrow1_s(a: int) -> Option<i64> {
    if in_range(tdiv(a, SCALE as int)) {
        Some(tdiv(a, SCALE as int) as i64)
    } else {
        None
    }
}

/// Sum of two admitted scalars, admitted only in range.
pub fn add_rng(a: i64, b: i64) -> (r: Option<i64>)
    requires
        in_range(a as int),
        in_range(b as int),
    ensures
        r == add_rng_s(a as int, b as int),
{
    let s: i64 = a + b;
    if -BOUND <= s && s <= BOUND {
        Some(s)
    } else {
        None
    }
}

/// Specification of [`add_rng`].
pub open spec fn add_rng_s(a: int, b: int) -> Option<i64> {
    if in_range(a + b) {
        Some((a + b) as i64)
    } else {
        None
    }
}

} // verus!
