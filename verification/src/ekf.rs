//! The extended Kalman filter: motion and observation models, Jacobians,
//! and the predict / update step.
//!
//! Every function mirrors an exact integer specification, so the contract
//! pins the returned value bit for bit. Products of scaled values are
//! accumulated exactly in `i128` and rescaled with a single truncating
//! division; a result outside the admitted range is reported as
//! [`EkfError::OutOfRange`] instead of being wrapped or saturated.

use vstd::prelude::*;

use crate::fixed::{
    abs_i, add_rng, add_rng_s, in_range, mul2, mul3, narrow1, narrow1_s, narrow2, narrow2_s, sdiv,
    sdiv_i128, tdiv, BOUND, SCALE, SCALE2,
};
use crate::mat::{
    ctl_ok, gain_ok, m2_ok, m2_sym, m4_ok, m4_sym, obs_ok, st_ok, Control, Gain, Mat2, Mat2x4,
    Mat4, Obs, State,
};
use crate::trig::{sin_cos_fx, sin_cos_s};
use crate::EkfError;

verus! {

/// Tick duration: 0.1 s in raw units.
pub const DT: i64 = 1677722;

/// Diagonals of the filter's two noise covariances: process noise `Q`
/// (4 x 4 diagonal) and observation noise `R` (2 x 2 diagonal).
#[derive(Clone, Copy, Debug, PartialEq, Eq, Structural)]
pub struct EkfConfig {
    pub q0: i64,
    pub q1: i64,
    pub q2: i64,
    pub q3: i64,
    pub r0: i64,
    pub r1: i64,
}

/// A valid configuration: both diagonals non-negative (positive
/// semi-definite) and representable.
pub open spec fn cfg_ok(c: EkfConfig) -> bool {
    0 <= c.q0 <= BOUND && 0 <= c.q1 <= BOUND && 0 <= c.q2 <= BOUND && 0 <= c.q3 <= BOUND && 0
        <= c.r0 <= BOUND && 0 <= c.r1 <= BOUND
}

impl EkfConfig {
    /// Accept a configuration exactly when both covariance diagonals are
    /// positive semi-definite and representable; reject it eagerly otherwise.
    pub fn new(q0: i64, q1: i64, q2: i64, q3: i64, r0: i64, r1: i64) -> (r: Result<
        EkfConfig,
        EkfError,
    >)
        ensures
            (0 <= q0 <= BOUND && 0 <= q1 <= BOUND && 0 <= q2 <= BOUND && 0 <= q3 <= BOUND && 0
                <= r0 <= BOUND && 0 <= r1 <= BOUND) <==> r == Ok::<EkfConfig, EkfError>(
                EkfConfig { q0, q1, q2, q3, r0, r1 },
            ),
            r is Err ==> r == Err::<EkfConfig, EkfError>(EkfError::InvalidConfiguration),
            r matches Ok(c) ==> cfg_ok(c),
    {
        if 0 <= q0 && q0 <= BOUND && 0 <= q1 && q1 <= BOUND && 0 <= q2 && q2 <= BOUND && 0 <= q3
            && q3 <= BOUND && 0 <= r0 && r0 <= BOUND && 0 <= r1 && r1 <= BOUND {
            Ok(EkfConfig { q0, q1, q2, q3, r0, r1 })
        } else {
            Err(EkfError::InvalidConfiguration)
        }
    }
}

/// The discrete unicycle motion model.
///
/// Position advances by the control velocity rotated through the prior
/// heading and scaled by the tick; heading advances by the yaw rate. The
/// next velocity is written entirely by the control: the state's own
/// velocity component is deliberately not fed forward, which makes the
/// transition rank-deficient in that dimension by design.
pub open spec fn motion_s(x: State, u: Control) -> Option<State> {
    let sc = sin_cos_s(x.yaw as int);
    let dx = tdiv(u.v * sc.1 * DT, SCALE2 as int);
    let dy = tdiv(u.v * sc.0 * DT, SCALE2 as int);
    let dyaw = tdiv(u.yawrate * DT, SCALE as int);
    if in_range(x.x + dx) && in_range(x.y + dy) && in_range(x.yaw + dyaw) {
        Some(
            State {
                x: (x.x + dx) as i64,
                y: (x.y + dy) as i64,
                yaw: (x.yaw + dyaw) as i64,
                v: u.v,
            },
        )
    } else {
        None
    }
}

/// Advance a state one tick under a control input.
pub fn motion_model(x: &State, u: &Control) -> (r: Option<State>)
    requires
        st_ok(*x),
        ctl_ok(*u),
    ensures
        r == motion_s(*x, *u),
        r matches Some(s) ==> st_ok(s),
{
    let (sn, cs) = sin_cos_fx(x.yaw);
    let dx = crate::fixed::smalldiv3(u.v, cs, DT);
    let dy = crate::fixed::smalldiv3(u.v, sn, DT);
    let dyaw = crate::fixed::smalldiv2(u.yawrate, DT);
    let nx: i64 = x.x + dx;
    let ny: i64 = x.y + dy;
    let nyaw: i64 = x.yaw + dyaw;
    if -BOUND <= nx && nx <= BOUND && -BOUND <= ny && ny <= BOUND && -BOUND <= nyaw && nyaw
        <= BOUND {
        Some(State { x: nx, y: ny, yaw: nyaw, v: u.v })
    } else {
        None
    }
}

/// The linear observation model: the measured planar position.
pub open spec fn observe_s(x: State) -> Obs {
    Obs { x: x.x, y: x.y }
}

/// Project a state onto its observable components.
pub fn observation_model(x: &State) -> (r: Obs)
    ensures
        r == observe_s(*x),
{
    Obs { x: x.x, y: x.y }
}

/// Jacobian of the motion model at a linearization point.
pub open spec fn jacob_f_s(x: State, u: Control) -> Mat4 {
    let sc = sin_cos_s(x.yaw as int);
    Mat4 {
        m00: SCALE,
        m01: 0,
        m02: (-tdiv(u.v * sc.0 * DT, SCALE2 as int)) as i64,
        m03: tdiv(sc.1 * DT, SCALE as int) as i64,
        m10: 0,
        m11: SCALE,
        m12: tdiv(u.v * sc.1 * DT, SCALE2 as int) as i64,
        m13: tdiv(sc.0 * DT, SCALE as int) as i64,
        m20: 0,
        m21: 0,
        m22: SCALE,
        m23: 0,
        m30: 0,
        m31: 0,
        m32: 0,
        m33: SCALE,
    }
}

/// Linearize the motion model at the given state and control.
pub fn jacob_f(x: &State, u: &Control) -> (r: Mat4)
    requires
        st_ok(*x),
        ctl_ok(*u),
    ensures
        r == jacob_f_s(*x, *u),
        m4_ok(r),
{
    let (sn, cs) = sin_cos_fx(x.yaw);
    let dvs = crate::fixed::smalldiv3(u.v, sn, DT);
    let dvc = crate::fixed::smalldiv3(u.v, cs, DT);
    let dc = crate::fixed::smalldiv2(cs, DT);
    let ds = crate::fixed::smalldiv2(sn, DT);
    Mat4 {
        m00: SCALE,
        m01: 0,
        m02: -dvs,
        m03: dc,
        m10: 0,
        m11: SCALE,
        m12: dvc,
        m13: ds,
        m20: 0,
        m21: 0,
        m22: SCALE,
        m23: 0,
        m30: 0,
        m31: 0,
        m32: 0,
        m33: SCALE,
    }
}

/// Jacobian of the observation model: the constant selection of position.
pub open spec fn jacob_h_s() -> Mat2x4 {
    Mat2x4 { m00: SCALE, m01: 0, m02: 0, m03: 0, m10: 0, m11: SCALE, m12: 0, m13: 0 }
}

/// The observation Jacobian; the model is linear, so this is the model itself.
pub fn jacob_h() -> (r: Mat2x4)
    ensures
        r == jacob_h_s(),
{
    Mat2x4 { m00: SCALE, m01: 0, m02: 0, m03: 0, m10: 0, m11: SCALE, m12: 0, m13: 0 }
}

/// The quadratic form `u^T . P . v` over a 4 x 4 matrix, exactly.
pub open spec fn quad4_s(u: (int, int, int, int), p: Mat4, v: (int, int, int, int)) -> int {
    u.0 * p.m00 * v.0 + u.0 * p.m01 * v.1 + u.0 * p.m02 * v.2 + u.0 * p.m03 * v.3 + u.1 * p.m10
        * v.0 + u.1 * p.m11 * v.1 + u.1 * p.m12 * v.2 + u.1 * p.m13 * v.3 + u.2 * p.m20 * v.0 + u.2
        * p.m21 * v.1 + u.2 * p.m22 * v.2 + u.2 * p.m23 * v.3 + u.3 * p.m30 * v.0 + u.3 * p.m31
        * v.1 + u.3 * p.m32 * v.2 + u.3 * p.m33 * v.3
}

/// The quadratic form `u^T . S . v` over a 2 x 2 matrix, exactly.
pub open spec fn quad2_s(u: (int, int), s: Mat2, v: (int, int)) -> int {
    u.0 * s.m00 * v.0 + u.0 * s.m01 * v.1 + u.1 * s.m10 * v.0 + u.1 * s.m11 * v.1
}

/// Row `i` of a 4 x 4 matrix as a tuple of integers.
pub open spec fn row0(m: Mat4) -> (int, int, int, int) {
    (m.m00 as int, m.m01 as int, m.m02 as int, m.m03 as int)
}

pub open spec fn row1(m: Mat4) -> (int, int, int, int) {
    (m.m10 as int, m.m11 as int, m.m12 as int, m.m13 as int)
}

pub open spec fn row2(m: Mat4) -> (int, int, int, int) {
    (m.m20 as int, m.m21 as int, m.m22 as int, m.m23 as int)
}

pub open spec fn row3(m: Mat4) -> (int, int, int, int) {
    (m.m30 as int, m.m31 as int, m.m32 as int, m.m33 as int)
}

/// Exact `i128` evaluation of one row's contribution to [`quad4_s`]:
/// `u_a * (p_a0 v_0 + p_a1 v_1 + p_a2 v_2 + p_a3 v_3)`, written out.
fn quad4_row(
    u: i64,
    p0: i64,
    p1: i64,
    p2: i64,
    p3: i64,
    v0: i64,
    v1: i64,
    v2: i64,
    v3: i64,
) -> (r: i128)
    requires
        in_range(u as int),
        in_range(p0 as int),
        in_range(p1 as int),
        in_range(p2 as int),
        in_range(p3 as int),
        in_range(v0 as int),
        in_range(v1 as int),
        in_range(v2 as int),
        in_range(v3 as int),
    ensures
        r == (u as int) * (p0 as int) * (v0 as int) + (u as int) * (p1 as int) * (v1 as int) + (
        u as int) * (p2 as int) * (v2 as int) + (u as int) * (p3 as int) * (v3 as int),
        abs_i(r as int) <= 0x4000000000000000000000000000000,
{
    mul3(u, p0, v0) + mul3(u, p1, v1) + mul3(u, p2, v2) + mul3(u, p3, v3)
}

/// Exact `i128` evaluation of [`quad4_s`].
#[verifier::rlimit(100)]
fn quad4(
    u0: i64,
    u1: i64,
    u2: i64,
    u3: i64,
    p: &Mat4,
    v0: i64,
    v1: i64,
    v2: i64,
    v3: i64,
) -> (r: i128)
    requires
        in_range(u0 as int),
        in_range(u1 as int),
        in_range(u2 as int),
        in_range(u3 as int),
        in_range(v0 as int),
        in_range(v1 as int),
        in_range(v2 as int),
        in_range(v3 as int),
        m4_ok(*p),
    ensures
        r == quad4_s((u0 as int, u1 as int, u2 as int, u3 as int), *p, (v0 as int, v1 as int, v2 as int, v3 as int)),
        abs_i(r as int) <= 0x10000000000000000000000000000000,
{
    let r0 = quad4_row(u0, p.m00, p.m01, p.m02, p.m03, v0, v1, v2, v3);
    let r1 = quad4_row(u1, p.m10, p.m11, p.m12, p.m13, v0, v1, v2, v3);
    let r2 = quad4_row(u2, p.m20, p.m21, p.m22, p.m23, v0, v1, v2, v3);
    let r3 = quad4_row(u3, p.m30, p.m31, p.m32, p.m33, v0, v1, v2, v3);
    r0 + r1 + r2 + r3
}

/// Exact `i128` evaluation of [`quad2_s`].
fn quad2(u0: i64, u1: i64, s: &Mat2, v0: i64, v1: i64) -> (r: i128)
    requires
        in_range(u0 as int),
        in_range(u1 as int),
        in_range(v0 as int),
        in_range(v1 as int),
        m2_ok(*s),
    ensures
        r == quad2_s((u0 as int, u1 as int), *s, (v0 as int, v1 as int)),
        abs_i(r as int) <= 0x4000000000000000000000000000000,
{
    mul3(u0, s.m00, v0) + mul3(u0, s.m01, v1) + mul3(u1, s.m10, v0) + mul3(u1, s.m11, v1)
}

/// One entry of the predicted covariance: the rescaled quadratic form plus
/// the process-noise diagonal term.
pub open spec fn pp_entry_s(t: int, q: int) -> Option<i64> {
    match narrow2_s(t) {
        Some(c) => add_rng_s(c as int, q),
        None => None,
    }
}

/// Executable form of [`pp_entry_s`].
fn pp_entry(t: i128, q: i64) -> (r: Option<i64>)
    requires
        t != i128::MIN,
        0 <= q <= BOUND,
    ensures
        r == pp_entry_s(t as int, q as int),
        r matches Some(c) ==> in_range(c as int),
{
    match narrow2(t) {
        Some(c) => add_rng(c, q),
        None => None,
    }
}

/// The predicted covariance `Jf . P . Jf^T + Q`.
///
/// Each entry is the exact quadratic form, rescaled once, so equal products
/// truncate identically and symmetry of `P` carries over to the result.
pub open spec fn predict_cov_s(jf: Mat4, p: Mat4, cfg: EkfConfig) -> Option<Mat4> {
    let e00 = pp_entry_s(quad4_s(row0(jf), p, row0(jf)), cfg.q0 as int);
    let e01 = pp_entry_s(quad4_s(row0(jf), p, row1(jf)), 0);
    let e02 = pp_entry_s(quad4_s(row0(jf), p, row2(jf)), 0);
    let e03 = pp_entry_s(quad4_s(row0(jf), p, row3(jf)), 0);
    let e10 = pp_entry_s(quad4_s(row1(jf), p, row0(jf)), 0);
    let e11 = pp_entry_s(quad4_s(row1(jf), p, row1(jf)), cfg.q1 as int);
    let e12 = pp_entry_s(quad4_s(row1(jf), p, row2(jf)), 0);
    let e13 = pp_entry_s(quad4_s(row1(jf), p, row3(jf)), 0);
    let e20 = pp_entry_s(quad4_s(row2(jf), p, row0(jf)), 0);
    let e21 = pp_entry_s(quad4_s(row2(jf), p, row1(jf)), 0);
    let e22 = pp_entry_s(quad4_s(row2(jf), p, row2(jf)), cfg.q2 as int);
    let e23 = pp_entry_s(quad4_s(row2(jf), p, row3(jf)), 0);
    let e30 = pp_entry_s(quad4_s(row3(jf), p, row0(jf)), 0);
    let e31 = pp_entry_s(quad4_s(row3(jf), p, row1(jf)), 0);
    let e32 = pp_entry_s(quad4_s(row3(jf), p, row2(jf)), 0);
    let e33 = pp_entry_s(quad4_s(row3(jf), p, row3(jf)), cfg.q3 as int);
    if e00 is Some && e01 is Some && e02 is Some && e03 is Some && e10 is Some && e11 is Some
        && e12 is Some && e13 is Some && e20 is Some && e21 is Some && e22 is Some && e23 is Some
        && e30 is Some && e31 is Some && e32 is Some && e33 is Some {
        Some(
            Mat4 {
                m00: e00->Some_0,
                m01: e01->Some_0,
                m02: e02->Some_0,
                m03: e03->Some_0,
                m10: e10->Some_0,
                m11: e11->Some_0,
                m12: e12->Some_0,
                m13: e13->Some_0,
                m20: e20->Some_0,
                m21: e21->Some_0,
                m22: e22->Some_0,
                m23: e23->Some_0,
                m30: e30->Some_0,
                m31: e31->Some_0,
                m32: e32->Some_0,
                m33: e33->Some_0,
            },
        )
    } else {
        None
    }
}

/// Propagate the covariance through the linearized motion model.
pub fn predict_cov(jf: &Mat4, p: &Mat4, cfg: &EkfConfig) -> (r: Option<Mat4>)
    requires
        m4_ok(*jf),
        m4_ok(*p),
        cfg_ok(*cfg),
    ensures
        r == predict_cov_s(*jf, *p, *cfg),
        r matches Some(m) ==> m4_ok(m),
{
    let e00 = pp_entry(
        quad4(jf.m00, jf.m01, jf.m02, jf.m03, p, jf.m00, jf.m01, jf.m02, jf.m03),
        cfg.q0,
    );
    let e01 = pp_entry(quad4(jf.m00, jf.m01, jf.m02, jf.m03, p, jf.m10, jf.m11, jf.m12, jf.m13), 0);
    let e02 = pp_entry(quad4(jf.m00, jf.m01, jf.m02, jf.m03, p, jf.m20, jf.m21, jf.m22, jf.m23), 0);
    let e03 = pp_entry(quad4(jf.m00, jf.m01, jf.m02, jf.m03, p, jf.m30, jf.m31, jf.m32, jf.m33), 0);
    let e10 = pp_entry(quad4(jf.m10, jf.m11, jf.m12, jf.m13, p, jf.m00, jf.m01, jf.m02, jf.m03), 0);
    let e11 = pp_entry(
        quad4(jf.m10, jf.m11, jf.m12, jf.m13, p, jf.m10, jf.m11, jf.m12, jf.m13),
        cfg.q1,
    );
    let e12 = pp_entry(quad4(jf.m10, jf.m11, jf.m12, jf.m13, p, jf.m20, jf.m21, jf.m22, jf.m23), 0);
    let e13 = pp_entry(quad4(jf.m10, jf.m11, jf.m12, jf.m13, p, jf.m30, jf.m31, jf.m32, jf.m33), 0);
    let e20 = pp_entry(quad4(jf.m20, jf.m21, jf.m22, jf.m23, p, jf.m00, jf.m01, jf.m02, jf.m03), 0);
    let e21 = pp_entry(quad4(jf.m20, jf.m21, jf.m22, jf.m23, p, jf.m10, jf.m11, jf.m12, jf.m13), 0);
    let e22 = pp_entry(
        quad4(jf.m20, jf.m21, jf.m22, jf.m23, p, jf.m20, jf.m21, jf.m22, jf.m23),
        cfg.q2,
    );
    let e23 = pp_entry(quad4(jf.m20, jf.m21, jf.m22, jf.m23, p, jf.m30, jf.m31, jf.m32, jf.m33), 0);
    let e30 = pp_entry(quad4(jf.m30, jf.m31, jf.m32, jf.m33, p, jf.m00, jf.m01, jf.m02, jf.m03), 0);
    let e31 = pp_entry(quad4(jf.m30, jf.m31, jf.m32, jf.m33, p, jf.m10, jf.m11, jf.m12, jf.m13), 0);
    let e32 = pp_entry(quad4(jf.m30, jf.m31, jf.m32, jf.m33, p, jf.m20, jf.m21, jf.m22, jf.m23), 0);
    let e33 = pp_entry(
        quad4(jf.m30, jf.m31, jf.m32, jf.m33, p, jf.m30, jf.m31, jf.m32, jf.m33),
        cfg.q3,
    );
    if e00.is_some() && e01.is_some() && e02.is_some() && e03.is_some() && e10.is_some()
        && e11.is_some() && e12.is_some() && e13.is_some() && e20.is_some() && e21.is_some()
        && e22.is_some() && e23.is_some() && e30.is_some() && e31.is_some() && e32.is_some()
        && e33.is_some() {
        Some(
            Mat4 {
                m00: e00.unwrap(),
                m01: e01.unwrap(),
                m02: e02.unwrap(),
                m03: e03.unwrap(),
                m10: e10.unwrap(),
                m11: e11.unwrap(),
                m12: e12.unwrap(),
                m13: e13.unwrap(),
                m20: e20.unwrap(),
                m21: e21.unwrap(),
                m22: e22.unwrap(),
                m23: e23.unwrap(),
                m30: e30.unwrap(),
                m31: e31.unwrap(),
                m32: e32.unwrap(),
                m33: e33.unwrap(),
            },
        )
    } else {
        None
    }
}

/// The innovation covariance `Jh . P_pred . Jh^T + R`: the position block
/// of the predicted covariance plus the observation-noise diagonal.
pub open spec fn innov_s(pp: Mat4, cfg: EkfConfig) -> Option<Mat2> {
    let s00 = add_rng_s(pp.m00 as int, cfg.r0 as int);
    let s11 = add_rng_s(pp.m11 as int, cfg.r1 as int);
    if s00 is Some && s11 is Some {
        Some(Mat2 { m00: s00->Some_0, m01: pp.m01, m10: pp.m10, m11: s11->Some_0 })
    } else {
        None
    }
}

/// Form the innovation covariance.
pub fn innovation_cov(pp: &Mat4, cfg: &EkfConfig) -> (r: Option<Mat2>)
    requires
        m4_ok(*pp),
        cfg_ok(*cfg),
    ensures
        r == innov_s(*pp, *cfg),
        r matches Some(s) ==> m2_ok(s),
{
    let s00 = add_rng(pp.m00, cfg.r0);
    let s11 = add_rng(pp.m11, cfg.r1);
    if s00.is_some() && s11.is_some() {
        Some(Mat2 { m00: s00.unwrap(), m01: pp.m01, m10: pp.m10, m11: s11.unwrap() })
    } else {
        None
    }
}

/// Inverse of a 2 x 2 matrix by the adjugate, or the reason it has none.
pub open spec fn invert2_s(s: Mat2) -> Result<Mat2, EkfError> {
    let det = s.m00 * s.m11 - s.m01 * s.m10;
    if det == 0 {
        Err(EkfError::SingularInnovationCovariance)
    } else {
        let i00 = sdiv(s.m11 * SCALE2, det);
        let i01 = sdiv(-(s.m01 * SCALE2), det);
        let i10 = sdiv(-(s.m10 * SCALE2), det);
        let i11 = sdiv(s.m00 * SCALE2, det);
        if in_range(i00) && in_range(i01) && in_range(i10) && in_range(i11) {
            Ok(Mat2 { m00: i00 as i64, m01: i01 as i64, m10: i10 as i64, m11: i11 as i64 })
        } else {
            Err(EkfError::OutOfRange)
        }
    }
}

/// Invert the innovation covariance, reporting a zero determinant as
/// [`EkfError::SingularInnovationCovariance`].
pub fn invert2(s: &Mat2) -> (r: Result<Mat2, EkfError>)
    requires
        m2_ok(*s),
    ensures
        r == invert2_s(*s),
        r matches Ok(m) ==> m2_ok(m),
{
    let det: i128 = mul2(s.m00, s.m11) - mul2(s.m01, s.m10);
    if det == 0 {
        return Err(EkfError::SingularInnovationCovariance);
    }
    proof {
        crate::fixed::lemma_mul_abs_bound(s.m11 as int, SCALE2 as int, 0x10000000000, 0x1000000000000);
        crate::fixed::lemma_mul_abs_bound(s.m01 as int, SCALE2 as int, 0x10000000000, 0x1000000000000);
        crate::fixed::lemma_mul_abs_bound(s.m10 as int, SCALE2 as int, 0x10000000000, 0x1000000000000);
        crate::fixed::lemma_mul_abs_bound(s.m00 as int, SCALE2 as int, 0x10000000000, 0x1000000000000);
    }
    let i00 = sdiv_i128((s.m11 as i128) * SCALE2, det);
    let i01 = sdiv_i128(-((s.m01 as i128) * SCALE2), det);
    let i10 = sdiv_i128(-((s.m10 as i128) * SCALE2), det);
    let i11 = sdiv_i128((s.m00 as i128) * SCALE2, det);
    if -(BOUND as i128) <= i00 && i00 <= BOUND as i128 && -(BOUND as i128) <= i01 && i01
        <= BOUND as i128 && -(BOUND as i128) <= i10 && i10 <= BOUND as i128 && -(BOUND as i128)
        <= i11 && i11 <= BOUND as i128 {
        Ok(Mat2 { m00: i00 as i64, m01: i01 as i64, m10: i10 as i64, m11: i11 as i64 })
    } else {
        Err(EkfError::OutOfRange)
    }
}

/// One entry of the Kalman gain `P_pred . Jh^T . S^-1`.
pub open spec fn gain_entry_s(p0: int, p1: int, s0: int, s1: int) -> Option<i64> {
    narrow1_s(p0 * s0 + p1 * s1)
}

/// The Kalman gain: the first two columns of the predicted covariance
/// multiplied by the inverted innovation covariance.
pub open spec fn kalman_gain_s(pp: Mat4, sinv: Mat2) -> Option<Gain> {
    let e00 = gain_entry_s(pp.m00 as int, pp.m01 as int, sinv.m00 as int, sinv.m10 as int);
    let e01 = gain_entry_s(pp.m00 as int, pp.m01 as int, sinv.m01 as int, sinv.m11 as int);
    let e10 = gain_entry_s(pp.m10 as int, pp.m11 as int, sinv.m00 as int, sinv.m10 as int);
    let e11 = gain_entry_s(pp.m10 as int, pp.m11 as int, sinv.m01 as int, sinv.m11 as int);
    let e20 = gain_entry_s(pp.m20 as int, pp.m21 as int, sinv.m00 as int, sinv.m10 as int);
    let e21 = gain_entry_s(pp.m20 as int, pp.m21 as int, sinv.m01 as int, sinv.m11 as int);
    let e30 = gain_entry_s(pp.m30 as int, pp.m31 as int, sinv.m00 as int, sinv.m10 as int);
    let e31 = gain_entry_s(pp.m30 as int, pp.m31 as int, sinv.m01 as int, sinv.m11 as int);
    if e00 is Some && e01 is Some && e10 is Some && e11 is Some && e20 is Some && e21 is Some
        && e30 is Some && e31 is Some {
        Some(
            Gain {
                m00: e00->Some_0,
                m01: e01->Some_0,
                m10: e10->Some_0,
                m11: e11->Some_0,
                m20: e20->Some_0,
                m21: e21->Some_0,
                m30: e30->Some_0,
                m31: e31->Some_0,
            },
        )
    } else {
        None
    }
}

/// One executable gain entry.
fn gain_entry(p0: i64, p1: i64, s0: i64, s1: i64) -> (r: Option<i64>)
    requires
        in_range(p0 as int),
        in_range(p1 as int),
        in_range(s0 as int),
        in_range(s1 as int),
    ensures
        r == gain_entry_s(p0 as int, p1 as int, s0 as int, s1 as int),
        r matches Some(c) ==> in_range(c as int),
{
    narrow1(mul2(p0, s0) + mul2(p1, s1))
}

/// Compute the Kalman gain.
pub fn kalman_gain(pp: &Mat4, sinv: &Mat2) -> (r: Option<Gain>)
    requires
        m4_ok(*pp),
        m2_ok(*sinv),
    ensures
        r == kalman_gain_s(*pp, *sinv),
        r matches Some(k) ==> gain_ok(k),
{
    let e00 = gain_entry(pp.m00, pp.m01, sinv.m00, sinv.m10);
    let e01 = gain_entry(pp.m00, pp.m01, sinv.m01, sinv.m11);
    let e10 = gain_entry(pp.m10, pp.m11, sinv.m00, sinv.m10);
    let e11 = gain_entry(pp.m10, pp.m11, sinv.m01, sinv.m11);
    let e20 = gain_entry(pp.m20, pp.m21, sinv.m00, sinv.m10);
    let e21 = gain_entry(pp.m20, pp.m21, sinv.m01, sinv.m11);
    let e30 = gain_entry(pp.m30, pp.m31, sinv.m00, sinv.m10);
    let e31 = gain_entry(pp.m30, pp.m31, sinv.m01, sinv.m11);
    if e00.is_some() && e01.is_some() && e10.is_some() && e11.is_some() && e20.is_some()
        && e21.is_some() && e30.is_some() && e31.is_some() {
        Some(
            Gain {
                m00: e00.unwrap(),
                m01: e01.unwrap(),
                m10: e10.unwrap(),
                m11: e11.unwrap(),
                m20: e20.unwrap(),
                m21: e21.unwrap(),
                m30: e30.unwrap(),
                m31: e31.unwrap(),
            },
        )
    } else {
        None
    }
}

/// One component of the corrected state: the base plus the gain applied to
/// the residual.
pub open spec fn us_entry_s(base: int, k0: int, k1: int, rx: int, ry: int) -> Option<i64> {
    match narrow1_s(k0 * rx + k1 * ry) {
        Some(d) => add_rng_s(base, d as int),
        None => None,
    }
}

/// The corrected state `x_pred + K . (z - observe(x_pred))`.
pub open spec fn update_state_s(xp: State, k: Gain, z: Obs) -> Option<State> {
    let rx = z.x - xp.x;
    let ry = z.y - xp.y;
    let ex = us_entry_s(xp.x as int, k.m00 as int, k.m01 as int, rx, ry);
    let ey = us_entry_s(xp.y as int, k.m10 as int, k.m11 as int, rx, ry);
    let eyaw = us_entry_s(xp.yaw as int, k.m20 as int, k.m21 as int, rx, ry);
    let ev = us_entry_s(xp.v as int, k.m30 as int, k.m31 as int, rx, ry);
    if ex is Some && ey is Some && eyaw is Some && ev is Some {
        Some(State { x: ex->Some_0, y: ey->Some_0, yaw: eyaw->Some_0, v: ev->Some_0 })
    } else {
        None
    }
}

/// One executable corrected-state component.
fn us_entry(base: i64, k0: i64, k1: i64, rx: i64, ry: i64) -> (r: Option<i64>)
    requires
        in_range(base as int),
        in_range(k0 as int),
        in_range(k1 as int),
        abs_i(rx as int) <= 0x20000000000,
        abs_i(ry as int) <= 0x20000000000,
    ensures
        r == us_entry_s(base as int, k0 as int, k1 as int, rx as int, ry as int),
        r matches Some(c) ==> in_range(c as int),
{
    match narrow1(mul2(k0, rx) + mul2(k1, ry)) {
        Some(d) => add_rng(base, d),
        None => None,
    }
}

/// Correct the predicted state with the observation residual.
pub fn update_state(xp: &State, k: &Gain, z: &Obs) -> (r: Option<State>)
    requires
        st_ok(*xp),
        gain_ok(*k),
        obs_ok(*z),
    ensures
        r == update_state_s(*xp, *k, *z),
        r matches Some(s) ==> st_ok(s),
{
    let rx: i64 = z.x - xp.x;
    let ry: i64 = z.y - xp.y;
    let ex = us_entry(xp.x, k.m00, k.m01, rx, ry);
    let ey = us_entry(xp.y, k.m10, k.m11, rx, ry);
    let eyaw = us_entry(xp.yaw, k.m20, k.m21, rx, ry);
    let ev = us_entry(xp.v, k.m30, k.m31, rx, ry);
    if ex.is_some() && ey.is_some() && eyaw.is_some() && ev.is_some() {
        Some(State { x: ex.unwrap(), y: ey.unwrap(), yaw: eyaw.unwrap(), v: ev.unwrap() })
    } else {
        None
    }
}

/// One entry of the corrected covariance `P_pred - P_pred Jh^T S^-1 Jh P_pred`.
pub open spec fn uc_entry_s(pij: int, pi0: int, pi1: int, p0j: int, p1j: int, sinv: Mat2) -> Option<
    i64,
> {
    match narrow2_s(quad2_s((pi0, pi1), sinv, (p0j, p1j))) {
        Some(c) => add_rng_s(pij, -(c as int)),
        None => None,
    }
}

/// The corrected covariance.
///
/// With the gain product evaluated exactly before its single rescaling,
/// this equals `(I - K . Jh) . P_pred` in exact arithmetic, and equal
/// products truncate identically, so symmetry is preserved.
pub open spec fn update_cov_s(pp: Mat4, sinv: Mat2) -> Option<Mat4> {
    let e00 = uc_entry_s(pp.m00 as int, pp.m00 as int, pp.m01 as int, pp.m00 as int, pp.m10 as int, sinv);
    let e01 = uc_entry_s(pp.m01 as int, pp.m00 as int, pp.m01 as int, pp.m01 as int, pp.m11 as int, sinv);
    let e02 = uc_entry_s(pp.m02 as int, pp.m00 as int, pp.m01 as int, pp.m02 as int, pp.m12 as int, sinv);
    let e03 = uc_entry_s(pp.m03 as int, pp.m00 as int, pp.m01 as int, pp.m03 as int, pp.m13 as int, sinv);
    let e10 = uc_entry_s(pp.m10 as int, pp.m10 as int, pp.m11 as int, pp.m00 as int, pp.m10 as int, sinv);
    let e11 = uc_entry_s(pp.m11 as int, pp.m10 as int, pp.m11 as int, pp.m01 as int, pp.m11 as int, sinv);
    let e12 = uc_entry_s(pp.m12 as int, pp.m10 as int, pp.m11 as int, pp.m02 as int, pp.m12 as int, sinv);
    let e13 = uc_entry_s(pp.m13 as int, pp.m10 as int, pp.m11 as int, pp.m03 as int, pp.m13 as int, sinv);
    let e20 = uc_entry_s(pp.m20 as int, pp.m20 as int, pp.m21 as int, pp.m00 as int, pp.m10 as int, sinv);
    let e21 = uc_entry_s(pp.m21 as int, pp.m20 as int, pp.m21 as int, pp.m01 as int, pp.m11 as int, sinv);
    let e22 = uc_entry_s(pp.m22 as int, pp.m20 as int, pp.m21 as int, pp.m02 as int, pp.m12 as int, sinv);
    let e23 = uc_entry_s(pp.m23 as int, pp.m20 as int, pp.m21 as int, pp.m03 as int, pp.m13 as int, sinv);
    let e30 = uc_entry_s(pp.m30 as int, pp.m30 as int, pp.m31 as int, pp.m00 as int, pp.m10 as int, sinv);
    let e31 = uc_entry_s(pp.m31 as int, pp.m30 as int, pp.m31 as int, pp.m01 as int, pp.m11 as int, sinv);
    let e32 = uc_entry_s(pp.m32 as int, pp.m30 as int, pp.m31 as int, pp.m02 as int, pp.m12 as int, sinv);
    let e33 = uc_entry_s(pp.m33 as int, pp.m30 as int, pp.m31 as int, pp.m03 as int, pp.m13 as int, sinv);
    if e00 is Some && e01 is Some && e02 is Some && e03 is Some && e10 is Some && e11 is Some
        && e12 is Some && e13 is Some && e20 is Some && e21 is Some && e22 is Some && e23 is Some
        && e30 is Some && e31 is Some && e32 is Some && e33 is Some {
        Some(
            Mat4 {
                m00: e00->Some_0,
                m01: e01->Some_0,
                m02: e02->Some_0,
                m03: e03->Some_0,
                m10: e10->Some_0,
                m11: e11->Some_0,
                m12: e12->Some_0,
                m13: e13->Some_0,
                m20: e20->Some_0,
                m21: e21->Some_0,
                m22: e22->Some_0,
                m23: e23->Some_0,
                m30: e30->Some_0,
                m31: e31->Some_0,
                m32: e32->Some_0,
                m33: e33->Some_0,
            },
        )
    } else {
        None
    }
}

/// One executable corrected-covariance entry.
fn uc_entry(pij: i64, pi0: i64, pi1: i64, p0j: i64, p1j: i64, sinv: &Mat2) -> (r: Option<i64>)
    requires
        in_range(pij as int),
        in_range(pi0 as int),
        in_range(pi1 as int),
        in_range(p0j as int),
        in_range(p1j as int),
        m2_ok(*sinv),
    ensures
        r == uc_entry_s(pij as int, pi0 as int, pi1 as int, p0j as int, p1j as int, *sinv),
        r matches Some(c) ==> in_range(c as int),
{
    match narrow2(quad2(pi0, pi1, sinv, p0j, p1j)) {
        Some(c) => add_rng(pij, -c),
        None => None,
    }
}

/// Correct the predicted covariance.
pub fn update_cov(pp: &Mat4, sinv: &Mat2) -> (r: Option<Mat4>)
    requires
        m4_ok(*pp),
        m2_ok(*sinv),
    ensures
        r == update_cov_s(*pp, *sinv),
        r matches Some(m) ==> m4_ok(m),
{
    let e00 = uc_entry(pp.m00, pp.m00, pp.m01, pp.m00, pp.m10, sinv);
    let e01 = uc_entry(pp.m01, pp.m00, pp.m01, pp.m01, pp.m11, sinv);
    let e02 = uc_entry(pp.m02, pp.m00, pp.m01, pp.m02, pp.m12, sinv);
    let e03 = uc_entry(pp.m03, pp.m00, pp.m01, pp.m03, pp.m13, sinv);
    let e10 = uc_entry(pp.m10, pp.m10, pp.m11, pp.m00, pp.m10, sinv);
    let e11 = uc_entry(pp.m11, pp.m10, pp.m11, pp.m01, pp.m11, sinv);
    let e12 = uc_entry(pp.m12, pp.m10, pp.m11, pp.m02, pp.m12, sinv);
    let e13 = uc_entry(pp.m13, pp.m10, pp.m11, pp.m03, pp.m13, sinv);
    let e20 = uc_entry(pp.m20, pp.m20, pp.m21, pp.m00, pp.m10, sinv);
    let e21 = uc_entry(pp.m21, pp.m20, pp.m21, pp.m01, pp.m11, sinv);
    let e22 = uc_entry(pp.m22, pp.m20, pp.m21, pp.m02, pp.m12, sinv);
    let e23 = uc_entry(pp.m23, pp.m20, pp.m21, pp.m03, pp.m13, sinv);
    let e30 = uc_entry(pp.m30, pp.m30, pp.m31, pp.m00, pp.m10, sinv);
    let e31 = uc_entry(pp.m31, pp.m30, pp.m31, pp.m01, pp.m11, sinv);
    let e32 = uc_entry(pp.m32, pp.m30, pp.m31, pp.m02, pp.m12, sinv);
    let e33 = uc_entry(pp.m33, pp.m30, pp.m31, pp.m03, pp.m13, sinv);
    if e00.is_some() && e01.is_some() && e02.is_some() && e03.is_some() && e10.is_some()
        && e11.is_some() && e12.is_some() && e13.is_some() && e20.is_some() && e21.is_some()
        && e22.is_some() && e23.is_some() && e30.is_some() && e31.is_some() && e32.is_some()
        && e33.is_some() {
        Some(
            Mat4 {
                m00: e00.unwrap(),
                m01: e01.unwrap(),
                m02: e02.unwrap(),
                m03: e03.unwrap(),
                m10: e10.unwrap(),
                m11: e11.unwrap(),
                m12: e12.unwrap(),
                m13: e13.unwrap(),
                m20: e20.unwrap(),
                m21: e21.unwrap(),
                m22: e22.unwrap(),
                m23: e23.unwrap(),
                m30: e30.unwrap(),
                m31: e31.unwrap(),
                m32: e32.unwrap(),
                m33: e33.unwrap(),
            },
        )
    } else {
        None
    }
}

/// The quadratic form over a symmetric 4 x 4 matrix does not care which
/// side each vector stands on.
pub proof fn lemma_quad4_sym(u: (int, int, int, int), p: Mat4, v: (int, int, int, int))
    requires
        m4_sym(p),
    ensures
        quad4_s(u, p, v) == quad4_s(v, p, u),
{
    lemma_term_comm(u.0, p.m00 as int, v.0);
    lemma_term_comm(u.0, p.m01 as int, v.1);
    lemma_term_comm(u.0, p.m02 as int, v.2);
    lemma_term_comm(u.0, p.m03 as int, v.3);
    lemma_term_comm(u.1, p.m10 as int, v.0);
    lemma_term_comm(u.1, p.m11 as int, v.1);
    lemma_term_comm(u.1, p.m12 as int, v.2);
    lemma_term_comm(u.1, p.m13 as int, v.3);
    lemma_term_comm(u.2, p.m20 as int, v.0);
    lemma_term_comm(u.2, p.m21 as int, v.1);
    lemma_term_comm(u.2, p.m22 as int, v.2);
    lemma_term_comm(u.2, p.m23 as int, v.3);
    lemma_term_comm(u.3, p.m30 as int, v.0);
    lemma_term_comm(u.3, p.m31 as int, v.1);
    lemma_term_comm(u.3, p.m32 as int, v.2);
    lemma_term_comm(u.3, p.m33 as int, v.3);
}

/// A product of three integers reads the same from either end.
proof fn lemma_term_comm(a: int, m: int, b: int)
    ensures
        a * m * b == b * m * a,
{
    assert(a * m * b == b * m * a) by (nonlinear_arith);
}

/// The quadratic form over a symmetric 2 x 2 matrix does not care which
/// side each vector stands on.
pub proof fn lemma_quad2_sym(u: (int, int), s: Mat2, v: (int, int))
    requires
        m2_sym(s),
    ensures
        quad2_s(u, s, v) == quad2_s(v, s, u),
{
    lemma_term_comm(u.0, s.m00 as int, v.0);
    lemma_term_comm(u.0, s.m01 as int, v.1);
    lemma_term_comm(u.1, s.m10 as int, v.0);
    lemma_term_comm(u.1, s.m11 as int, v.1);
}

/// The predicted covariance of a symmetric matrix is symmetric: each pair
/// of mirrored entries is the same exact quadratic form, rescaled by the
/// same single truncation.
pub proof fn lemma_predict_cov_sym(jf: Mat4, p: Mat4, cfg: EkfConfig)
    requires
        m4_sym(p),
    ensures
        predict_cov_s(jf, p, cfg) matches Some(pp) ==> m4_sym(pp),
{
    lemma_quad4_sym(row0(jf), p, row1(jf));
    lemma_quad4_sym(row0(jf), p, row2(jf));
    lemma_quad4_sym(row0(jf), p, row3(jf));
    lemma_quad4_sym(row1(jf), p, row2(jf));
    lemma_quad4_sym(row1(jf), p, row3(jf));
    lemma_quad4_sym(row2(jf), p, row3(jf));
}

/// The corrected covariance of a symmetric predicted covariance is
/// symmetric, for a symmetric inverted innovation covariance.
pub proof fn lemma_update_cov_sym(pp: Mat4, sinv: Mat2)
    requires
        m4_sym(pp),
        m2_sym(sinv),
    ensures
        update_cov_s(pp, sinv) matches Some(pe) ==> m4_sym(pe),
{
    lemma_quad2_sym((pp.m00 as int, pp.m01 as int), sinv, (pp.m01 as int, pp.m11 as int));
    lemma_quad2_sym((pp.m00 as int, pp.m01 as int), sinv, (pp.m02 as int, pp.m12 as int));
    lemma_quad2_sym((pp.m00 as int, pp.m01 as int), sinv, (pp.m03 as int, pp.m13 as int));
    lemma_quad2_sym((pp.m10 as int, pp.m11 as int), sinv, (pp.m02 as int, pp.m12 as int));
    lemma_quad2_sym((pp.m10 as int, pp.m11 as int), sinv, (pp.m03 as int, pp.m13 as int));
    lemma_quad2_sym((pp.m20 as int, pp.m21 as int), sinv, (pp.m03 as int, pp.m13 as int));
}

/// A filter step keeps the covariance symmetric.
///
/// For any symmetric estimate covariance and any configuration — whose `Q`
/// and `R` are diagonal, so positive semi-definite exactly when accepted by
/// [`EkfConfig::new`] — a step that returns `Ok` returns a symmetric
/// corrected covariance.
pub proof fn lemma_estimate_preserves_symmetry(
    x_est: State,
    p_est: Mat4,
    z: Obs,
    u: Control,
    cfg: EkfConfig,
)
    requires
        m4_sym(p_est),
    ensures
        estimate_s(x_est, p_est, z, u, cfg) matches Ok(t) ==> m4_sym(t.1),
{
    let jf = jacob_f_s(x_est, u);
    lemma_predict_cov_sym(jf, p_est, cfg);
    match predict_cov_s(jf, p_est, cfg) {
        None => {},
        Some(pp) => {
            match innov_s(pp, cfg) {
                None => {},
                Some(s) => {
                    match invert2_s(s) {
                        Err(_) => {},
                        Ok(sinv) => {
                            assert(m2_sym(sinv));
                            lemma_update_cov_sym(pp, sinv);
                        },
                    }
                },
            }
        },
    }
}

/// With a perfect observation the filter reproduces its prediction.
///
/// If the observation handed to a step is exactly the observable part of
/// the predicted state — as when GPS and input noise covariances are zero
/// and the estimate already agrees with ground truth — the residual is
/// zero, the gain has nothing to correct, and the corrected state equals
/// the prediction exactly.
pub proof fn lemma_zero_residual_keeps_prediction(
    x_est: State,
    p_est: Mat4,
    u: Control,
    cfg: EkfConfig,
)
    requires
        ctl_ok(u),
    ensures
        motion_s(x_est, u) matches Some(xp) ==> (estimate_s(
            x_est,
            p_est,
            observe_s(xp),
            u,
            cfg,
        ) matches Ok(t) ==> t.0 == xp),
{
    match motion_s(x_est, u) {
        None => {},
        Some(xp) => {
            vstd::arithmetic::div_mod::lemma_div_of0(SCALE as int);
            let z = observe_s(xp);
            assert(z.x - xp.x == 0 && z.y - xp.y == 0);
        },
    }
}

/// One predict / update step of the extended Kalman filter.
pub open spec fn estimate_s(
    x_est: State,
    p_est: Mat4,
    z: Obs,
    u: Control,
    cfg: EkfConfig,
) -> Result<(State, Mat4), EkfError> {
    match motion_s(x_est, u) {
        None => Err(EkfError::OutOfRange),
        Some(xp) => match predict_cov_s(jacob_f_s(x_est, u), p_est, cfg) {
            None => Err(EkfError::OutOfRange),
            Some(pp) => match innov_s(pp, cfg) {
                None => Err(EkfError::OutOfRange),
                Some(s) => match invert2_s(s) {
                    Err(e) => Err(e),
                    Ok(sinv) => match kalman_gain_s(pp, sinv) {
                        None => Err(EkfError::OutOfRange),
                        Some(k) => match update_state_s(xp, k, z) {
                            None => Err(EkfError::OutOfRange),
                            Some(xe) => match update_cov_s(pp, sinv) {
                                None => Err(EkfError::OutOfRange),
                                Some(pe) => Ok((xe, pe)),
                            },
                        },
                    },
                },
            },
        },
    }
}

/// Run one filter step: predict with the (noisy) control, update with the
/// (noisy) observation. The filter never sees ground truth.
pub fn ekf_estimation(x_est: &State, p_est: &Mat4, z: &Obs, u: &Control, cfg: &EkfConfig) -> (r:
    Result<(State, Mat4), EkfError>)
    requires
        st_ok(*x_est),
        m4_ok(*p_est),
        obs_ok(*z),
        ctl_ok(*u),
        cfg_ok(*cfg),
    ensures
        r == estimate_s(*x_est, *p_est, *z, *u, *cfg),
        r matches Ok(t) ==> st_ok(t.0) && m4_ok(t.1),
{
    let xp = match motion_model(x_est, u) {
        Some(v) => v,
        None => {
            return Err(EkfError::OutOfRange);
        },
    };
    let jf = jacob_f(x_est, u);
    let pp = match predict_cov(&jf, p_est, cfg) {
        Some(v) => v,
        None => {
            return Err(EkfError::OutOfRange);
        },
    };
    let s = match innovation_cov(&pp, cfg) {
        Some(v) => v,
        None => {
            return Err(EkfError::OutOfRange);
        },
    };
    let sinv = match invert2(&s) {
        Ok(v) => v,
        Err(e) => {
            return Err(e);
        },
    };
    let k = match kalman_gain(&pp, &sinv) {
        Some(v) => v,
        None => {
            return Err(EkfError::OutOfRange);
        },
    };
    let xe = match update_state(&xp, &k, z) {
        Some(v) => v,
        None => {
            return Err(EkfError::OutOfRange);
        },
    };
    let pe = match update_cov(&pp, &sinv) {
        Some(v) => v,
        None => {
            return Err(EkfError::OutOfRange);
        },
    };
    Ok((xe, pe))
}

} // verus!
