//! Vectors and matrices of the filter, with fixed-point entries.

use vstd::prelude::*;

use crate::fixed::{in_range, SCALE};

verus! {

/// Robot state: planar position, heading in radians, scalar velocity.
#[derive(Clone, Copy, Debug, PartialEq, Eq, Structural)]
pub struct State {
    pub x: i64,
    pub y: i64,
    pub yaw: i64,
    pub v: i64,
}

/// Control input: linear velocity and yaw rate.
#[derive(Clone, Copy, Debug, PartialEq, Eq, Structural)]
pub struct Control {
    pub v: i64,
    pub yawrate: i64,
}

/// Observation: measured planar position only.
#[derive(Clone, Copy, Debug, PartialEq, Eq, Structural)]
pub struct Obs {
    pub x: i64,
    pub y: i64,
}

/// A vertex of a recorded trajectory.
#[derive(Clone, Copy, Debug, PartialEq, Eq, Structural)]
pub struct Point {
    pub x: i64,
    pub y: i64,
}

/// A 2 x 2 matrix, row major.
#[derive(Clone, Copy, Debug, PartialEq, Eq, Structural)]
pub struct Mat2 {
    pub m00: i64,
    pub m01: i64,
    pub m10: i64,
    pub m11: i64,
}

/// A 4 x 4 matrix, row major.
#[derive(Clone, Copy, Debug, PartialEq, Eq, Structural)]
pub struct Mat4 {
    pub m00: i64,
    pub m01: i64,
    pub m02: i64,
    pub m03: i64,
    pub m10: i64,
    pub m11: i64,
    pub m12: i64,
    pub m13: i64,
    pub m20: i64,
    pub m21: i64,
    pub m22: i64,
    pub m23: i64,
    pub m30: i64,
    pub m31: i64,
    pub m32: i64,
    pub m33: i64,
}

/// A 2 x 4 matrix: the observation Jacobian.
#[derive(Clone, Copy, Debug, PartialEq, Eq, Structural)]
pub struct Mat2x4 {
    pub m00: i64,
    pub m01: i64,
    pub m02: i64,
    pub m03: i64,
    pub m10: i64,
    pub m11: i64,
    pub m12: i64,
    pub m13: i64,
}

/// A 4 x 2 matrix: the Kalman gain.
#[derive(Clone, Copy, Debug, PartialEq, Eq, Structural)]
pub struct Gain {
    pub m00: i64,
    pub m01: i64,
    pub m10: i64,
    pub m11: i64,
    pub m20: i64,
    pub m21: i64,
    pub m30: i64,
    pub m31: i64,
}

/// Every state component is an admitted scalar.
pub open spec fn st_ok(s: State) -> bool {
    in_range(s.x as int) && in_range(s.y as int) && in_range(s.yaw as int) && in_range(s.v as int)
}

/// Every control component is an admitted scalar.
pub open spec fn ctl_ok(u: Control) -> bool {
    in_range(u.v as int) && in_range(u.yawrate as int)
}

/// Every observation component is an admitted scalar.
pub open spec fn obs_ok(z: Obs) -> bool {
    in_range(z.x as int) && in_range(z.y as int)
}

/// Every entry is an admitted scalar.
pub open spec fn m2_ok(m: Mat2) -> bool {
    in_range(m.m00 as int) && in_range(m.m01 as int) && in_range(m.m10 as int) && in_range(
        m.m11 as int,
    )
}

/// Every entry is an admitted scalar.
pub open spec fn m4_ok(m: Mat4) -> bool {
    in_range(m.m00 as int) && in_range(m.m01 as int) && in_range(m.m02 as int) && in_range(
        m.m03 as int,
    ) && in_range(m.m10 as int) && in_range(m.m11 as int) && in_range(m.m12 as int) && in_range(
        m.m13 as int,
    ) && in_range(m.m20 as int) && in_range(m.m21 as int) && in_range(m.m22 as int) && in_range(
        m.m23 as int,
    ) && in_range(m.m30 as int) && in_range(m.m31 as int) && in_range(m.m32 as int) && in_range(
        m.m33 as int,
    )
}

/// Every entry is an admitted scalar.
pub open spec fn gain_ok(k: Gain) -> bool {
    in_range(k.m00 as int) && in_range(k.m01 as int) && in_range(k.m10 as int) && in_range(
        k.m11 as int,
    ) && in_range(k.m20 as int) && in_range(k.m21 as int) && in_range(k.m30 as int) && in_range(
        k.m31 as int,
    )
}

/// Symmetry of a 2 x 2 matrix.
pub open spec fn m2_sym(m: Mat2) -> bool {
    m.m01 == m.m10
}

/// Symmetry of a 4 x 4 matrix.
pub open spec fn m4_sym(m: Mat4) -> bool {
    m.m01 == m.m10 && m.m02 == m.m20 && m.m03 == m.m30 && m.m12 == m.m21 && m.m13 == m.m31
        && m.m23 == m.m32
}

/// The identity matrix: ones on the diagonal.
pub open spec fn m4_identity_s() -> Mat4 {
    Mat4 {
        m00: SCALE,
        m01: 0,
        m02: 0,
        m03: 0,
        m10: 0,
        m11: SCALE,
        m12: 0,
        m13: 0,
        m20: 0,
        m21: 0,
        m22: SCALE,
        m23: 0,
        m30: 0,
        m31: 0,
        m32: 0,
        m33: SCALE,
    }
}

/// Build the identity matrix.
pub fn m4_identity() -> (r: Mat4)
    ensures
        r == m4_identity_s(),
        m4_ok(r),
        m4_sym(r),
{
    Mat4 {
        m00: SCALE,
        m01: 0,
        m02: 0,
        m03: 0,
        m10: 0,
        m11: SCALE,
        m12: 0,
        m13: 0,
        m20: 0,
        m21: 0,
        m22: SCALE,
        m23: 0,
        m30: 0,
        m31: 0,
        m32: 0,
        m33: SCALE,
    }
}

/// The zero state.
pub open spec fn st_zero_s() -> State {
    State { x: 0, y: 0, yaw: 0, v: 0 }
}

/// Build the zero state.
pub fn st_zero() -> (r: State)
    ensures
        r == st_zero_s(),
        st_ok(r),
{
    State { x: 0, y: 0, yaw: 0, v: 0 }
}

} // verus!
