//! Extended Kalman filter localization over fixed-point arithmetic.
//!
//! All quantities (states, controls, observations, covariances) are scalars
//! in two's-complement fixed point: an `i64` raw value stands for the real
//! number `raw / 2^24`. Every arithmetic step is specified exactly over
//! mathematical integers, so the filter's behaviour is pinned down bit for
//! bit by the contracts in this crate.

use vstd::prelude::*;

pub mod ekf;
pub mod ellipse;
pub mod fixed;
pub mod mat;
pub mod sim;
pub mod trig;

verus! {

/// Failures surfaced by the filter and its configuration.
///
/// `SingularInnovationCovariance`: the innovation covariance `S` has a zero
/// determinant, so the Kalman gain is undefined for that tick.
/// `OutOfRange`: a computed quantity left the representable fixed-point
/// range, so continuing would silently corrupt the estimate.
/// `InvalidConfiguration`: a supplied noise covariance diagonal was negative
/// (not positive semi-definite) or too large to represent.
#[derive(Clone, Copy, Debug, PartialEq, Eq, Structural)]
pub enum EkfError {
    SingularInnovationCovariance,
    OutOfRange,
    InvalidConfiguration,
}

} // verus!
