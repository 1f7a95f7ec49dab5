//! The simulation driver: ground truth, noisy channels, dead reckoning and
//! the filter, advanced one tick at a time.
//!
//! The driver owns all mutable trajectory state. Outside work — drawing the
//! standard-normal samples, rendering — happens in the caller, which hands
//! each tick's samples in as plain values; everything the driver then does
//! with them is pinned down exactly by [`step_s`].

use vstd::prelude::*;

use crate::ekf::{cfg_ok, ekf_estimation, estimate_s, motion_model, motion_s, EkfConfig};
use crate::fixed::{
    add_rng, add_rng_s, in_range, mul2, narrow1, narrow1_s, sqrt_fx, sqrt_fx_s, BOUND, SCALE,
};
use crate::mat::{
    ctl_ok, m4_identity, m4_identity_s, m4_ok, m4_sym, st_ok, st_zero, st_zero_s, Control, Mat4,
    Obs, Point, State,
};
use crate::EkfError;

verus! {

/// Number of ticks in a run: 50 s of simulated time at 0.1 s per tick.
pub const HORIZON: usize = 500;

/// The constant control policy: 1 m/s forward, 0.1 rad/s yaw rate.
pub open spec fn calc_input_s() -> Control {
    Control { v: SCALE, yawrate: 1677722 }
}

/// Compute the tick's control input; here a constant external policy.
pub fn calc_input() -> (r: Control)
    ensures
        r == calc_input_s(),
        ctl_ok(r),
{
    Control { v: SCALE, yawrate: 1677722 }
}

/// Standard deviations of the two simulated noise channels, kept as the
/// square roots of the supplied covariance diagonals.
///
/// These corrupt the simulated signals; they are distinct from the filter's
/// own `Q` and `R`, which describe its internal trust model.
#[derive(Clone, Copy, Debug, PartialEq, Eq, Structural)]
pub struct NoiseConfig {
    pub gps_std0: i64,
    pub gps_std1: i64,
    pub input_std0: i64,
    pub input_std1: i64,
}

/// A valid noise configuration: non-negative, representable deviations.
pub open spec fn ncfg_ok(c: NoiseConfig) -> bool {
    0 <= c.gps_std0 <= BOUND && 0 <= c.gps_std1 <= BOUND && 0 <= c.input_std0 <= BOUND && 0
        <= c.input_std1 <= BOUND
}

impl NoiseConfig {
    /// Accept the GPS and input noise covariance diagonals exactly when
    /// they are positive semi-definite and representable, storing their
    /// square roots; reject them eagerly otherwise.
    pub fn new(gps_cov0: i64, gps_cov1: i64, input_cov0: i64, input_cov1: i64) -> (r: Result<
        NoiseConfig,
        EkfError,
    >)
        ensures
            (0 <= gps_cov0 <= BOUND && 0 <= gps_cov1 <= BOUND && 0 <= input_cov0 <= BOUND && 0
                <= input_cov1 <= BOUND) <==> r is Ok,
            r matches Ok(c) ==> c == (NoiseConfig {
                gps_std0: sqrt_fx_s(gps_cov0 as int) as i64,
                gps_std1: sqrt_fx_s(gps_cov1 as int) as i64,
                input_std0: sqrt_fx_s(input_cov0 as int) as i64,
                input_std1: sqrt_fx_s(input_cov1 as int) as i64,
            }) && ncfg_ok(c),
            r is Err ==> r == Err::<NoiseConfig, EkfError>(EkfError::InvalidConfiguration),
    {
        if 0 <= gps_cov0 && gps_cov0 <= BOUND && 0 <= gps_cov1 && gps_cov1 <= BOUND && 0
            <= input_cov0 && input_cov0 <= BOUND && 0 <= input_cov1 && input_cov1 <= BOUND {
            Ok(
                NoiseConfig {
                    gps_std0: sqrt_fx(gps_cov0),
                    gps_std1: sqrt_fx(gps_cov1),
                    input_std0: sqrt_fx(input_cov0),
                    input_std1: sqrt_fx(input_cov1),
                },
            )
        } else {
            Err(EkfError::InvalidConfiguration)
        }
    }
}

/// One tick's standard-normal samples, two per noisy channel.
#[derive(Clone, Copy, Debug, PartialEq, Eq, Structural)]
pub struct Noise {
    pub gps0: i64,
    pub gps1: i64,
    pub input0: i64,
    pub input1: i64,
}

/// Admitted samples.
pub open spec fn noise_ok(n: Noise) -> bool {
    in_range(n.gps0 as int) && in_range(n.gps1 as int) && in_range(n.input0 as int) && in_range(
        n.input1 as int,
    )
}

/// A signal plus a deviation-scaled sample.
pub open spec fn perturb_s(base: int, std: int, n: int) -> Option<i64> {
    match narrow1_s(std * n) {
        Some(d) => add_rng_s(base, d as int),
        None => None,
    }
}

/// Executable form of [`perturb_s`].
fn perturb(base: i64, std: i64, n: i64) -> (r: Option<i64>)
    requires
        in_range(base as int),
        in_range(std as int),
        in_range(n as int),
    ensures
        r == perturb_s(base as int, std as int, n as int),
        r matches Some(c) ==> in_range(c as int),
{
    match narrow1(mul2(std, n)) {
        Some(d) => add_rng(base, d),
        None => None,
    }
}

/// Everything one tick computes from the previous tick's scalar state:
/// the advanced ground truth, the noisy observation, the advanced
/// dead-reckoning state, and the filter's corrected state and covariance.
pub open spec fn step_s(
    xt: State,
    xd: State,
    xe: State,
    pe: Mat4,
    u: Control,
    n: Noise,
    cfg: EkfConfig,
    ncfg: NoiseConfig,
) -> Result<(State, Obs, State, State, Mat4), EkfError> {
    match motion_s(xt, u) {
        None => Err(EkfError::OutOfRange),
        Some(xt2) => {
            let zx = perturb_s(xt2.x as int, ncfg.gps_std0 as int, n.gps0 as int);
            let zy = perturb_s(xt2.y as int, ncfg.gps_std1 as int, n.gps1 as int);
            let uv = perturb_s(u.v as int, ncfg.input_std0 as int, n.input0 as int);
            let uy = perturb_s(u.yawrate as int, ncfg.input_std1 as int, n.input1 as int);
            if zx is Some && zy is Some && uv is Some && uy is Some {
                let z = Obs { x: zx->Some_0, y: zy->Some_0 };
                let ud = Control { v: uv->Some_0, yawrate: uy->Some_0 };
                match motion_s(xd, ud) {
                    None => Err(EkfError::OutOfRange),
                    Some(xd2) => match estimate_s(xe, pe, z, ud, cfg) {
                        Err(e) => Err(e),
                        Ok(t) => Ok((xt2, z, xd2, t.0, t.1)),
                    },
                }
            } else {
                Err(EkfError::OutOfRange)
            }
        },
    }
}

/// With zero noise the filter tracks ground truth exactly.
///
/// When both simulated noise channels have zero deviation and the estimate
/// already agrees with ground truth, a tick that returns `Ok` hands the
/// filter the exact observation of the advanced truth and the clean
/// control, so the corrected estimate equals the advanced truth: perfect
/// information gives a perfect estimate.
pub proof fn lemma_zero_noise_estimate_tracks_truth(
    xt: State,
    xd: State,
    pe: Mat4,
    u: Control,
    n: Noise,
    cfg: EkfConfig,
    ncfg: NoiseConfig,
)
    requires
        ctl_ok(u),
        ncfg.gps_std0 == 0,
        ncfg.gps_std1 == 0,
        ncfg.input_std0 == 0,
        ncfg.input_std1 == 0,
    ensures
        step_s(xt, xd, xt, pe, u, n, cfg, ncfg) matches Ok(t) ==> t.3 == t.0,
{
    vstd::arithmetic::div_mod::lemma_div_of0(SCALE as int);
    match motion_s(xt, u) {
        None => {},
        Some(xt2) => {
            assert(0 * (n.gps0 as int) == 0) by (nonlinear_arith);
            assert(0 * (n.gps1 as int) == 0) by (nonlinear_arith);
            assert(0 * (n.input0 as int) == 0) by (nonlinear_arith);
            assert(0 * (n.input1 as int) == 0) by (nonlinear_arith);
            assert(perturb_s(xt2.x as int, 0, n.gps0 as int) == Some(xt2.x));
            assert(perturb_s(xt2.y as int, 0, n.gps1 as int) == Some(xt2.y));
            assert(perturb_s(u.v as int, 0, n.input0 as int) == Some(u.v));
            assert(perturb_s(u.yawrate as int, 0, n.input1 as int) == Some(u.yawrate));
            crate::ekf::lemma_zero_residual_keeps_prediction(xt, pe, u, cfg);
        },
    }
}

/// With zero noise, dead reckoning coincides with ground truth.
///
/// When both noise channels have zero deviation the corrupted control
/// equals the clean control, so a tick advances the dead-reckoning state
/// by exactly the motion that advanced ground truth.
pub proof fn lemma_zero_noise_dead_reckoning_tracks_truth(
    xt: State,
    xe: State,
    pe: Mat4,
    u: Control,
    n: Noise,
    cfg: EkfConfig,
    ncfg: NoiseConfig,
)
    requires
        ctl_ok(u),
        ncfg.gps_std0 == 0,
        ncfg.gps_std1 == 0,
        ncfg.input_std0 == 0,
        ncfg.input_std1 == 0,
    ensures
        step_s(xt, xt, xe, pe, u, n, cfg, ncfg) matches Ok(t) ==> t.2 == t.0,
{
    vstd::arithmetic::div_mod::lemma_div_of0(SCALE as int);
    match motion_s(xt, u) {
        None => {},
        Some(xt2) => {
            assert(0 * (n.gps0 as int) == 0) by (nonlinear_arith);
            assert(0 * (n.gps1 as int) == 0) by (nonlinear_arith);
            assert(0 * (n.input0 as int) == 0) by (nonlinear_arith);
            assert(0 * (n.input1 as int) == 0) by (nonlinear_arith);
            assert(perturb_s(u.v as int, 0, n.input0 as int) == Some(u.v));
            assert(perturb_s(u.yawrate as int, 0, n.input1 as int) == Some(u.yawrate));
        },
    }
}

/// A tick keeps the estimate covariance symmetric.
pub proof fn lemma_step_preserves_symmetry(
    xt: State,
    xd: State,
    xe: State,
    pe: Mat4,
    u: Control,
    n: Noise,
    cfg: EkfConfig,
    ncfg: NoiseConfig,
)
    requires
        m4_sym(pe),
    ensures
        step_s(xt, xd, xe, pe, u, n, cfg, ncfg) matches Ok(t) ==> m4_sym(t.4),
{
    match motion_s(xt, u) {
        None => {},
        Some(xt2) => {
            let zx = perturb_s(xt2.x as int, ncfg.gps_std0 as int, n.gps0 as int);
            let zy = perturb_s(xt2.y as int, ncfg.gps_std1 as int, n.gps1 as int);
            let uv = perturb_s(u.v as int, ncfg.input_std0 as int, n.input0 as int);
            let uy = perturb_s(u.yawrate as int, ncfg.input_std1 as int, n.input1 as int);
            if zx is Some && zy is Some && uv is Some && uy is Some {
                let z = Obs { x: zx->Some_0, y: zy->Some_0 };
                let ud = Control { v: uv->Some_0, yawrate: uy->Some_0 };
                crate::ekf::lemma_estimate_preserves_symmetry(xe, pe, z, ud, cfg);
            }
        },
    }
}

/// The four trajectories and the filter state of one simulation run.
pub struct SimState {
    pub tick: usize,
    pub x_true: State,
    pub x_dr: State,
    pub x_est: State,
    pub p_est: Mat4,
    pub ground_truth: Vec<Point>,
    pub observations: Vec<Point>,
    pub dead_reckoning: Vec<Point>,
    pub ekf_path: Vec<Point>,
}

/// The driver's invariant: admitted scalar state and one recorded vertex
/// per completed tick, plus the starting vertex.
pub open spec fn sim_ok(s: SimState) -> bool {
    st_ok(s.x_true) && st_ok(s.x_dr) && st_ok(s.x_est) && m4_ok(s.p_est) && s.tick <= HORIZON
        && s.ground_truth@.len() == s.tick + 1 && s.observations@.len() == s.tick + 1
        && s.dead_reckoning@.len() == s.tick + 1 && s.ekf_path@.len() == s.tick + 1
}

impl SimState {
    /// A fresh run: every trajectory starts at the origin with zero heading
    /// and velocity, and the estimate covariance is the identity.
    pub fn new() -> (r: SimState)
        ensures
            r.tick == 0,
            r.x_true == st_zero_s(),
            r.x_dr == st_zero_s(),
            r.x_est == st_zero_s(),
            r.p_est == m4_identity_s(),
            m4_sym(r.p_est),
            r.ground_truth@ == seq![Point { x: 0, y: 0 }],
            r.observations@ == seq![Point { x: 0, y: 0 }],
            r.dead_reckoning@ == seq![Point { x: 0, y: 0 }],
            r.ekf_path@ == seq![Point { x: 0, y: 0 }],
            sim_ok(r),
    {
        let mut ground_truth: Vec<Point> = Vec::new();
        let mut observations: Vec<Point> = Vec::new();
        let mut dead_reckoning: Vec<Point> = Vec::new();
        let mut ekf_path: Vec<Point> = Vec::new();
        ground_truth.push(Point { x: 0, y: 0 });
        observations.push(Point { x: 0, y: 0 });
        dead_reckoning.push(Point { x: 0, y: 0 });
        ekf_path.push(Point { x: 0, y: 0 });
        proof {
            assert(ground_truth@ =~= seq![Point { x: 0, y: 0 }]);
            assert(observations@ =~= seq![Point { x: 0, y: 0 }]);
            assert(dead_reckoning@ =~= seq![Point { x: 0, y: 0 }]);
            assert(ekf_path@ =~= seq![Point { x: 0, y: 0 }]);
        }
        SimState {
            tick: 0,
            x_true: st_zero(),
            x_dr: st_zero(),
            x_est: st_zero(),
            p_est: m4_identity(),
            ground_truth,
            observations,
            dead_reckoning,
            ekf_path,
        }
    }

    /// Advance the run one tick.
    ///
    /// Ground truth advances under the clean control; the observation and
    /// the control are then corrupted by the deviation-scaled samples; dead
    /// reckoning integrates the noisy control with no correction, as the
    /// no-filtering baseline; and the filter sees only the two noisy
    /// channels, never ground truth. On any failure the run is left
    /// exactly as it was.
    pub fn step(&mut self, u: &Control, n: &Noise, cfg: &EkfConfig, ncfg: &NoiseConfig) -> (r:
        Result<(), EkfError>)
        requires
            sim_ok(*old(self)),
            old(self).tick < HORIZON,
            ctl_ok(*u),
            noise_ok(*n),
            cfg_ok(*cfg),
            ncfg_ok(*ncfg),
        ensures
            sim_ok(*final(self)),
            r is Ok <==> step_s(
                old(self).x_true,
                old(self).x_dr,
                old(self).x_est,
                old(self).p_est,
                *u,
                *n,
                *cfg,
                *ncfg,
            ) is Ok,
            r matches Err(e) ==> step_s(
                old(self).x_true,
                old(self).x_dr,
                old(self).x_est,
                old(self).p_est,
                *u,
                *n,
                *cfg,
                *ncfg,
            ) == Err::<(State, Obs, State, State, Mat4), EkfError>(e) && *final(self) == *old(self),
            r is Ok ==> (step_s(
                old(self).x_true,
                old(self).x_dr,
                old(self).x_est,
                old(self).p_est,
                *u,
                *n,
                *cfg,
                *ncfg,
            ) matches Ok(t) && final(self).x_true == t.0 && final(self).x_dr == t.2
                && final(self).x_est == t.3 && final(self).p_est == t.4 && final(self).tick == old(self).tick + 1
                && final(self).ground_truth@ == old(self).ground_truth@.push(
                Point { x: t.0.x, y: t.0.y },
            ) && final(self).observations@ == old(self).observations@.push(
                Point { x: t.1.x, y: t.1.y },
            ) && final(self).dead_reckoning@ == old(self).dead_reckoning@.push(
                Point { x: t.2.x, y: t.2.y },
            ) && final(self).ekf_path@ == old(self).ekf_path@.push(Point { x: t.3.x, y: t.3.y })),
    {
        let xt2 = match motion_model(&self.x_true, u) {
            Some(v) => v,
            None => {
                return Err(EkfError::OutOfRange);
            },
        };
        let zx = perturb(xt2.x, ncfg.gps_std0, n.gps0);
        let zy = perturb(xt2.y, ncfg.gps_std1, n.gps1);
        let uv = perturb(u.v, ncfg.input_std0, n.input0);
        let uy = perturb(u.yawrate, ncfg.input_std1, n.input1);
        if !(zx.is_some() && zy.is_some() && uv.is_some() && uy.is_some()) {
            return Err(EkfError::OutOfRange);
        }
        let z = Obs { x: zx.unwrap(), y: zy.unwrap() };
        let ud = Control { v: uv.unwrap(), yawrate: uy.unwrap() };
        let xd2 = match motion_model(&self.x_dr, &ud) {
            Some(v) => v,
            None => {
                return Err(EkfError::OutOfRange);
            },
        };
        let (xe2, pe2) = match ekf_estimation(&self.x_est, &self.p_est, &z, &ud, cfg) {
            Ok(t) => t,
            Err(e) => {
                return Err(e);
            },
        };
        self.x_true = xt2;
        self.x_dr = xd2;
        self.x_est = xe2;
        self.p_est = pe2;
        self.ground_truth.push(Point { x: xt2.x, y: xt2.y });
        self.observations.push(Point { x: z.x, y: z.y });
        self.dead_reckoning.push(Point { x: xd2.x, y: xd2.y });
        self.ekf_path.push(Point { x: xe2.x, y: xe2.y });
        self.tick = self.tick + 1;
        Ok(())
    }
}

} // verus!
