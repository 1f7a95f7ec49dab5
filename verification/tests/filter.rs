//! Scenario tests for the filter and the simulation driver.

use ekf_localization::ekf::{ekf_estimation, EkfConfig};
use ekf_localization::mat::{Control, Mat4, Obs, State};
use ekf_localization::sim::{calc_input, Noise, NoiseConfig, SimState};
use ekf_localization::EkfError;

const S: i64 = 16777216;
const BOUND: i64 = 0x10000000000;

fn raw(v: f64) -> i64 {
    (v * S as f64).round() as i64
}

fn to_f(v: i64) -> f64 {
    v as f64 / S as f64
}

fn zero_mat4() -> Mat4 {
    Mat4 {
        m00: 0,
        m01: 0,
        m02: 0,
        m03: 0,
        m10: 0,
        m11: 0,
        m12: 0,
        m13: 0,
        m20: 0,
        m21: 0,
        m22: 0,
        m23: 0,
        m30: 0,
        m31: 0,
        m32: 0,
        m33: 0,
    }
}

/// The filter's stock trust model:
/// `Q = diag(0.1^2, 0.1^2, 1 deg in rad, 1.0)` and `R = diag(1, 1)`.
fn default_ekf_config() -> EkfConfig {
    EkfConfig::new(
        raw(0.01),
        raw(0.01),
        raw(1.0f64.to_radians()),
        raw(1.0),
        raw(1.0),
        raw(1.0),
    )
    .unwrap()
}

fn zero_noise_config() -> NoiseConfig {
    NoiseConfig::new(0, 0, 0, 0).unwrap()
}

fn zero_noise() -> Noise {
    Noise { gps0: 0, gps1: 0, input0: 0, input1: 0 }
}

fn assert_symmetric(p: &Mat4) {
    assert_eq!(p.m01, p.m10);
    assert_eq!(p.m02, p.m20);
    assert_eq!(p.m03, p.m30);
    assert_eq!(p.m12, p.m21);
    assert_eq!(p.m13, p.m31);
    assert_eq!(p.m23, p.m32);
}

/// Leading principal minors of the covariance, in floating point, must all
/// be non-negative up to tolerance for a positive semi-definite matrix.
fn assert_psd_within_tolerance(p: &Mat4) {
    let m = [
        [to_f(p.m00), to_f(p.m01), to_f(p.m02), to_f(p.m03)],
        [to_f(p.m10), to_f(p.m11), to_f(p.m12), to_f(p.m13)],
        [to_f(p.m20), to_f(p.m21), to_f(p.m22), to_f(p.m23)],
        [to_f(p.m30), to_f(p.m31), to_f(p.m32), to_f(p.m33)],
    ];
    let d1 = m[0][0];
    let d2 = m[0][0] * m[1][1] - m[0][1] * m[1][0];
    let d3 = m[0][0] * (m[1][1] * m[2][2] - m[1][2] * m[2][1])
        - m[0][1] * (m[1][0] * m[2][2] - m[1][2] * m[2][0])
        + m[0][2] * (m[1][0] * m[2][1] - m[1][1] * m[2][0]);
    assert!(d1 >= -1e-6, "leading 1x1 minor negative: {d1}");
    assert!(d2 >= -1e-6, "leading 2x2 minor negative: {d2}");
    assert!(d3 >= -1e-6, "leading 3x3 minor negative: {d3}");
}

#[test]
fn initial_state_is_origin_with_identity_covariance() {
    let s = SimState::new();
    assert_eq!(s.tick, 0);
    for st in [&s.x_true, &s.x_dr, &s.x_est] {
        assert_eq!(st.x, 0);
        assert_eq!(st.y, 0);
        assert_eq!(st.yaw, 0);
        assert_eq!(st.v, 0);
    }
    assert_eq!(s.p_est.m00, S);
    assert_eq!(s.p_est.m11, S);
    assert_eq!(s.p_est.m22, S);
    assert_eq!(s.p_est.m33, S);
    assert_eq!(s.p_est.m01, 0);
    assert_eq!(s.p_est.m23, 0);
    assert_eq!(s.ground_truth.len(), 1);
    assert_eq!(s.observations.len(), 1);
    assert_eq!(s.dead_reckoning.len(), 1);
    assert_eq!(s.ekf_path.len(), 1);
    assert_eq!(s.ground_truth[0].x, 0);
    assert_eq!(s.ground_truth[0].y, 0);
}

#[test]
fn models_are_deterministic() {
    let x = State { x: raw(1.5), y: raw(-2.25), yaw: raw(0.7), v: raw(1.0) };
    let u = Control { v: raw(1.0), yawrate: raw(0.1) };
    let a = ekf_localization::ekf::motion_model(&x, &u).unwrap();
    let b = ekf_localization::ekf::motion_model(&x, &u).unwrap();
    assert_eq!(a, b);
    let oa = ekf_localization::ekf::observation_model(&x);
    let ob = ekf_localization::ekf::observation_model(&x);
    assert_eq!(oa, ob);
    let ja = ekf_localization::ekf::jacob_f(&x, &u);
    let jb = ekf_localization::ekf::jacob_f(&x, &u);
    assert_eq!(ja, jb);
}

#[test]
fn straight_line_zero_noise_reaches_one_meter() {
    let cfg = default_ekf_config();
    let ncfg = zero_noise_config();
    let u = Control { v: raw(1.0), yawrate: 0 };
    let mut s = SimState::new();
    for _ in 0..10 {
        s.step(&u, &zero_noise(), &cfg, &ncfg).unwrap();
    }
    assert!((to_f(s.x_true.x) - 1.0).abs() < 1e-3, "x = {}", to_f(s.x_true.x));
    assert!(to_f(s.x_true.y).abs() < 1e-6);
    assert_eq!(s.x_true.yaw, 0);
    assert_eq!(s.x_est, s.x_true);
    assert_eq!(s.x_dr, s.x_true);
    assert_eq!(s.ground_truth.len(), 11);
}

#[test]
fn constant_turn_traces_circle_of_radius_ten() {
    let cfg = default_ekf_config();
    let ncfg = zero_noise_config();
    let u = calc_input();
    let mut s = SimState::new();
    for _ in 0..500 {
        s.step(&u, &zero_noise(), &cfg, &ncfg).unwrap();
    }
    // Dead reckoning uses the same zero-noise control, so it coincides with
    // ground truth exactly.
    assert_eq!(s.x_dr, s.x_true);
    for (a, b) in s.ground_truth.iter().zip(s.dead_reckoning.iter()) {
        assert_eq!(a, b);
    }
    // The discrete unicycle vertices are concyclic; fit the circle through
    // the first three vertices and hold every vertex to it.
    let p: Vec<(f64, f64)> =
        s.ground_truth.iter().map(|q| (to_f(q.x), to_f(q.y))).collect();
    let (x1, y1) = p[0];
    let (x2, y2) = p[1];
    let (x3, y3) = p[2];
    let d = 2.0 * (x1 * (y2 - y3) + x2 * (y3 - y1) + x3 * (y1 - y2));
    let cx = ((x1 * x1 + y1 * y1) * (y2 - y3)
        + (x2 * x2 + y2 * y2) * (y3 - y1)
        + (x3 * x3 + y3 * y3) * (y1 - y2))
        / d;
    let cy = ((x1 * x1 + y1 * y1) * (x3 - x2)
        + (x2 * x2 + y2 * y2) * (x1 - x3)
        + (x3 * x3 + y3 * y3) * (x2 - x1))
        / d;
    let radius = ((x1 - cx).powi(2) + (y1 - cy).powi(2)).sqrt();
    assert!((radius - 10.0).abs() < 0.01, "radius = {radius}");
    for (x, y) in &p {
        let r = ((x - cx).powi(2) + (y - cy).powi(2)).sqrt();
        assert!((r - radius).abs() < 1e-3, "vertex strays: {r} vs {radius}");
    }
}

#[test]
fn zero_noise_estimate_equals_ground_truth() {
    let cfg = default_ekf_config();
    let ncfg = zero_noise_config();
    let u = calc_input();
    let mut s = SimState::new();
    for _ in 0..100 {
        s.step(&u, &zero_noise(), &cfg, &ncfg).unwrap();
        assert_eq!(s.x_est, s.x_true);
    }
}

#[test]
fn covariance_stays_symmetric_and_psd_under_noise() {
    let cfg = default_ekf_config();
    let ncfg =
        NoiseConfig::new(raw(0.25), raw(0.25), raw(1.0), raw((30.0f64).to_radians().powi(2)))
            .unwrap();
    let u = calc_input();
    let mut s = SimState::new();
    // A fixed, varied sequence of admitted samples standing in for the
    // standard-normal draws.
    let samples = [raw(0.37), raw(-1.21), raw(2.05), raw(-0.64), raw(0.11), raw(1.73), raw(-2.4)];
    for i in 0..100 {
        let n = Noise {
            gps0: samples[i % 7],
            gps1: samples[(i + 2) % 7],
            input0: samples[(i + 4) % 7],
            input1: samples[(i + 5) % 7],
        };
        s.step(&u, &n, &cfg, &ncfg).unwrap();
        assert_symmetric(&s.p_est);
        assert_psd_within_tolerance(&s.p_est);
    }
}

#[test]
fn singular_innovation_covariance_is_signaled() {
    let cfg = EkfConfig::new(0, 0, 0, 0, 0, 0).unwrap();
    let x = State { x: 0, y: 0, yaw: 0, v: 0 };
    let z = Obs { x: 0, y: 0 };
    let u = Control { v: 0, yawrate: 0 };
    let r = ekf_estimation(&x, &zero_mat4(), &z, &u, &cfg);
    assert_eq!(r, Err(EkfError::SingularInnovationCovariance));
}

#[test]
fn out_of_range_motion_is_signaled() {
    let cfg = default_ekf_config();
    let x = State { x: BOUND, y: 0, yaw: 0, v: 0 };
    let z = Obs { x: 0, y: 0 };
    let u = Control { v: BOUND, yawrate: 0 };
    let mut p = zero_mat4();
    p.m00 = S;
    p.m11 = S;
    p.m22 = S;
    p.m33 = S;
    let r = ekf_estimation(&x, &p, &z, &u, &cfg);
    assert_eq!(r, Err(EkfError::OutOfRange));
}

#[test]
fn negative_covariance_diagonals_are_rejected() {
    assert_eq!(EkfConfig::new(-1, 0, 0, 0, 0, 0), Err(EkfError::InvalidConfiguration));
    assert_eq!(EkfConfig::new(0, 0, 0, 0, 0, -7), Err(EkfError::InvalidConfiguration));
    assert_eq!(NoiseConfig::new(-5, 0, 0, 0), Err(EkfError::InvalidConfiguration));
    assert_eq!(NoiseConfig::new(0, 0, 0, BOUND + 1), Err(EkfError::InvalidConfiguration));
    assert!(EkfConfig::new(0, 0, 0, 0, 0, 0).is_ok());
}

#[test]
fn noise_config_stores_square_roots() {
    let n = NoiseConfig::new(raw(0.25), raw(4.0), raw(1.0), 0).unwrap();
    assert!((to_f(n.gps_std0) - 0.5).abs() < 1e-6);
    assert!((to_f(n.gps_std1) - 2.0).abs() < 1e-6);
    assert!((to_f(n.input_std0) - 1.0).abs() < 1e-6);
    assert_eq!(n.input_std1, 0);
}

#[test]
fn failed_step_leaves_run_unchanged() {
    let cfg = default_ekf_config();
    let ncfg = zero_noise_config();
    let mut s = SimState::new();
    // Park ground truth on the admitted edge: the next motion step must
    // leave the representable range and the tick must fail whole.
    s.x_true = State { x: BOUND, y: 0, yaw: 0, v: 0 };
    let walk = Control { v: raw(1.0), yawrate: 0 };
    let before_tick = s.tick;
    let before_truth = s.x_true;
    let before_len = s.ground_truth.len();
    let r = s.step(&walk, &zero_noise(), &cfg, &ncfg);
    assert_eq!(r, Err(EkfError::OutOfRange));
    assert_eq!(s.tick, before_tick);
    assert_eq!(s.x_true, before_truth);
    assert_eq!(s.ground_truth.len(), before_len);
}
