//! Tests for the fixed-point trigonometry, square root, arctangent and the
//! covariance ellipse renderer.

use ekf_localization::ellipse::{
    atan2_fx, covariance_ellipse, ellipse_polyline, points_to_polyline, N_VERTICES,
};
use ekf_localization::fixed::sqrt_fx;
use ekf_localization::mat::Mat2;
use ekf_localization::trig::sin_cos_fx;
use ekf_localization::EkfError;

const S: i64 = 16777216;

fn raw(v: f64) -> i64 {
    (v * S as f64).round() as i64
}

fn to_f(v: i64) -> f64 {
    v as f64 / S as f64
}

#[test]
fn sine_and_cosine_at_zero_are_exact() {
    let (sn, cs) = sin_cos_fx(0);
    assert_eq!(sn, 0);
    assert_eq!(cs, S);
}

#[test]
fn sine_and_cosine_match_reference_values() {
    let cases = [
        (0.5, 0.479425538604203, 0.8775825618903728),
        (1.0, 0.8414709848078965, 0.5403023058681398),
        (1.5707963, 1.0, 0.0),
        (3.0, 0.1411200080598672, -0.9899924966004454),
        (5.0, -0.9589242746631385, 0.28366218546322625),
        (-1.0, -0.8414709848078965, 0.5403023058681398),
        (-2.5, -0.5984721441039564, -0.8011436155469337),
    ];
    for (x, sref, cref) in cases {
        let (sn, cs) = sin_cos_fx(raw(x));
        assert!((to_f(sn) - sref).abs() < 1e-5, "sin({x}) = {}", to_f(sn));
        assert!((to_f(cs) - cref).abs() < 1e-5, "cos({x}) = {}", to_f(cs));
    }
}

#[test]
fn sine_is_odd_and_cosine_is_even() {
    for x in [raw(0.3), raw(1.1), raw(2.9), raw(4.4)] {
        let (sp, cp) = sin_cos_fx(x);
        let (sm, cm) = sin_cos_fx(-x);
        assert_eq!(sm, -sp);
        assert_eq!(cm, cp);
    }
}

#[test]
fn square_root_of_perfect_squares_is_exact() {
    assert_eq!(sqrt_fx(4 * S), 2 * S);
    assert_eq!(sqrt_fx(S), S);
    assert_eq!(sqrt_fx(0), 0);
    assert!((to_f(sqrt_fx(2 * S)) - 2.0f64.sqrt()).abs() < 1e-6);
    assert!((to_f(sqrt_fx(raw(0.25))) - 0.5).abs() < 1e-6);
}

#[test]
fn arctangent_quadrants() {
    assert_eq!(atan2_fx(0, S), 0);
    let qpi = std::f64::consts::FRAC_PI_4;
    assert!((to_f(atan2_fx(S, S)) - qpi).abs() < 1e-4);
    assert!((to_f(atan2_fx(S, -S)) - 3.0 * qpi).abs() < 1e-4);
    assert!((to_f(atan2_fx(-S, S)) + qpi).abs() < 1e-4);
    assert!((to_f(atan2_fx(-S, -S)) + 3.0 * qpi).abs() < 1e-4);
    assert!((to_f(atan2_fx(raw(0.3), S)) - 0.3f64.atan()).abs() < 1e-4);
    assert!((to_f(atan2_fx(S, raw(0.2))) - (1.0f64).atan2(0.2)).abs() < 1e-4);
}

#[test]
fn ellipse_of_diagonal_covariance_has_axis_aligned_semi_axes() {
    let cov = Mat2 { m00: 4 * S, m01: 0, m10: 0, m11: S };
    let (a, b, angle) = covariance_ellipse(&cov, S).unwrap();
    assert_eq!(a, 2 * S);
    assert_eq!(b, S);
    assert_eq!(angle, 0);
}

#[test]
fn ellipse_confidence_scale_shrinks_axes() {
    let cov = Mat2 { m00: 4 * S, m01: 0, m10: 0, m11: S };
    let (a, b, _) = covariance_ellipse(&cov, raw(0.25)).unwrap();
    assert_eq!(a, S);
    assert!((to_f(b) - 0.5).abs() < 1e-6);
}

#[test]
fn ellipse_of_swapped_diagonal_rotates_a_quarter_turn() {
    let cov = Mat2 { m00: S, m01: 0, m10: 0, m11: 4 * S };
    let (a, b, angle) = covariance_ellipse(&cov, S).unwrap();
    assert_eq!(a, 2 * S);
    assert_eq!(b, S);
    assert!((to_f(angle) - std::f64::consts::FRAC_PI_2).abs() < 1e-4);
}

#[test]
fn ellipse_of_correlated_covariance_rotates_an_eighth_turn() {
    // Eigenvalues of [[2, 1], [1, 2]] are 3 and 1 with the first
    // eigenvector along the diagonal.
    let cov = Mat2 { m00: 2 * S, m01: S, m10: S, m11: 2 * S };
    let (a, b, angle) = covariance_ellipse(&cov, S).unwrap();
    assert!((to_f(a) - 3.0f64.sqrt()).abs() < 1e-4);
    assert!((to_f(b) - 1.0).abs() < 1e-4);
    assert!((to_f(angle) - std::f64::consts::FRAC_PI_4).abs() < 1e-4);
}

#[test]
fn indefinite_covariance_is_rejected() {
    let cov = Mat2 { m00: -S, m01: 0, m10: 0, m11: S };
    assert_eq!(covariance_ellipse(&cov, S), Err(EkfError::InvalidConfiguration));
}

#[test]
fn ellipse_polyline_samples_the_full_turn() {
    let v = ellipse_polyline(0, 0, 2 * S, S, 0).unwrap();
    assert_eq!(v.len(), N_VERTICES);
    // At angle zero the first vertex sits on the major axis.
    assert_eq!(v[0].x, 2 * S);
    assert_eq!(v[0].y, 0);
    // Every vertex satisfies the axis-aligned ellipse equation.
    for p in &v {
        let e = (to_f(p.x) / 2.0).powi(2) + to_f(p.y).powi(2);
        assert!((e - 1.0).abs() < 1e-4, "vertex off the ellipse: {e}");
    }
}

#[test]
fn ellipse_polyline_translates_to_its_center() {
    let v = ellipse_polyline(raw(3.0), raw(-2.0), S, S, 0).unwrap();
    for p in &v {
        let r = ((to_f(p.x) - 3.0).powi(2) + (to_f(p.y) + 2.0).powi(2)).sqrt();
        assert!((r - 1.0).abs() < 1e-4);
    }
}

#[test]
fn polyline_pairs_coordinates_up_to_the_shorter_sequence() {
    let xs = vec![1, 2, 3, 4];
    let ys = vec![10, 20, 30];
    let v = points_to_polyline(&xs, &ys);
    assert_eq!(v.len(), 3);
    assert_eq!(v[1].x, 2);
    assert_eq!(v[1].y, 20);
}
