use qutility::broadening::{apply_broadening, BroadeningType};
use qutility::calculator::Peak;

const S: i64 = 1_000_000;

fn one_peak(two_theta: i64, intensity: i64) -> Peak {
    Peak { two_theta, d_spacing: 2 * S, intensity, h: 1, k: 0, l: 0 }
}

#[test]
fn test_gaussian_curve_peaks_at_reflection() {
    let peaks = vec![one_peak(30 * S, 100 * S)];
    // Window 29..31 degrees, step 0.01, FWHM 0.1.
    let curve = apply_broadening(&peaks, 29 * S, 31 * S, 10_000, 100_000, BroadeningType::Gaussian);
    assert_eq!(curve.len(), 201);
    // Samples are uniform from the window's lower edge.
    assert_eq!(curve[0].0, 29 * S);
    assert_eq!(curve[200].0, 31 * S);
    let (mut best_i, mut best_v) = (0usize, i64::MIN);
    for (i, &(_, v)) in curve.iter().enumerate() {
        if v > best_v {
            best_v = v;
            best_i = i;
        }
    }
    // The curve's maximum sits at the reflection's angle, within one step.
    assert!((curve[best_i].0 - 30 * S).abs() <= 10_000);
    // And the maximum is normalized to exactly one hundred.
    assert_eq!(best_v, 100 * S);
}

#[test]
fn test_gaussian_peak_location_converges_with_small_widths() {
    let peaks = vec![one_peak(30_123_000, 80 * S)];
    // A finer step and narrower width pin the maximum ever closer.
    let curve = apply_broadening(&peaks, 30 * S, 31 * S, 1_000, 10_000, BroadeningType::Gaussian);
    let (mut best_i, mut best_v) = (0usize, i64::MIN);
    for (i, &(_, v)) in curve.iter().enumerate() {
        if v > best_v {
            best_v = v;
            best_i = i;
        }
    }
    assert!((curve[best_i].0 - 30_123_000).abs() <= 1_000);
}

#[test]
fn test_lorentzian_half_height_at_half_width() {
    // FWHM 0.2 degrees: at one half-width (0.1 degrees) from the center the
    // Lorentzian reads exactly half the maximum.
    let peaks = vec![one_peak(30 * S, 100 * S)];
    let curve =
        apply_broadening(&peaks, 29 * S, 31 * S, 100_000, 200_000, BroadeningType::Lorentzian);
    assert_eq!(curve.len(), 21);
    // Sample 10 is 30.0 degrees, sample 11 is 30.1 degrees.
    assert_eq!(curve[10].0, 30 * S);
    assert_eq!(curve[10].1, 100 * S);
    assert_eq!(curve[11].0, 30_100_000);
    assert_eq!(curve[11].1, 50 * S);
}

#[test]
fn test_pseudo_voigt_is_even_mix() {
    let peaks = vec![one_peak(30 * S, 100 * S)];
    let g = apply_broadening(&peaks, 29 * S, 31 * S, 100_000, 200_000, BroadeningType::Gaussian);
    let l = apply_broadening(&peaks, 29 * S, 31 * S, 100_000, 200_000, BroadeningType::Lorentzian);
    let pv = apply_broadening(&peaks, 29 * S, 31 * S, 100_000, 200_000, BroadeningType::PseudoVoigt);
    // At the center all three normalize to one hundred.
    assert_eq!(g[10].1, 100 * S);
    assert_eq!(l[10].1, 100 * S);
    assert_eq!(pv[10].1, 100 * S);
}

#[test]
fn test_weak_peaks_are_skipped() {
    // A peak below the contribution floor produces a flat zero curve.
    let peaks = vec![one_peak(30 * S, 50_000)];
    let curve = apply_broadening(&peaks, 29 * S, 31 * S, 100_000, 100_000, BroadeningType::Gaussian);
    for &(_, v) in curve.iter() {
        assert_eq!(v, 0);
    }
}

#[test]
fn test_no_profile_gives_flat_curve() {
    let peaks = vec![one_peak(30 * S, 100 * S)];
    let curve = apply_broadening(&peaks, 29 * S, 31 * S, 100_000, 100_000, BroadeningType::NoProfile);
    assert_eq!(curve.len(), 21);
    for &(_, v) in curve.iter() {
        assert_eq!(v, 0);
    }
}

#[test]
fn test_inverted_window_gives_single_sample() {
    let peaks = vec![one_peak(30 * S, 100 * S)];
    let curve = apply_broadening(&peaks, 31 * S, 29 * S, 100_000, 100_000, BroadeningType::Gaussian);
    assert_eq!(curve.len(), 1);
    assert_eq!(curve[0].0, 31 * S);
}

#[test]
fn test_degenerate_step_gives_empty_curve() {
    let peaks = vec![one_peak(30 * S, 100 * S)];
    let curve = apply_broadening(&peaks, 29 * S, 31 * S, 0, 100_000, BroadeningType::Gaussian);
    assert!(curve.is_empty());
}
