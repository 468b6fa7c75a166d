use qutility::calculator::{merge_equivalent_peaks, Peak, XrdCalculator, XrdError};
use qutility::model::{Atom, Crystal, Lattice};
use qutility::scattering::{calculate_scattering_factor, get_scattering_factor};

const S: i64 = 1_000_000;

fn nacl() -> Crystal {
    let a = 5_640_000;
    let lattice = Lattice::from_vectors([[a, 0, 0], [0, a, 0], [0, 0, a]]);
    let mut crystal = Crystal::new(
        "NaCl",
        lattice,
        vec![
            Atom::new("Na", [0, 0, 0]),
            Atom::new("Na", [S / 2, S / 2, 0]),
            Atom::new("Na", [S / 2, 0, S / 2]),
            Atom::new("Na", [0, S / 2, S / 2]),
            Atom::new("Cl", [S / 2, 0, 0]),
            Atom::new("Cl", [0, S / 2, 0]),
            Atom::new("Cl", [0, 0, S / 2]),
            Atom::new("Cl", [S / 2, S / 2, S / 2]),
        ],
    );
    crystal.volume = Some(179_406_144);
    crystal.space_group = Some("Fm-3m".to_string());
    crystal
}

#[test]
fn test_xrd_nacl() {
    let crystal = nacl();
    let calc = XrdCalculator::new(1_541_800); // Cu K-alpha
    let pattern = calc.calculate(&crystal, 10 * S, 90 * S).unwrap();

    assert!(!pattern.peaks.is_empty(), "Should have diffraction peaks");
    println!("Found {} peaks for NaCl", pattern.peaks.len());
    for p in pattern.peaks.iter().take(5) {
        println!(
            "two-theta = {}, d = {}, I = {}, ({} {} {})",
            p.two_theta, p.d_spacing, p.intensity, p.h, p.k, p.l
        );
    }
}

// The strongest peak of a non-empty normalized pattern reads exactly one
// hundred, and every intensity and angle stays inside its bounds.
#[test]
fn test_nacl_normalization_and_window() {
    let crystal = nacl();
    let calc = XrdCalculator::new(1_541_800);
    let pattern = calc.calculate(&crystal, 10 * S, 90 * S).unwrap();

    assert!(!pattern.peaks.is_empty());
    assert_eq!(pattern.peaks[0].intensity, 100 * S);
    for p in &pattern.peaks {
        assert!(p.intensity >= 0 && p.intensity <= 100 * S);
        assert!(p.two_theta >= 10 * S && p.two_theta <= 90 * S);
    }
    for w in pattern.peaks.windows(2) {
        assert!(w[0].intensity >= w[1].intensity);
    }
}

// Two identical calculations give identical peak lists.
#[test]
fn test_calculate_idempotent() {
    let crystal = nacl();
    let calc = XrdCalculator::new(1_541_800);
    let p1 = calc.calculate(&crystal, 10 * S, 90 * S).unwrap();
    let p2 = calc.calculate(&crystal, 10 * S, 90 * S).unwrap();
    assert_eq!(p1.peaks, p2.peaks);
    assert_eq!(p1.wavelength, p2.wavelength);
}

// Two synthetic reflections closer than the tolerance merge into one peak
// carrying the summed intensity and the first label.
#[test]
fn test_merge_close_reflections() {
    let p1 = Peak { two_theta: 30_000_000, d_spacing: 2 * S, intensity: 40 * S, h: 1, k: 1, l: 1 };
    let p2 = Peak { two_theta: 30_005_000, d_spacing: 2 * S, intensity: 10 * S, h: -1, k: 1, l: 1 };
    let merged = merge_equivalent_peaks(vec![p1, p2]);
    assert_eq!(merged.len(), 1);
    assert_eq!(merged[0].intensity, 50 * S);
    assert_eq!(merged[0].two_theta, 30_000_000);
    assert_eq!((merged[0].h, merged[0].k, merged[0].l), (1, 1, 1));
}

#[test]
fn test_merge_far_reflections_stay_apart() {
    let p1 = Peak { two_theta: 30 * S, d_spacing: 2 * S, intensity: 40 * S, h: 1, k: 1, l: 1 };
    let p2 = Peak { two_theta: 31 * S, d_spacing: 2 * S, intensity: 10 * S, h: 2, k: 0, l: 0 };
    let merged = merge_equivalent_peaks(vec![p1, p2]);
    assert_eq!(merged.len(), 2);
}

#[test]
fn test_invalid_wavelength() {
    let crystal = nacl();
    let calc = XrdCalculator::new(0);
    assert_eq!(calc.calculate(&crystal, 10 * S, 90 * S).unwrap_err(), XrdError::InvalidWavelength);
    let calc_neg = XrdCalculator::new(-1_000_000);
    assert_eq!(
        calc_neg.calculate(&crystal, 10 * S, 90 * S).unwrap_err(),
        XrdError::InvalidWavelength
    );
}

#[test]
fn test_degenerate_lattice() {
    let lattice = Lattice::from_vectors([[S, 0, 0], [2 * S, 0, 0], [0, 0, 0]]);
    let crystal = Crystal::new("flat", lattice, vec![Atom::new("Si", [0, 0, 0])]);
    let calc = XrdCalculator::new(1_541_800);
    assert_eq!(calc.calculate(&crystal, 10 * S, 90 * S).unwrap_err(), XrdError::DegenerateLattice);
}

#[test]
fn test_scattering_factor_si() {
    let params = get_scattering_factor("Si").unwrap();
    // At s = 0 the factor approximates the atomic number.
    let f0 = params.calculate(0);
    assert!((f0 - 14 * S).abs() < S, "Si f(0) should be close to 14, got {}", f0);
}

#[test]
fn test_scattering_factor_fe() {
    let params = get_scattering_factor("Fe").unwrap();
    let f0 = params.calculate(0);
    assert!((f0 - 26 * S).abs() < S, "Fe f(0) should be close to 26, got {}", f0);
}

#[test]
fn test_scattering_lookup_policy() {
    // A labelled site falls back to its two-character element prefix.
    assert_eq!(get_scattering_factor("Fe1"), get_scattering_factor("Fe"));
    // A one-letter element with a long label falls back further.
    assert!(get_scattering_factor("C9x").is_some());
    // An unknown symbol scatters with strength zero.
    assert!(get_scattering_factor("Xq").is_none());
    assert_eq!(calculate_scattering_factor("Xq", 123_456), 0);
}

// An atom with an unrecognized symbol leaves the whole pattern untouched.
#[test]
fn test_unknown_element_contributes_nothing() {
    let base = nacl();
    let mut extended = nacl();
    extended.atoms.push(Atom::new("Xq", [S / 4, S / 4, S / 4]));

    let calc = XrdCalculator::new(1_541_800);
    let p1 = calc.calculate(&base, 10 * S, 90 * S).unwrap();
    let p2 = calc.calculate(&extended, 10 * S, 90 * S).unwrap();
    assert_eq!(p1.peaks, p2.peaks);
}
