use qutility::model::{Atom, Crystal, Lattice};

// One whole unit in the library's fixed-point representation.
const S: i64 = 1_000_000;

fn close(a: i64, b: i64, tol: i64) -> bool {
    (a - b).abs() <= tol
}

#[test]
fn test_lattice_from_parameters_cubic() {
    let lattice = Lattice::from_parameters(5 * S, 5 * S, 5 * S, 90 * S, 90 * S, 90 * S);
    let (a, b, c, alpha, beta, gamma) = lattice.parameters();

    // Within 1e-6: exact at micro resolution.
    assert!(close(a, 5 * S, 0));
    assert!(close(b, 5 * S, 0));
    assert!(close(c, 5 * S, 0));
    assert!(close(alpha, 90 * S, 0));
    assert!(close(beta, 90 * S, 0));
    assert!(close(gamma, 90 * S, 0));
}

#[test]
fn test_lattice_volume_cubic() {
    let lattice = Lattice::from_parameters(5 * S, 5 * S, 5 * S, 90 * S, 90 * S, 90 * S);
    let vol = lattice.volume().abs();

    // 5^3 = 125, within 1e-6: exact at micro resolution.
    assert!(close(vol, 125 * S, 0));
}

#[test]
fn test_lattice_from_vectors() {
    let lattice = Lattice::from_vectors([[4 * S, 0, 0], [0, 4 * S, 0], [0, 0, 4 * S]]);
    let (a, b, c, _alpha, _beta, _gamma) = lattice.parameters();

    // Within 1e-6: exact at micro resolution.
    assert!(close(a, 4 * S, 0));
    assert!(close(b, 4 * S, 0));
    assert!(close(c, 4 * S, 0));
}

#[test]
fn test_lattice_hexagonal() {
    let lattice = Lattice::from_parameters(3 * S, 3 * S, 5 * S, 90 * S, 90 * S, 120 * S);
    let (a, b, c, _alpha, _beta, gamma) = lattice.parameters();

    assert!(close(a, 3 * S, 10_000));
    assert!(close(b, 3 * S, 10_000));
    assert!(close(c, 5 * S, 10_000));
    assert!(close(gamma, 120 * S, 10_000));
}

#[test]
fn test_crystal_formula() {
    let lattice = Lattice::from_parameters(5 * S, 5 * S, 5 * S, 90 * S, 90 * S, 90 * S);
    let atoms = vec![
        Atom::new("Na", [0, 0, 0]),
        Atom::new("Na", [S / 2, S / 2, 0]),
        Atom::new("Na", [S / 2, 0, S / 2]),
        Atom::new("Na", [0, S / 2, S / 2]),
        Atom::new("Cl", [S / 2, 0, 0]),
        Atom::new("Cl", [0, S / 2, 0]),
        Atom::new("Cl", [0, 0, S / 2]),
        Atom::new("Cl", [S / 2, S / 2, S / 2]),
    ];
    let crystal = Crystal::new("NaCl", lattice, atoms);

    let formula = crystal.formula();
    assert!(formula.contains("Cl"));
    assert!(formula.contains("Na"));
    // Element symbols in lexicographic order, as the standard map ranks them.
    assert_eq!(formula, "Cl4Na4");
}

#[test]
fn test_crystal_enthalpy_per_atom() {
    let lattice = Lattice::from_parameters(5 * S, 5 * S, 5 * S, 90 * S, 90 * S, 90 * S);
    let atoms = vec![Atom::new("Fe", [0, 0, 0]), Atom::new("Fe", [S / 2, S / 2, S / 2])];
    let mut crystal = Crystal::new("Fe", lattice, atoms);
    crystal.enthalpy = Some(-20 * S);

    let h_per_atom = crystal.enthalpy_per_atom().unwrap();
    assert_eq!(h_per_atom, -10 * S);
}

#[test]
fn test_atom_with_label() {
    let atom = Atom::new("Fe", [0, 0, 0]).with_label("Fe1");
    assert_eq!(atom.label, Some("Fe1".to_string()));
}

#[test]
fn test_volume_per_atom_falls_back_to_lattice() {
    let lattice = Lattice::from_vectors([[2 * S, 0, 0], [0, 2 * S, 0], [0, 0, 2 * S]]);
    let atoms = vec![Atom::new("Si", [0, 0, 0]), Atom::new("Si", [S / 2, S / 2, S / 2])];
    let crystal = Crystal::new("Si", lattice, atoms);
    // 8 cubic angstroms over two atoms.
    assert_eq!(crystal.volume_per_atom(), Some(4 * S));
}
