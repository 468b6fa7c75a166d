//! Powder diffraction pattern calculation.
//!
//! From a crystal and a wavelength, the calculator builds the reciprocal
//! lattice, walks every Miller triple inside a conservative bound, derives
//! each reflection's angle and d-spacing, sums the complex structure factor
//! over the atoms, applies the Lorentz-polarization correction, merges
//! reflections that fall within an angular tolerance, sorts by intensity and
//! rescales so the strongest peak reads one hundred. Every step equals a
//! spec-level function of the inputs, so the whole pattern is a mathematical
//! function of crystal, wavelength and angular window.

use vstd::prelude::*;

use crate::fx::{
    asin_fx, cos_fx, fx_add, fx_div, fx_mul, fx_mul_div, fx_sqrt, fx_sub, iabs, sin_fx,
    spec_add_fx, spec_asin_fx, spec_cos_fx, spec_div_fx, spec_mul_div_fx, spec_mul_fx,
    spec_sin_fx, spec_sqrt_fx, spec_sub_fx, DEG_180_FX, PI_FX, SCALE, TWO_PI_FX,
};
use crate::model::{spec_parameters, Atom, Crystal};
use crate::scattering::{calculate_scattering_factor, spec_scatter};

verus! {

/// Reflections closer in angle than this merge into one peak
/// (micro-degrees).
pub const MERGE_TOL_FX: i64 = 10_000;

/// The normalization target: one hundred, in micro-units.
pub const HUNDRED_FX: i64 = 100_000_000;

/// The hard ceiling on the Miller-index search bound.
pub const MAX_HKL_BOUND: i64 = 30;

/// One diffraction peak: scattering angle and d-spacing in micro-units,
/// relative intensity in micro-units of the 0-100 scale, and the Miller
/// indices of the first reflection observed at this angle.
#[derive(Clone, Copy, PartialEq, Eq, Structural, Debug)]
pub struct Peak {
    pub two_theta: i64,
    pub d_spacing: i64,
    pub intensity: i64,
    pub h: i32,
    pub k: i32,
    pub l: i32,
}

/// A computed diffraction pattern: the wavelength used, the source
/// structure's name, and the peaks in descending order of intensity.
#[derive(Debug, Clone)]
pub struct XrdPattern {
    pub peaks: Vec<Peak>,
    pub wavelength: i64,
    pub structure_name: String,
}

/// Why a calculation was refused.
#[derive(Clone, Copy, PartialEq, Eq, Structural, Debug)]
pub enum XrdError {
    /// The wavelength was not positive.
    InvalidWavelength,
    /// The lattice volume vanishes at working resolution.
    DegenerateLattice,
}

/// Cross product of two rows, in micro-units.
pub open spec fn spec_cross3(u: [i64; 3], v: [i64; 3]) -> (i64, i64, i64) {
    (
        spec_sub_fx(spec_mul_fx(u[1], v[2]), spec_mul_fx(u[2], v[1])),
        spec_sub_fx(spec_mul_fx(u[2], v[0]), spec_mul_fx(u[0], v[2])),
        spec_sub_fx(spec_mul_fx(u[0], v[1]), spec_mul_fx(u[1], v[0])),
    )
}

/// Dot product of a row with a triple.
pub open spec fn spec_dot3t(u: [i64; 3], t: (i64, i64, i64)) -> i64 {
    spec_add_fx(spec_add_fx(spec_mul_fx(u[0], t.0), spec_mul_fx(u[1], t.1)), spec_mul_fx(u[2], t.2))
}

/// Component selection on a triple.
pub open spec fn spec_tup_get(t: (i64, i64, i64), j: int) -> i64 {
    if j == 0 {
        t.0
    } else if j == 1 {
        t.1
    } else {
        t.2
    }
}

/// The cell volume as the calculator derives it: `a . (b x c)`.
pub open spec fn spec_recip_volume(m: [[i64; 3]; 3]) -> i64 {
    spec_dot3t(m[0], spec_cross3(m[1], m[2]))
}

/// The common factor `2 pi / V` of the reciprocal rows.
pub open spec fn spec_recip_factor(m: [[i64; 3]; 3]) -> i64 {
    spec_div_fx(TWO_PI_FX, spec_recip_volume(m))
}

/// Row `i` of the reciprocal lattice: `2 pi (b x c) / V` and its cyclic
/// companions.
#[verifier::opaque]
pub open spec fn spec_recip_row(m: [[i64; 3]; 3], i: int) -> (i64, i64, i64) {
    let f = spec_recip_factor(m);
    let c = if i == 0 {
        spec_cross3(m[1], m[2])
    } else if i == 1 {
        spec_cross3(m[2], m[0])
    } else {
        spec_cross3(m[0], m[1])
    };
    (spec_mul_fx(c.0, f), spec_mul_fx(c.1, f), spec_mul_fx(c.2, f))
}

/// The reciprocal vector `G = h b1 + k b2 + l b3` for a Miller triple.
#[verifier::opaque]
pub open spec fn spec_g_vec(m: [[i64; 3]; 3], h: i64, k: i64, l: i64) -> (i64, i64, i64) {
    let b1 = spec_recip_row(m, 0);
    let b2 = spec_recip_row(m, 1);
    let b3 = spec_recip_row(m, 2);
    let hf = (h * 1_000_000) as i64;
    let kf = (k * 1_000_000) as i64;
    let lf = (l * 1_000_000) as i64;
    (
        spec_add_fx(spec_add_fx(spec_mul_fx(hf, b1.0), spec_mul_fx(kf, b2.0)), spec_mul_fx(lf, b3.0)),
        spec_add_fx(spec_add_fx(spec_mul_fx(hf, b1.1), spec_mul_fx(kf, b2.1)), spec_mul_fx(lf, b3.1)),
        spec_add_fx(spec_add_fx(spec_mul_fx(hf, b1.2), spec_mul_fx(kf, b2.2)), spec_mul_fx(lf, b3.2)),
    )
}

/// A fractional coordinate mapped to Cartesian space through the lattice
/// rows.
#[verifier::opaque]
pub open spec fn spec_frac_to_cart(f: [i64; 3], m: [[i64; 3]; 3]) -> (i64, i64, i64) {
    (
        spec_add_fx(
            spec_add_fx(spec_mul_fx(f[0], m[0][0]), spec_mul_fx(f[1], m[1][0])),
            spec_mul_fx(f[2], m[2][0]),
        ),
        spec_add_fx(
            spec_add_fx(spec_mul_fx(f[0], m[0][1]), spec_mul_fx(f[1], m[1][1])),
            spec_mul_fx(f[2], m[2][1]),
        ),
        spec_add_fx(
            spec_add_fx(spec_mul_fx(f[0], m[0][2]), spec_mul_fx(f[1], m[1][2])),
            spec_mul_fx(f[2], m[2][2]),
        ),
    )
}

/// Real and imaginary structure-factor sums over a list of atoms: each atom
/// adds its scattering factor times the cosine and sine of the phase
/// `G . r` at its Cartesian position.
#[verifier::opaque]
pub open spec fn spec_sf(atoms: Seq<Atom>, m: [[i64; 3]; 3], g: (i64, i64, i64), s: i64) -> (
    i64,
    i64,
)
    decreases atoms.len(),
{
    if atoms.len() == 0 {
        (0, 0)
    } else {
        let prev = spec_sf(atoms.drop_last(), m, g, s);
        let atom = atoms.last();
        let f = spec_scatter(atom.element@, s);
        let rc = spec_frac_to_cart(atom.position, m);
        let phase = spec_add_fx(
            spec_add_fx(spec_mul_fx(g.0, rc.0), spec_mul_fx(g.1, rc.1)),
            spec_mul_fx(g.2, rc.2),
        );
        (
            spec_add_fx(prev.0, spec_mul_fx(f, spec_cos_fx(phase))),
            spec_add_fx(prev.1, spec_mul_fx(f, spec_sin_fx(phase))),
        )
    }
}

/// Lorentz-polarization correction `(1 + cos^2 2theta) / (sin^2 theta cos
/// theta)`; zero whenever the sine or cosine is not positive at working
/// resolution, which silences the singularities at zero and at a quarter
/// turn.
#[verifier::opaque]
pub open spec fn spec_lp(theta: i64) -> i64 {
    let st = spec_sin_fx(theta);
    let ct = spec_cos_fx(theta);
    let c2t = spec_cos_fx(spec_add_fx(theta, theta));
    if st <= 0 || ct <= 0 {
        0
    } else {
        spec_div_fx(
            spec_add_fx(SCALE, spec_mul_fx(c2t, c2t)),
            spec_mul_fx(spec_mul_fx(st, st), ct),
        )
    }
}

/// The candidate peak for one Miller triple, if the reflection is
/// geometrically reachable, falls inside the angular window, and scatters
/// measurably. A reciprocal vector or a d-spacing that rounds to zero at
/// working resolution is treated as unreachable, and a squared structure
/// factor that rounds to zero as absent.
#[verifier::opaque]
pub open spec fn spec_candidate(
    w: i64,
    m: [[i64; 3]; 3],
    atoms: Seq<Atom>,
    h: i64,
    k: i64,
    l: i64,
    tmin: i64,
    tmax: i64,
) -> Option<Peak> {
    let g = spec_g_vec(m, h, k, l);
    let gsq = spec_add_fx(
        spec_add_fx(spec_mul_fx(g.0, g.0), spec_mul_fx(g.1, g.1)),
        spec_mul_fx(g.2, g.2),
    );
    let gmag = spec_sqrt_fx(gsq);
    if gmag <= 0 {
        None
    } else {
        let d = spec_div_fx(TWO_PI_FX, gmag);
        if d <= 0 {
            None
        } else {
            let sin_theta = spec_div_fx(w, spec_add_fx(d, d));
            if sin_theta > SCALE || sin_theta < -SCALE {
                None
            } else {
                let theta = spec_asin_fx(sin_theta);
                let two_theta = spec_mul_div_fx(spec_add_fx(theta, theta), DEG_180_FX, PI_FX);
                if two_theta < tmin || two_theta > tmax {
                    None
                } else {
                    let s = spec_div_fx(sin_theta, w);
                    let sf = spec_sf(atoms, m, g, s);
                    let fsq = spec_add_fx(spec_mul_fx(sf.0, sf.0), spec_mul_fx(sf.1, sf.1));
                    if fsq <= 0 {
                        None
                    } else {
                        let lp = spec_lp(theta);
                        Some(
                            Peak {
                                two_theta,
                                d_spacing: d,
                                intensity: spec_mul_fx(fsq, lp),
                                h: h as i32,
                                k: k as i32,
                                l: l as i32,
                            },
                        )
                    }
                }
            }
        }
    }
}

/// Cross product of two rows.
fn cross3(u: &[i64; 3], v: &[i64; 3]) -> (r: [i64; 3])
    ensures
        r[0] == spec_cross3(*u, *v).0,
        r[1] == spec_cross3(*u, *v).1,
        r[2] == spec_cross3(*u, *v).2,
{
    [
        fx_sub(fx_mul(u[1], v[2]), fx_mul(u[2], v[1])),
        fx_sub(fx_mul(u[2], v[0]), fx_mul(u[0], v[2])),
        fx_sub(fx_mul(u[0], v[1]), fx_mul(u[1], v[0])),
    ]
}

/// Dot product of a row with a computed triple.
fn dot3_arr(u: &[i64; 3], t: &[i64; 3]) -> (r: i64)
    ensures
        r == spec_add_fx(
            spec_add_fx(spec_mul_fx(u[0], t[0]), spec_mul_fx(u[1], t[1])),
            spec_mul_fx(u[2], t[2]),
        ),
{
    fx_add(fx_add(fx_mul(u[0], t[0]), fx_mul(u[1], t[1])), fx_mul(u[2], t[2]))
}

/// The reciprocal lattice of a real-space matrix; every element equals its
/// spec counterpart.
fn reciprocal_lattice(m: &[[i64; 3]; 3]) -> (r: [[i64; 3]; 3])
    ensures
        forall|i: int, j: int|
            0 <= i < 3 && 0 <= j < 3 ==> r[i][j] == spec_tup_get(spec_recip_row(*m, i), j),
{
    proof {
        reveal(spec_recip_row);
    }
    let a: [i64; 3] = m[0];
    let b: [i64; 3] = m[1];
    let c: [i64; 3] = m[2];

    let b_cross_c: [i64; 3] = cross3(&b, &c);
    let c_cross_a: [i64; 3] = cross3(&c, &a);
    let a_cross_b: [i64; 3] = cross3(&a, &b);

    let volume: i64 = dot3_arr(&a, &b_cross_c);
    let factor: i64 = fx_div(TWO_PI_FX, volume);
    proof {
        assert(volume == spec_recip_volume(*m));
        assert(factor == spec_recip_factor(*m));
    }

    [
        [fx_mul(b_cross_c[0], factor), fx_mul(b_cross_c[1], factor), fx_mul(b_cross_c[2], factor)],
        [fx_mul(c_cross_a[0], factor), fx_mul(c_cross_a[1], factor), fx_mul(c_cross_a[2], factor)],
        [fx_mul(a_cross_b[0], factor), fx_mul(a_cross_b[1], factor), fx_mul(a_cross_b[2], factor)],
    ]
}

/// The cell volume as the calculator sees it.
fn recip_volume(m: &[[i64; 3]; 3]) -> (r: i64)
    ensures
        r == spec_recip_volume(*m),
{
    let b_cross_c: [i64; 3] = cross3(&m[1], &m[2]);
    let a: [i64; 3] = m[0];
    dot3_arr(&a, &b_cross_c)
}

/// The reciprocal vector for a Miller triple, from the precomputed
/// reciprocal matrix.
fn calculate_g(recip: &[[i64; 3]; 3], h: i64, k: i64, l: i64, Ghost(m): Ghost<[[i64; 3]; 3]>) -> (r:
    [i64; 3])
    requires
        -30 <= h <= 30,
        -30 <= k <= 30,
        -30 <= l <= 30,
        forall|i: int, j: int|
            0 <= i < 3 && 0 <= j < 3 ==> recip[i][j] == spec_tup_get(spec_recip_row(m, i), j),
    ensures
        r[0] == spec_g_vec(m, h, k, l).0,
        r[1] == spec_g_vec(m, h, k, l).1,
        r[2] == spec_g_vec(m, h, k, l).2,
{
    proof {
        reveal(spec_g_vec);
        assert(recip[0][0] == spec_tup_get(spec_recip_row(m, 0), 0));
        assert(recip[0][1] == spec_tup_get(spec_recip_row(m, 0), 1));
        assert(recip[0][2] == spec_tup_get(spec_recip_row(m, 0), 2));
        assert(recip[1][0] == spec_tup_get(spec_recip_row(m, 1), 0));
        assert(recip[1][1] == spec_tup_get(spec_recip_row(m, 1), 1));
        assert(recip[1][2] == spec_tup_get(spec_recip_row(m, 1), 2));
        assert(recip[2][0] == spec_tup_get(spec_recip_row(m, 2), 0));
        assert(recip[2][1] == spec_tup_get(spec_recip_row(m, 2), 1));
        assert(recip[2][2] == spec_tup_get(spec_recip_row(m, 2), 2));
    }
    let hf: i64 = h * 1_000_000;
    let kf: i64 = k * 1_000_000;
    let lf: i64 = l * 1_000_000;
    [
        fx_add(
            fx_add(fx_mul(hf, recip[0][0]), fx_mul(kf, recip[1][0])),
            fx_mul(lf, recip[2][0]),
        ),
        fx_add(
            fx_add(fx_mul(hf, recip[0][1]), fx_mul(kf, recip[1][1])),
            fx_mul(lf, recip[2][1]),
        ),
        fx_add(
            fx_add(fx_mul(hf, recip[0][2]), fx_mul(kf, recip[1][2])),
            fx_mul(lf, recip[2][2]),
        ),
    ]
}

/// A fractional position mapped to Cartesian coordinates.
fn frac_to_cart(f: &[i64; 3], m: &[[i64; 3]; 3]) -> (r: [i64; 3])
    ensures
        r[0] == spec_frac_to_cart(*f, *m).0,
        r[1] == spec_frac_to_cart(*f, *m).1,
        r[2] == spec_frac_to_cart(*f, *m).2,
{
    proof {
        reveal(spec_frac_to_cart);
    }
    [
        fx_add(
            fx_add(fx_mul(f[0], m[0][0]), fx_mul(f[1], m[1][0])),
            fx_mul(f[2], m[2][0]),
        ),
        fx_add(
            fx_add(fx_mul(f[0], m[0][1]), fx_mul(f[1], m[1][1])),
            fx_mul(f[2], m[2][1]),
        ),
        fx_add(
            fx_add(fx_mul(f[0], m[0][2]), fx_mul(f[1], m[1][2])),
            fx_mul(f[2], m[2][2]),
        ),
    ]
}

/// The structure-factor sums over all atoms of a crystal.
fn calculate_structure_factor(
    atoms: &Vec<Atom>,
    m: &[[i64; 3]; 3],
    g: &[i64; 3],
    s: i64,
) -> (r: (i64, i64))
    ensures
        r == spec_sf(atoms@, *m, ((g[0]), (g[1]), (g[2])), s),
{
    let ghost gt: (i64, i64, i64) = (g[0], g[1], g[2]);
    let mut f_real: i64 = 0;
    let mut f_imag: i64 = 0;
    let mut i: usize = 0;
    proof {
        reveal(spec_sf);
        assert(atoms@.subrange(0, 0) =~= Seq::<Atom>::empty());
    }
    while i < atoms.len()
        invariant
            i <= atoms@.len(),
            gt == ((g[0]), (g[1]), (g[2])),
            (f_real, f_imag) == spec_sf(atoms@.subrange(0, i as int), *m, gt, s),
        decreases atoms@.len() - i,
    {
        let atom: &Atom = &atoms[i];
        let f: i64 = calculate_scattering_factor(atom.element.as_str(), s);
        let cart: [i64; 3] = frac_to_cart(&atom.position, m);
        let phase: i64 = fx_add(
            fx_add(fx_mul(g[0], cart[0]), fx_mul(g[1], cart[1])),
            fx_mul(g[2], cart[2]),
        );
        f_real = fx_add(f_real, fx_mul(f, cos_fx(phase)));
        f_imag = fx_add(f_imag, fx_mul(f, sin_fx(phase)));
        proof {
            reveal(spec_sf);
            assert(atoms@.subrange(0, i + 1 as int).drop_last() =~= atoms@.subrange(0, i as int));
            assert(atoms@.subrange(0, i + 1 as int).last() == atoms@[i as int]);
        }
        i = i + 1;
    }
    proof {
        assert(atoms@.subrange(0, atoms@.len() as int) =~= atoms@);
    }
    (f_real, f_imag)
}

/// The Lorentz-polarization correction at a Bragg angle.
fn lorentz_polarization(theta: i64) -> (r: i64)
    ensures
        r == spec_lp(theta),
{
    proof {
        reveal(spec_lp);
    }
    let st: i64 = sin_fx(theta);
    let ct: i64 = cos_fx(theta);
    let c2t: i64 = cos_fx(fx_add(theta, theta));
    if st <= 0 || ct <= 0 {
        return 0;
    }
    fx_div(fx_add(SCALE, fx_mul(c2t, c2t)), fx_mul(fx_mul(st, st), ct))
}

/// The candidate peak for one Miller triple.
#[verifier::rlimit(100)]
fn candidate_peak(
    w: i64,
    recip: &[[i64; 3]; 3],
    matrix: &[[i64; 3]; 3],
    atoms: &Vec<Atom>,
    h: i64,
    k: i64,
    l: i64,
    tmin: i64,
    tmax: i64,
) -> (r: Option<Peak>)
    requires
        -30 <= h <= 30,
        -30 <= k <= 30,
        -30 <= l <= 30,
        forall|i: int, j: int|
            0 <= i < 3 && 0 <= j < 3 ==> recip[i][j] == spec_tup_get(spec_recip_row(*matrix, i), j),
    ensures
        r == spec_candidate(w, *matrix, atoms@, h, k, l, tmin, tmax),
{
    proof {
        reveal(spec_candidate);
    }
    let g: [i64; 3] = calculate_g(recip, h, k, l, Ghost(*matrix));
    let gsq: i64 = fx_add(fx_add(fx_mul(g[0], g[0]), fx_mul(g[1], g[1])), fx_mul(g[2], g[2]));
    let gmag: i64 = fx_sqrt(gsq);
    if gmag <= 0 {
        return None;
    }
    let d: i64 = fx_div(TWO_PI_FX, gmag);
    if d <= 0 {
        return None;
    }
    let sin_theta: i64 = fx_div(w, fx_add(d, d));
    if sin_theta > SCALE || sin_theta < -SCALE {
        return None;
    }
    let theta: i64 = asin_fx(sin_theta);
    let two_theta: i64 = fx_mul_div(fx_add(theta, theta), DEG_180_FX, PI_FX);
    if two_theta < tmin || two_theta > tmax {
        return None;
    }
    let s: i64 = fx_div(sin_theta, w);
    let (f_real, f_imag): (i64, i64) = calculate_structure_factor(atoms, matrix, &g, s);
    let fsq: i64 = fx_add(fx_mul(f_real, f_real), fx_mul(f_imag, f_imag));
    if fsq <= 0 {
        return None;
    }
    let lp: i64 = lorentz_polarization(theta);
    Some(
        Peak {
            two_theta,
            d_spacing: d,
            intensity: fx_mul(fsq, lp),
            h: h as i32,
            k: k as i32,
            l: l as i32,
        },
    )
}

/// The Miller triple at a flattened enumeration index: indices run
/// lexicographically over `[-bound, bound]^3`.
pub open spec fn spec_hkl(bound: i64, idx: i64) -> (i64, i64, i64) {
    let side = 2 * bound as int + 1;
    let h = idx as int / (side * side) - bound as int;
    let rem = idx as int % (side * side);
    let k = rem / side - bound as int;
    let l = rem % side - bound as int;
    ((h as i64), (k as i64), (l as i64))
}

/// The number of flattened indices for a bound.
pub open spec fn spec_total(bound: i64) -> int {
    let side = 2 * bound as int + 1;
    side * side * side
}

/// Decode a flattened index into its Miller triple.
fn hkl_of_index(bound: i64, idx: i64) -> (r: (i64, i64, i64))
    requires
        0 <= bound <= 30,
        0 <= idx < spec_total(bound),
    ensures
        r == spec_hkl(bound, idx),
        -bound <= r.0 <= bound,
        -bound <= r.1 <= bound,
        -bound <= r.2 <= bound,
{
    let side: u64 = (2 * bound + 1) as u64;
    assert(1 <= side * side <= 3_721) by (nonlinear_arith)
        requires
            1 <= side <= 61,
    ;
    let s2: u64 = side * side;
    let q: u64 = (idx as u64) / s2;
    let rem: u64 = (idx as u64) % s2;
    let kq: u64 = rem / side;
    let lr: u64 = rem % side;
    proof {
        vstd::arithmetic::div_mod::lemma_multiply_divide_lt(idx as int, s2 as int, side as int);
        vstd::arithmetic::div_mod::lemma_multiply_divide_lt(rem as int, side as int, side as int);
    }
    let h: i64 = q as i64 - bound;
    let k: i64 = kq as i64 - bound;
    let l: i64 = lr as i64 - bound;
    (h, k, l)
}

/// All candidate peaks for flattened indices below `n`, the origin
/// excluded, in enumeration order.
pub open spec fn spec_scan(
    w: i64,
    m: [[i64; 3]; 3],
    atoms: Seq<Atom>,
    tmin: i64,
    tmax: i64,
    bound: i64,
    n: int,
) -> Seq<Peak>
    decreases n,
{
    if n <= 0 {
        Seq::empty()
    } else {
        let prev = spec_scan(w, m, atoms, tmin, tmax, bound, n - 1);
        let t = spec_hkl(bound, (n - 1) as i64);
        if t.0 == 0 && t.1 == 0 && t.2 == 0 {
            prev
        } else {
            match spec_candidate(w, m, atoms, t.0, t.1, t.2, tmin, tmax) {
                Some(p) => prev.push(p),
                None => prev,
            }
        }
    }
}

/// Walk every Miller triple inside the bound and collect the candidate
/// peaks.
fn collect_peaks(
    w: i64,
    matrix: &[[i64; 3]; 3],
    atoms: &Vec<Atom>,
    tmin: i64,
    tmax: i64,
    bound: i64,
) -> (r: Vec<Peak>)
    requires
        0 <= bound <= 30,
    ensures
        r@ == spec_scan(w, *matrix, atoms@, tmin, tmax, bound, spec_total(bound)),
{
    let recip: [[i64; 3]; 3] = reciprocal_lattice(matrix);
    let side: i64 = 2 * bound + 1;
    assert(1 <= side * side <= 3_721) by (nonlinear_arith)
        requires
            1 <= side <= 61,
    ;
    assert(1 <= side * side * side <= 226_981) by (nonlinear_arith)
        requires
            1 <= side <= 61,
    ;
    let total: i64 = side * side * side;
    let mut peaks: Vec<Peak> = Vec::new();
    let mut idx: i64 = 0;
    proof {
        assert(peaks@ =~= spec_scan(w, *matrix, atoms@, tmin, tmax, bound, 0));
    }
    while idx < total
        invariant
            0 <= idx <= total,
            0 <= bound <= 30,
            total == spec_total(bound),
            forall|i: int, j: int|
                0 <= i < 3 && 0 <= j < 3 ==> recip[i][j] == spec_tup_get(
                    spec_recip_row(*matrix, i),
                    j,
                ),
            peaks@ == spec_scan(w, *matrix, atoms@, tmin, tmax, bound, idx as int),
        decreases total - idx,
    {
        let (h, k, l): (i64, i64, i64) = hkl_of_index(bound, idx);
        if !(h == 0 && k == 0 && l == 0) {
            match candidate_peak(w, &recip, matrix, atoms, h, k, l, tmin, tmax) {
                Some(p) => peaks.push(p),
                None => {},
            }
        }
        idx = idx + 1;
        proof {
            assert(peaks@ == spec_scan(w, *matrix, atoms@, tmin, tmax, bound, idx as int));
        }
    }
    peaks
}

/// Whether two angles fall within the merging tolerance of each other.
pub open spec fn spec_within_tol(a: i64, b: i64) -> bool {
    iabs(a as int - b as int) < MERGE_TOL_FX as int
}

/// The first position in `acc`, at or past `i`, whose angle lies within
/// the merging tolerance of `p`; the length of `acc` when there is none.
pub open spec fn spec_find_merge(acc: Seq<Peak>, p: Peak, i: int) -> int
    decreases acc.len() - i,
{
    if i < 0 || i >= acc.len() {
        acc.len() as int
    } else if spec_within_tol(acc[i].two_theta, p.two_theta) {
        i
    } else {
        spec_find_merge(acc, p, i + 1)
    }
}

/// One peak absorbed into an accumulator: the first group within tolerance
/// gains its intensity, or it starts a new group at the end.
pub open spec fn spec_merge_one(acc: Seq<Peak>, p: Peak) -> Seq<Peak> {
    let j = spec_find_merge(acc, p, 0);
    if j < acc.len() {
        acc.update(
            j,
            Peak {
                two_theta: acc[j].two_theta,
                d_spacing: acc[j].d_spacing,
                intensity: spec_add_fx(acc[j].intensity, p.intensity),
                h: acc[j].h,
                k: acc[j].k,
                l: acc[j].l,
            },
        )
    } else {
        acc.push(p)
    }
}

/// Peaks merged in order: reflections within the angular tolerance of an
/// earlier group sum their intensities into it; the first-seen angle,
/// d-spacing and Miller labels are kept.
pub open spec fn spec_merge(ps: Seq<Peak>) -> Seq<Peak>
    decreases ps.len(),
{
    if ps.len() == 0 {
        Seq::empty()
    } else {
        spec_merge_one(spec_merge(ps.drop_last()), ps.last())
    }
}

/// The first group within tolerance of `p`, or the accumulator's length.
fn find_merge_index(merged: &Vec<Peak>, p: &Peak) -> (j: usize)
    ensures
        j as int == spec_find_merge(merged@, *p, 0),
{
    let mut j: usize = 0;
    while j < merged.len()
        invariant
            j <= merged@.len(),
            spec_find_merge(merged@, *p, 0) == spec_find_merge(merged@, *p, j as int),
        decreases merged@.len() - j,
    {
        let d: i128 = merged[j].two_theta as i128 - p.two_theta as i128;
        if d < MERGE_TOL_FX as i128 && d > -(MERGE_TOL_FX as i128) {
            return j;
        }
        j = j + 1;
    }
    j
}

/// Merge reflections that coincide within the angular tolerance, summing
/// their intensities into the first-encountered peak of each group.
pub fn merge_equivalent_peaks(peaks: Vec<Peak>) -> (r: Vec<Peak>)
    ensures
        r@ == spec_merge(peaks@),
{
    let mut merged: Vec<Peak> = Vec::new();
    let mut i: usize = 0;
    proof {
        assert(peaks@.subrange(0, 0) =~= Seq::<Peak>::empty());
    }
    while i < peaks.len()
        invariant
            i <= peaks@.len(),
            merged@ == spec_merge(peaks@.subrange(0, i as int)),
        decreases peaks@.len() - i,
    {
        let p: Peak = peaks[i];
        let j: usize = find_merge_index(&merged, &p);
        if j < merged.len() {
            let e: Peak = merged[j];
            merged[j] = Peak {
                two_theta: e.two_theta,
                d_spacing: e.d_spacing,
                intensity: fx_add(e.intensity, p.intensity),
                h: e.h,
                k: e.k,
                l: e.l,
            };
        } else {
            merged.push(p);
        }
        proof {
            assert(peaks@.subrange(0, i + 1 as int).drop_last() =~= peaks@.subrange(0, i as int));
            assert(peaks@.subrange(0, i + 1 as int).last() == peaks@[i as int]);
        }
        i = i + 1;
    }
    proof {
        assert(peaks@.subrange(0, peaks@.len() as int) =~= peaks@);
    }
    merged
}

/// A peak placed into a descending-by-intensity sequence, after every peak
/// at least as intense: a stable insertion.
pub open spec fn spec_insert_desc(s: Seq<Peak>, p: Peak) -> Seq<Peak>
    decreases s.len(),
{
    if s.len() == 0 {
        seq![p]
    } else if s.last().intensity >= p.intensity {
        s.push(p)
    } else {
        spec_insert_desc(s.drop_last(), p).push(s.last())
    }
}

/// Peaks sorted by descending intensity, stably.
pub open spec fn spec_sort_desc(s: Seq<Peak>) -> Seq<Peak>
    decreases s.len(),
{
    if s.len() == 0 {
        Seq::empty()
    } else {
        spec_insert_desc(spec_sort_desc(s.drop_last()), s.last())
    }
}

/// Stable insertion lands exactly where the scan from the right stops.
proof fn lemma_insert_position(s: Seq<Peak>, p: Peak, j: int)
    requires
        0 <= j <= s.len(),
        forall|k: int| j <= k < s.len() ==> s[k].intensity < p.intensity,
        j == 0 || s[j - 1].intensity >= p.intensity,
    ensures
        spec_insert_desc(s, p) =~= s.insert(j, p),
    decreases s.len(),
{
    if s.len() == 0 {
        assert(spec_insert_desc(s, p) =~= s.insert(0, p));
    } else if s.last().intensity >= p.intensity {
        assert(j == s.len());
        assert(spec_insert_desc(s, p) =~= s.insert(j, p));
    } else {
        assert(j < s.len());
        lemma_insert_position(s.drop_last(), p, j);
        assert(spec_insert_desc(s, p) =~= s.insert(j, p));
    }
}

/// Sort peaks by descending intensity, keeping the relative order of ties.
fn sort_by_intensity_desc(input: Vec<Peak>) -> (r: Vec<Peak>)
    ensures
        r@ == spec_sort_desc(input@),
{
    let mut v: Vec<Peak> = Vec::new();
    let mut i: usize = 0;
    proof {
        assert(input@.subrange(0, 0) =~= Seq::<Peak>::empty());
    }
    while i < input.len()
        invariant
            i <= input@.len(),
            v@ == spec_sort_desc(input@.subrange(0, i as int)),
        decreases input@.len() - i,
    {
        let p: Peak = input[i];
        let mut pos: usize = v.len();
        while pos > 0 && v[pos - 1].intensity < p.intensity
            invariant
                pos <= v@.len(),
                forall|k: int| pos <= k < v@.len() ==> v@[k].intensity < p.intensity,
            decreases pos,
        {
            pos = pos - 1;
        }
        let ghost prev = v@;
        v.insert(pos, p);
        proof {
            lemma_insert_position(prev, p, pos as int);
            assert(input@.subrange(0, i + 1 as int).drop_last() =~= input@.subrange(0, i as int));
            assert(input@.subrange(0, i + 1 as int).last() == input@[i as int]);
            assert(v@ =~= spec_insert_desc(prev, p));
        }
        i = i + 1;
    }
    proof {
        assert(input@.subrange(0, input@.len() as int) =~= input@);
    }
    v
}

/// One peak rescaled against the maximum intensity.
pub open spec fn spec_norm_peak(p: Peak, mx: i64) -> Peak {
    Peak {
        two_theta: p.two_theta,
        d_spacing: p.d_spacing,
        intensity: spec_mul_div_fx(p.intensity, HUNDRED_FX, mx),
        h: p.h,
        k: p.k,
        l: p.l,
    }
}

/// A descending peak list rescaled so the leading intensity reads one
/// hundred; left alone when empty or when the maximum is not positive.
pub open spec fn spec_normalize(s: Seq<Peak>) -> Seq<Peak> {
    if s.len() == 0 {
        s
    } else {
        let mx = s[0].intensity;
        if mx > 0 {
            Seq::new(s.len(), |i: int| spec_norm_peak(s[i], mx))
        } else {
            s
        }
    }
}

/// Rescale intensities against the leading peak.
fn normalize_peaks(v: &mut Vec<Peak>) -> (nothing: ())
    ensures
        final(v)@ == spec_normalize(old(v)@),
{
    if v.len() == 0 {
        return ;
    }
    let mx: i64 = v[0].intensity;
    if mx <= 0 {
        return ;
    }
    let mut i: usize = 0;
    while i < v.len()
        invariant
            i <= v@.len(),
            v@.len() == old(v)@.len(),
            mx == old(v)@[0].intensity,
            mx > 0,
            forall|k: int| 0 <= k < i ==> v@[k] == spec_norm_peak(old(v)@[k], mx),
            forall|k: int| i <= k < v@.len() ==> v@[k] == old(v)@[k],
        decreases v@.len() - i,
    {
        let e: Peak = v[i];
        v[i] = Peak {
            two_theta: e.two_theta,
            d_spacing: e.d_spacing,
            intensity: fx_mul_div(e.intensity, HUNDRED_FX, mx),
            h: e.h,
            k: e.k,
            l: e.l,
        };
        i = i + 1;
    }
    proof {
        assert(v@ =~= spec_normalize(old(v)@));
    }
}

/// The Miller-index search bound for a wavelength, lattice and upper angle:
/// conservative from the largest cell parameter, clamped to the hard
/// ceiling.
pub open spec fn spec_bound(w: i64, m: [[i64; 3]; 3], tmax: i64) -> i64 {
    let theta_max_rad = spec_mul_div_fx(spec_mul_div_fx(tmax, PI_FX, DEG_180_FX), 1, 2);
    let st = spec_sin_fx(theta_max_rad);
    let g_max = spec_div_fx(spec_add_fx(st, st), w);
    let params = spec_parameters(m);
    let maxp = if params.0 >= params.1 && params.0 >= params.2 {
        params.0
    } else if params.1 >= params.2 {
        params.1
    } else {
        params.2
    };
    let b0 = spec_mul_div_fx(g_max, maxp, 1_000_000_000_000);
    if b0 >= 30 {
        30
    } else if b0 as int + 1 <= 0 {
        0
    } else {
        (b0 + 1) as i64
    }
}

/// The merged, sorted and normalized peak list of a calculation.
pub open spec fn spec_pattern_peaks(
    w: i64,
    m: [[i64; 3]; 3],
    atoms: Seq<Atom>,
    tmin: i64,
    tmax: i64,
) -> Seq<Peak> {
    let bound = spec_bound(w, m, tmax);
    spec_normalize(
        spec_sort_desc(spec_merge(spec_scan(w, m, atoms, tmin, tmax, bound, spec_total(bound)))),
    )
}

/// The outcome of a calculation: refused for a non-positive wavelength or a
/// vanishing cell volume, otherwise exactly the peak list above.
pub open spec fn spec_calculate_outcome(
    w: i64,
    m: [[i64; 3]; 3],
    atoms: Seq<Atom>,
    tmin: i64,
    tmax: i64,
) -> Result<Seq<Peak>, XrdError> {
    if w <= 0 {
        Err(XrdError::InvalidWavelength)
    } else if spec_recip_volume(m) == 0 {
        Err(XrdError::DegenerateLattice)
    } else {
        Ok(spec_pattern_peaks(w, m, atoms, tmin, tmax))
    }
}

/// The diffraction calculator: a wavelength, in micro-angstroms.
pub struct XrdCalculator {
    wavelength: i64,
}

impl XrdCalculator {
    /// The X-ray wavelength this calculator uses.
    pub closed spec fn spec_wavelength(&self) -> i64 {
        self.wavelength
    }

    /// A calculator for one wavelength.
    pub fn new(wavelength: i64) -> (r: XrdCalculator)
        ensures
            r.spec_wavelength() == wavelength,
    {
        XrdCalculator { wavelength }
    }

    /// Compute the diffraction pattern of a crystal over an angular window.
    ///
    /// Fails exactly when the wavelength is not positive or the cell volume
    /// vanishes at working resolution; otherwise the peaks are precisely
    /// `spec_pattern_peaks` of the inputs, so identical inputs always give
    /// identical patterns.
    pub fn calculate(
        &self,
        crystal: &Crystal,
        two_theta_min: i64,
        two_theta_max: i64,
    ) -> (r: Result<XrdPattern, XrdError>)
        ensures
            r is Ok <==> (self.spec_wavelength() > 0 && spec_recip_volume(crystal.lattice.matrix)
                != 0),
            self.spec_wavelength() <= 0 ==> r == Err::<XrdPattern, XrdError>(
                XrdError::InvalidWavelength,
            ),
            self.spec_wavelength() > 0 && spec_recip_volume(crystal.lattice.matrix) == 0 ==> r
                == Err::<XrdPattern, XrdError>(XrdError::DegenerateLattice),
            r is Ok ==> r->Ok_0.peaks@ == spec_pattern_peaks(
                self.spec_wavelength(),
                crystal.lattice.matrix,
                crystal.atoms@,
                two_theta_min,
                two_theta_max,
            ),
            r is Ok ==> r->Ok_0.wavelength == self.spec_wavelength(),
            r is Ok ==> r->Ok_0.structure_name@ == crystal.name@,
            r is Ok ==> spec_peaks_in_window(r->Ok_0.peaks@, two_theta_min, two_theta_max),
            r is Ok ==> spec_intensities_scaled(r->Ok_0.peaks@),
            r is Ok ==> spec_sorted_desc(r->Ok_0.peaks@),
            r is Ok && r->Ok_0.peaks@.len() > 0 && r->Ok_0.peaks@[0].intensity > 0 ==> r->Ok_0.peaks@[0].intensity == HUNDRED_FX,
    {
        proof {
            lemma_pattern_peaks_props(
                self.spec_wavelength(),
                crystal.lattice.matrix,
                crystal.atoms@,
                two_theta_min,
                two_theta_max,
            );
        }
        if self.wavelength <= 0 {
            return Err(XrdError::InvalidWavelength);
        }
        let vol: i64 = recip_volume(&crystal.lattice.matrix);
        if vol == 0 {
            return Err(XrdError::DegenerateLattice);
        }

        let theta_max_rad: i64 = fx_mul_div(
            fx_mul_div(two_theta_max, PI_FX, DEG_180_FX),
            1,
            2,
        );
        let st: i64 = sin_fx(theta_max_rad);
        let g_max: i64 = fx_div(fx_add(st, st), self.wavelength);
        let (la, lb, lc, _alpha, _beta, _gamma): (i64, i64, i64, i64, i64, i64) =
            crystal.lattice.parameters();
        let maxp: i64 = if la >= lb && la >= lc {
            la
        } else if lb >= lc {
            lb
        } else {
            lc
        };
        let b0: i64 = fx_mul_div(g_max, maxp, 1_000_000_000_000);
        let bound: i64 = if b0 >= 30 {
            30
        } else if b0 + 1 <= 0 {
            0
        } else {
            b0 + 1
        };
        assert(bound == spec_bound(self.wavelength, crystal.lattice.matrix, two_theta_max));

        let collected: Vec<Peak> = collect_peaks(
            self.wavelength,
            &crystal.lattice.matrix,
            &crystal.atoms,
            two_theta_min,
            two_theta_max,
            bound,
        );
        let mut peaks: Vec<Peak> = sort_by_intensity_desc(merge_equivalent_peaks(collected));
        normalize_peaks(&mut peaks);

        Ok(
            XrdPattern {
                peaks,
                wavelength: self.wavelength,
                structure_name: crystal.name.clone(),
            },
        )
    }
}

/// Every peak's angle lies inside the window.
pub open spec fn spec_peaks_in_window(s: Seq<Peak>, tmin: i64, tmax: i64) -> bool {
    forall|i: int| 0 <= i < s.len() ==> tmin <= #[trigger] s[i].two_theta <= tmax
}

/// Every peak's intensity is non-negative.
pub open spec fn spec_intensities_nonneg(s: Seq<Peak>) -> bool {
    forall|i: int| 0 <= i < s.len() ==> #[trigger] s[i].intensity >= 0
}

/// Every peak's intensity lies on the normalized 0-100 scale.
pub open spec fn spec_intensities_scaled(s: Seq<Peak>) -> bool {
    forall|i: int| 0 <= i < s.len() ==> 0 <= #[trigger] s[i].intensity <= HUNDRED_FX
}

/// Peaks are ordered by weakly descending intensity.
pub open spec fn spec_sorted_desc(s: Seq<Peak>) -> bool {
    forall|i: int, j: int| 0 <= i < j < s.len() ==> s[i].intensity >= s[j].intensity
}

/// The Lorentz-polarization factor is never negative.
proof fn lemma_lp_nonneg(theta: i64)
    ensures
        spec_lp(theta) >= 0,
{
    reveal(spec_lp);
    let st = spec_sin_fx(theta);
    let ct = spec_cos_fx(theta);
    let c2t = spec_cos_fx(spec_add_fx(theta, theta));
    if st > 0 && ct > 0 {
        crate::fx::lemma_square_fx_nonneg(c2t);
        crate::fx::lemma_add_fx_nonneg(SCALE, spec_mul_fx(c2t, c2t));
        crate::fx::lemma_square_fx_nonneg(st);
        crate::fx::lemma_mul_fx_nonneg(spec_mul_fx(st, st), ct);
        crate::fx::lemma_div_fx_nonneg(
            spec_add_fx(SCALE, spec_mul_fx(c2t, c2t)),
            spec_mul_fx(spec_mul_fx(st, st), ct),
        );
    }
}

/// A candidate peak sits inside the window and has non-negative intensity.
proof fn lemma_candidate_props(
    w: i64,
    m: [[i64; 3]; 3],
    atoms: Seq<Atom>,
    h: i64,
    k: i64,
    l: i64,
    tmin: i64,
    tmax: i64,
)
    ensures
        spec_candidate(w, m, atoms, h, k, l, tmin, tmax) matches Some(p) ==> tmin <= p.two_theta
            <= tmax && p.intensity >= 0,
{
    reveal(spec_candidate);
    let g = spec_g_vec(m, h, k, l);
    let sin_theta_opt = spec_candidate(w, m, atoms, h, k, l, tmin, tmax);
    if sin_theta_opt is Some {
        let gsq = spec_add_fx(
            spec_add_fx(spec_mul_fx(g.0, g.0), spec_mul_fx(g.1, g.1)),
            spec_mul_fx(g.2, g.2),
        );
        let gmag = spec_sqrt_fx(gsq);
        let d = spec_div_fx(TWO_PI_FX, gmag);
        let sin_theta = spec_div_fx(w, spec_add_fx(d, d));
        let theta = spec_asin_fx(sin_theta);
        let sf = spec_sf(atoms, m, g, spec_div_fx(sin_theta, w));
        let fsq = spec_add_fx(spec_mul_fx(sf.0, sf.0), spec_mul_fx(sf.1, sf.1));
        lemma_lp_nonneg(theta);
        crate::fx::lemma_square_fx_nonneg(sf.0);
        crate::fx::lemma_square_fx_nonneg(sf.1);
        crate::fx::lemma_add_fx_nonneg(spec_mul_fx(sf.0, sf.0), spec_mul_fx(sf.1, sf.1));
        crate::fx::lemma_mul_fx_nonneg(fsq, spec_lp(theta));
    }
}

/// Every scanned peak sits inside the window with non-negative intensity.
proof fn lemma_scan_props(
    w: i64,
    m: [[i64; 3]; 3],
    atoms: Seq<Atom>,
    tmin: i64,
    tmax: i64,
    bound: i64,
    n: int,
)
    ensures
        spec_peaks_in_window(spec_scan(w, m, atoms, tmin, tmax, bound, n), tmin, tmax),
        spec_intensities_nonneg(spec_scan(w, m, atoms, tmin, tmax, bound, n)),
    decreases n,
{
    if n > 0 {
        lemma_scan_props(w, m, atoms, tmin, tmax, bound, n - 1);
        let t = spec_hkl(bound, (n - 1) as i64);
        lemma_candidate_props(w, m, atoms, t.0, t.1, t.2, tmin, tmax);
    }
}

/// The found merge position lies between the start index and the length.
proof fn lemma_find_merge_range(acc: Seq<Peak>, p: Peak, i: int)
    requires
        0 <= i <= acc.len(),
    ensures
        i <= spec_find_merge(acc, p, i) <= acc.len(),
    decreases acc.len() - i,
{
    if i < acc.len() && !spec_within_tol(acc[i].two_theta, p.two_theta) {
        lemma_find_merge_range(acc, p, i + 1);
    }
}

/// Merging keeps angles inside the window and intensities non-negative.
proof fn lemma_merge_props(ps: Seq<Peak>, tmin: i64, tmax: i64)
    requires
        spec_peaks_in_window(ps, tmin, tmax),
        spec_intensities_nonneg(ps),
    ensures
        spec_peaks_in_window(spec_merge(ps), tmin, tmax),
        spec_intensities_nonneg(spec_merge(ps)),
    decreases ps.len(),
{
    if ps.len() > 0 {
        assert(spec_peaks_in_window(ps.drop_last(), tmin, tmax));
        assert(spec_intensities_nonneg(ps.drop_last()));
        lemma_merge_props(ps.drop_last(), tmin, tmax);
        let acc = spec_merge(ps.drop_last());
        let p = ps.last();
        assert(p == ps[ps.len() - 1]);
        assert(tmin <= p.two_theta <= tmax);
        assert(p.intensity >= 0);
        let j = spec_find_merge(acc, p, 0);
        lemma_find_merge_range(acc, p, 0);
        let r = spec_merge(ps);
        assert(r == spec_merge_one(acc, p));
        if j < acc.len() {
            assert(acc[j].intensity >= 0);
            crate::fx::lemma_add_fx_nonneg(acc[j].intensity, p.intensity);
            assert forall|i: int| 0 <= i < r.len() implies tmin <= #[trigger] r[i].two_theta
                <= tmax && r[i].intensity >= 0 by {
                if i != j {
                    assert(r[i] == acc[i]);
                }
            }
        } else {
            assert forall|i: int| 0 <= i < r.len() implies tmin <= #[trigger] r[i].two_theta
                <= tmax && r[i].intensity >= 0 by {
                if i < acc.len() {
                    assert(r[i] == acc[i]);
                } else {
                    assert(r[i] == p);
                }
            }
        }
    }
}

/// Insertion keeps angles inside the window and intensities non-negative.
proof fn lemma_insert_props(s: Seq<Peak>, p: Peak, tmin: i64, tmax: i64)
    requires
        spec_peaks_in_window(s, tmin, tmax),
        spec_intensities_nonneg(s),
        tmin <= p.two_theta <= tmax,
        p.intensity >= 0,
    ensures
        spec_peaks_in_window(spec_insert_desc(s, p), tmin, tmax),
        spec_intensities_nonneg(spec_insert_desc(s, p)),
    decreases s.len(),
{
    if s.len() > 0 && s.last().intensity < p.intensity {
        assert(spec_peaks_in_window(s.drop_last(), tmin, tmax));
        assert(spec_intensities_nonneg(s.drop_last()));
        lemma_insert_props(s.drop_last(), p, tmin, tmax);
    }
}

/// Every intensity in a stable insertion stays at least `c` when the
/// inserted peak and all prior intensities do.
proof fn lemma_insert_all_ge(s: Seq<Peak>, p: Peak, c: int)
    requires
        forall|i: int| 0 <= i < s.len() ==> #[trigger] s[i].intensity >= c,
        p.intensity >= c,
    ensures
        forall|i: int|
            0 <= i < spec_insert_desc(s, p).len() ==> #[trigger] spec_insert_desc(s, p)[i].intensity
                >= c,
    decreases s.len(),
{
    let r = spec_insert_desc(s, p);
    if s.len() == 0 {
        assert(r[0] == p);
    } else if s.last().intensity >= p.intensity {
        assert(s.last() == s[s.len() - 1]);
        assert forall|i: int| 0 <= i < r.len() implies #[trigger] r[i].intensity >= c by {
            if i < s.len() {
                assert(r[i] == s[i]);
            } else {
                assert(r[i] == p);
            }
        }
    } else {
        assert(forall|i: int|
            0 <= i < s.drop_last().len() ==> #[trigger] s.drop_last()[i].intensity >= c);
        lemma_insert_all_ge(s.drop_last(), p, c);
        let inner = spec_insert_desc(s.drop_last(), p);
        assert(s.last() == s[s.len() - 1]);
        assert forall|i: int| 0 <= i < r.len() implies #[trigger] r[i].intensity >= c by {
            if i < inner.len() {
                assert(r[i] == inner[i]);
            } else {
                assert(r[i] == s.last());
            }
        }
    }
}

/// Stable insertion into a descending sequence keeps it descending.
proof fn lemma_insert_sorted(s: Seq<Peak>, p: Peak)
    requires
        spec_sorted_desc(s),
    ensures
        spec_sorted_desc(spec_insert_desc(s, p)),
    decreases s.len(),
{
    if s.len() == 0 {
    } else if s.last().intensity >= p.intensity {
        assert forall|i: int, j: int|
            0 <= i < j < spec_insert_desc(s, p).len() implies spec_insert_desc(s, p)[i].intensity
            >= spec_insert_desc(s, p)[j].intensity by {
            if j < s.len() {
            } else {
                assert(s[i].intensity >= s[s.len() - 1].intensity);
            }
        }
    } else {
        assert(spec_sorted_desc(s.drop_last()));
        lemma_insert_sorted(s.drop_last(), p);
        lemma_insert_all_ge(s.drop_last(), p, s.last().intensity as int);
        let inner = spec_insert_desc(s.drop_last(), p);
        assert forall|i: int, j: int|
            0 <= i < j < spec_insert_desc(s, p).len() implies spec_insert_desc(s, p)[i].intensity
            >= spec_insert_desc(s, p)[j].intensity by {
            if j < inner.len() {
            } else {
                assert(inner[i].intensity >= s.last().intensity);
            }
        }
    }
}

/// Sorting yields a descending sequence and keeps window and sign
/// properties.
proof fn lemma_sort_props(s: Seq<Peak>, tmin: i64, tmax: i64)
    requires
        spec_peaks_in_window(s, tmin, tmax),
        spec_intensities_nonneg(s),
    ensures
        spec_sorted_desc(spec_sort_desc(s)),
        spec_peaks_in_window(spec_sort_desc(s), tmin, tmax),
        spec_intensities_nonneg(spec_sort_desc(s)),
    decreases s.len(),
{
    if s.len() > 0 {
        assert(spec_peaks_in_window(s.drop_last(), tmin, tmax));
        assert(spec_intensities_nonneg(s.drop_last()));
        lemma_sort_props(s.drop_last(), tmin, tmax);
        lemma_insert_sorted(spec_sort_desc(s.drop_last()), s.last());
        lemma_insert_props(spec_sort_desc(s.drop_last()), s.last(), tmin, tmax);
    }
}

/// Normalization of a sorted, non-negative list: every intensity lands on
/// the 0-100 scale, the leading intensity lands exactly on 100 when it was
/// positive, order stays descending, and angles are untouched.
proof fn lemma_normalize_props(s: Seq<Peak>, tmin: i64, tmax: i64)
    requires
        spec_sorted_desc(s),
        spec_peaks_in_window(s, tmin, tmax),
        spec_intensities_nonneg(s),
    ensures
        spec_intensities_scaled(spec_normalize(s)),
        spec_peaks_in_window(spec_normalize(s), tmin, tmax),
        spec_sorted_desc(spec_normalize(s)),
        spec_normalize(s).len() == s.len(),
        s.len() > 0 && s[0].intensity > 0 ==> spec_normalize(s)[0].intensity == HUNDRED_FX,
{
    if s.len() == 0 {
    } else {
        let mx = s[0].intensity;
        if mx > 0 {
            let r = spec_normalize(s);
            assert forall|i: int| 0 <= i < r.len() implies 0 <= #[trigger] r[i].intensity
                <= HUNDRED_FX && tmin <= r[i].two_theta <= tmax by {
                assert(s[i].intensity <= mx) by {
                    if i > 0 {
                        assert(s[0].intensity >= s[i].intensity);
                    }
                }
                lemma_scale_bounds(s[i].intensity, mx);
                assert(r[i] == spec_norm_peak(s[i], mx));
            }
            assert(r[0] == spec_norm_peak(s[0], mx));
            lemma_scale_exact(mx);
            assert forall|i: int, j: int| 0 <= i < j < r.len() implies r[i].intensity
                >= r[j].intensity by {
                assert(s[i].intensity >= s[j].intensity);
                lemma_scale_ordered(s[j].intensity, s[i].intensity, mx);
                assert(r[i] == spec_norm_peak(s[i], mx));
                assert(r[j] == spec_norm_peak(s[j], mx));
            }
        } else {
            assert forall|i: int| 0 <= i < s.len() implies 0 <= #[trigger] s[i].intensity
                <= HUNDRED_FX by {
                if i > 0 {
                    assert(s[0].intensity >= s[i].intensity);
                }
            }
        }
    }
}

/// Rescaling a value between zero and the maximum lands on the 0-100 scale.
proof fn lemma_scale_bounds(v: i64, mx: i64)
    requires
        0 <= v <= mx,
        mx > 0,
    ensures
        0 <= spec_mul_div_fx(v, HUNDRED_FX, mx) <= HUNDRED_FX,
{
    assert(v as int * HUNDRED_FX as int >= 0) by (nonlinear_arith)
        requires
            v as int >= 0,
    ;
    crate::fx::lemma_div_trunc_nonneg(v as int * HUNDRED_FX as int, mx as int);
    vstd::arithmetic::mul::lemma_mul_inequality(v as int, mx as int, HUNDRED_FX as int);
    vstd::arithmetic::div_mod::lemma_div_is_ordered(
        v as int * HUNDRED_FX as int,
        mx as int * HUNDRED_FX as int,
        mx as int,
    );
    assert(mx as int * HUNDRED_FX as int == mx as int * HUNDRED_FX as int);
    vstd::arithmetic::div_mod::lemma_div_multiples_vanish(HUNDRED_FX as int, mx as int);
    assert(mx as int * HUNDRED_FX as int / mx as int == HUNDRED_FX as int);
}

/// The maximum itself rescales exactly to one hundred.
proof fn lemma_scale_exact(mx: i64)
    requires
        mx > 0,
    ensures
        spec_mul_div_fx(mx, HUNDRED_FX, mx) == HUNDRED_FX,
{
    vstd::arithmetic::div_mod::lemma_div_multiples_vanish(HUNDRED_FX as int, mx as int);
    assert(mx as int * HUNDRED_FX as int / mx as int == HUNDRED_FX as int);
    crate::fx::lemma_div_trunc_nonneg(mx as int * HUNDRED_FX as int, mx as int);
}

/// Rescaling preserves order.
proof fn lemma_scale_ordered(lo: i64, hi: i64, mx: i64)
    requires
        0 <= lo <= hi,
        mx > 0,
    ensures
        spec_mul_div_fx(lo, HUNDRED_FX, mx) <= spec_mul_div_fx(hi, HUNDRED_FX, mx),
{
    vstd::arithmetic::mul::lemma_mul_inequality(lo as int, hi as int, HUNDRED_FX as int);
    vstd::arithmetic::div_mod::lemma_div_is_ordered(
        lo as int * HUNDRED_FX as int,
        hi as int * HUNDRED_FX as int,
        mx as int,
    );
    crate::fx::lemma_div_trunc_nonneg(lo as int * HUNDRED_FX as int, mx as int);
    crate::fx::lemma_div_trunc_nonneg(hi as int * HUNDRED_FX as int, mx as int);
}

/// The peak list of a successful calculation keeps every angle inside the
/// requested window, every intensity on the 0-100 scale in descending
/// order, and rescales a positive maximum to exactly one hundred.
pub proof fn lemma_pattern_peaks_props(
    w: i64,
    m: [[i64; 3]; 3],
    atoms: Seq<Atom>,
    tmin: i64,
    tmax: i64,
)
    ensures
        spec_peaks_in_window(spec_pattern_peaks(w, m, atoms, tmin, tmax), tmin, tmax),
        spec_intensities_scaled(spec_pattern_peaks(w, m, atoms, tmin, tmax)),
        spec_sorted_desc(spec_pattern_peaks(w, m, atoms, tmin, tmax)),
        spec_pattern_peaks(w, m, atoms, tmin, tmax).len() > 0 && spec_pattern_peaks(
            w,
            m,
            atoms,
            tmin,
            tmax,
        )[0].intensity > 0 ==> spec_pattern_peaks(w, m, atoms, tmin, tmax)[0].intensity
            == HUNDRED_FX,
{
    let bound = spec_bound(w, m, tmax);
    let scanned = spec_scan(w, m, atoms, tmin, tmax, bound, spec_total(bound));
    let merged = spec_merge(scanned);
    let sorted = spec_sort_desc(merged);
    lemma_scan_props(w, m, atoms, tmin, tmax, bound, spec_total(bound));
    lemma_merge_props(scanned, tmin, tmax);
    lemma_sort_props(merged, tmin, tmax);
    lemma_normalize_props(sorted, tmin, tmax);
    if sorted.len() > 0 && sorted[0].intensity <= 0 {
        assert(spec_normalize(sorted) == sorted);
    }
}

/// Calculating twice from identical inputs yields identical peak lists:
/// the pattern is a function of wavelength, lattice, atoms and window
/// alone.
pub proof fn lemma_calculate_deterministic(
    p1: XrdPattern,
    p2: XrdPattern,
    w: i64,
    m: [[i64; 3]; 3],
    atoms: Seq<Atom>,
    tmin: i64,
    tmax: i64,
)
    requires
        p1.peaks@ == spec_pattern_peaks(w, m, atoms, tmin, tmax),
        p2.peaks@ == spec_pattern_peaks(w, m, atoms, tmin, tmax),
    ensures
        p1.peaks@ == p2.peaks@,
{
}

/// Two reflections whose angles differ by less than the merging tolerance
/// appear as a single peak whose intensity is the sum of theirs, labelled
/// by the first reflection.
pub proof fn lemma_merge_two_close(p1: Peak, p2: Peak)
    requires
        iabs(p1.two_theta as int - p2.two_theta as int) < MERGE_TOL_FX as int,
    ensures
        spec_merge(seq![p1, p2]) =~= seq![
            Peak {
                two_theta: p1.two_theta,
                d_spacing: p1.d_spacing,
                intensity: spec_add_fx(p1.intensity, p2.intensity),
                h: p1.h,
                k: p1.k,
                l: p1.l,
            },
        ],
{
    let two = seq![p1, p2];
    assert(two.drop_last() =~= seq![p1]);
    let one = seq![p1];
    assert(one.drop_last() =~= Seq::<Peak>::empty());
    assert(spec_merge(Seq::<Peak>::empty()) =~= Seq::<Peak>::empty());
    assert(spec_find_merge(Seq::<Peak>::empty(), p1, 0) == 0);
    assert(spec_merge(one) =~= one);
    assert(spec_find_merge(one, p2, 0) == 0);
}

/// The structure-factor sums always lie inside the saturation range.
proof fn lemma_sf_bounded(atoms: Seq<Atom>, m: [[i64; 3]; 3], g: (i64, i64, i64), s: i64)
    ensures
        crate::fx::FX_SAT_NEG <= spec_sf(atoms, m, g, s).0 <= crate::fx::FX_SAT,
        crate::fx::FX_SAT_NEG <= spec_sf(atoms, m, g, s).1 <= crate::fx::FX_SAT,
    decreases atoms.len(),
{
    reveal(spec_sf);
    if atoms.len() > 0 {
        lemma_sf_bounded(atoms.drop_last(), m, g, s);
    }
}

/// An atom whose symbol resolves to no table entry contributes nothing to
/// any structure factor.
pub proof fn lemma_unknown_atom_sf(
    atoms: Seq<Atom>,
    extra: Atom,
    m: [[i64; 3]; 3],
    g: (i64, i64, i64),
    s: i64,
)
    requires
        crate::scattering::spec_lookup(extra.element@) is None,
    ensures
        spec_sf(atoms.push(extra), m, g, s) == spec_sf(atoms, m, g, s),
{
    reveal(spec_sf);
    reveal(crate::scattering::spec_scatter);
    assert(atoms.push(extra).drop_last() =~= atoms);
    assert(atoms.push(extra).last() == extra);
    lemma_sf_bounded(atoms, m, g, s);
    let prev = spec_sf(atoms, m, g, s);
    let rc = spec_frac_to_cart(extra.position, m);
    let phase = spec_add_fx(
        spec_add_fx(spec_mul_fx(g.0, rc.0), spec_mul_fx(g.1, rc.1)),
        spec_mul_fx(g.2, rc.2),
    );
    assert(spec_scatter(extra.element@, s) == 0);
    assert(spec_mul_fx(0, spec_cos_fx(phase)) == 0);
    assert(spec_mul_fx(0, spec_sin_fx(phase)) == 0);
    assert(spec_add_fx(prev.0, 0) == prev.0);
    assert(spec_add_fx(prev.1, 0) == prev.1);
}

/// A candidate peak is unchanged by appending an unknown-symbol atom.
proof fn lemma_unknown_atom_candidate(
    w: i64,
    m: [[i64; 3]; 3],
    atoms: Seq<Atom>,
    extra: Atom,
    h: i64,
    k: i64,
    l: i64,
    tmin: i64,
    tmax: i64,
)
    requires
        crate::scattering::spec_lookup(extra.element@) is None,
    ensures
        spec_candidate(w, m, atoms.push(extra), h, k, l, tmin, tmax) == spec_candidate(
            w,
            m,
            atoms,
            h,
            k,
            l,
            tmin,
            tmax,
        ),
{
    reveal(spec_candidate);
    let g = spec_g_vec(m, h, k, l);
    let s = spec_div_fx(
        spec_div_fx(
            w,
            spec_add_fx(
                spec_div_fx(
                    TWO_PI_FX,
                    spec_sqrt_fx(
                        spec_add_fx(
                            spec_add_fx(spec_mul_fx(g.0, g.0), spec_mul_fx(g.1, g.1)),
                            spec_mul_fx(g.2, g.2),
                        ),
                    ),
                ),
                spec_div_fx(
                    TWO_PI_FX,
                    spec_sqrt_fx(
                        spec_add_fx(
                            spec_add_fx(spec_mul_fx(g.0, g.0), spec_mul_fx(g.1, g.1)),
                            spec_mul_fx(g.2, g.2),
                        ),
                    ),
                ),
            ),
        ),
        w,
    );
    lemma_unknown_atom_sf(atoms, extra, m, g, s);
}

/// A whole pattern is unchanged by appending an atom with an unknown
/// symbol: such an atom scatters with strength zero everywhere.
pub proof fn lemma_unknown_atom_pattern(
    w: i64,
    m: [[i64; 3]; 3],
    atoms: Seq<Atom>,
    extra: Atom,
    tmin: i64,
    tmax: i64,
)
    requires
        crate::scattering::spec_lookup(extra.element@) is None,
    ensures
        spec_pattern_peaks(w, m, atoms.push(extra), tmin, tmax) == spec_pattern_peaks(
            w,
            m,
            atoms,
            tmin,
            tmax,
        ),
{
    let bound = spec_bound(w, m, tmax);
    lemma_unknown_atom_scan(w, m, atoms, extra, tmin, tmax, bound, spec_total(bound));
}

/// The scan is unchanged by appending an unknown-symbol atom.
proof fn lemma_unknown_atom_scan(
    w: i64,
    m: [[i64; 3]; 3],
    atoms: Seq<Atom>,
    extra: Atom,
    tmin: i64,
    tmax: i64,
    bound: i64,
    n: int,
)
    requires
        crate::scattering::spec_lookup(extra.element@) is None,
    ensures
        spec_scan(w, m, atoms.push(extra), tmin, tmax, bound, n) == spec_scan(
            w,
            m,
            atoms,
            tmin,
            tmax,
            bound,
            n,
        ),
    decreases n,
{
    if n > 0 {
        lemma_unknown_atom_scan(w, m, atoms, extra, tmin, tmax, bound, n - 1);
        let t = spec_hkl(bound, (n - 1) as i64);
        lemma_unknown_atom_candidate(w, m, atoms, extra, t.0, t.1, t.2, tmin, tmax);
    }
}

} // verus!
