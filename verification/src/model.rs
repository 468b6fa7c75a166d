//! Crystal structure model: lattice, atoms, crystal.
//!
//! Lengths are micro-angstroms, angles micro-degrees (or micro-radians where
//! said), energies micro-electronvolts, volumes micro-cubic-angstroms. A
//! lattice is immutable once constructed; its parameters and volume are pure
//! functions of the matrix.

use vstd::prelude::*;

use crate::scattering::str_eq;
use crate::text::{spec_digits, spec_str_lt, str_lt, u64_to_string};
use crate::fx::{
    acos_deg_fx, cos_deg_fx, fx_add, fx_div, fx_mul, fx_mul_div, fx_sqrt, fx_sub, sin_deg_fx,
    spec_acos_deg_fx, spec_add_fx, spec_cos_deg_fx, spec_div_fx, spec_mul_div_fx, spec_mul_fx,
    spec_sin_deg_fx, spec_sqrt_fx, spec_sub_fx,
};

verus! {

/// Cosine of an angle given in micro-degrees.
pub open spec fn spec_cos_deg(x: i64) -> i64 {
    spec_cos_deg_fx(x)
}

/// Sine of an angle given in micro-degrees.
pub open spec fn spec_sin_deg(x: i64) -> i64 {
    spec_sin_deg_fx(x)
}

/// Dot product of two row vectors, in micro-units.
pub open spec fn spec_dot3(u: [i64; 3], v: [i64; 3]) -> i64 {
    spec_add_fx(
        spec_add_fx(spec_mul_fx(u[0], v[0]), spec_mul_fx(u[1], v[1])),
        spec_mul_fx(u[2], v[2]),
    )
}

/// Euclidean length of a row vector, in micro-units.
pub open spec fn spec_vec_len(v: [i64; 3]) -> i64 {
    spec_sqrt_fx(spec_dot3(v, v))
}

/// Signed volume of the cell spanned by the three rows: the determinant of
/// the lattice matrix.
pub open spec fn spec_det3(m: [[i64; 3]; 3]) -> i64 {
    let a = m[0];
    let b = m[1];
    let c = m[2];
    spec_add_fx(
        spec_sub_fx(
            spec_mul_fx(a[0], spec_sub_fx(spec_mul_fx(b[1], c[2]), spec_mul_fx(b[2], c[1]))),
            spec_mul_fx(a[1], spec_sub_fx(spec_mul_fx(b[0], c[2]), spec_mul_fx(b[2], c[0]))),
        ),
        spec_mul_fx(a[2], spec_sub_fx(spec_mul_fx(b[0], c[1]), spec_mul_fx(b[1], c[0]))),
    )
}

/// The angle, in micro-degrees, between two rows with the given lengths.
pub open spec fn spec_row_angle_deg(u: [i64; 3], v: [i64; 3], lu: i64, lv: i64) -> i64 {
    spec_acos_deg_fx(spec_div_fx(spec_dot3(u, v), spec_mul_fx(lu, lv)))
}

/// The six cell parameters `(a, b, c, alpha, beta, gamma)` of a matrix:
/// row lengths in micro-angstroms and inter-row angles in micro-degrees.
pub open spec fn spec_parameters(m: [[i64; 3]; 3]) -> (i64, i64, i64, i64, i64, i64) {
    let la = spec_vec_len(m[0]);
    let lb = spec_vec_len(m[1]);
    let lc = spec_vec_len(m[2]);
    (
        la,
        lb,
        lc,
        spec_row_angle_deg(m[1], m[2], lb, lc),
        spec_row_angle_deg(m[0], m[2], la, lc),
        spec_row_angle_deg(m[0], m[1], la, lb),
    )
}

/// Lattice vectors as a 3x3 matrix of rows `a`, `b`, `c`, in
/// micro-angstroms.
#[derive(Clone, Copy, Debug)]
pub struct Lattice {
    pub matrix: [[i64; 3]; 3],
}

impl Lattice {
    /// A lattice from cell parameters: lengths in micro-angstroms, angles
    /// in micro-degrees. The `a` row lies on the first axis and the `b` row
    /// in the first plane, the standard crystallographic construction.
    #[verifier::rlimit(100)]
    pub fn from_parameters(a: i64, b: i64, c: i64, alpha: i64, beta: i64, gamma: i64) -> (r:
        Lattice)
        ensures
            r.matrix[0][0] == a,
            r.matrix[0][1] == 0,
            r.matrix[0][2] == 0,
            r.matrix[1][0] == spec_mul_fx(b, spec_cos_deg(gamma)),
            r.matrix[1][1] == spec_mul_fx(b, spec_sin_deg(gamma)),
            r.matrix[1][2] == 0,
            r.matrix[2][0] == spec_mul_fx(c, spec_cos_deg(beta)),
            r.matrix[2][1] == spec_div_fx(
                spec_mul_fx(
                    c,
                    spec_sub_fx(
                        spec_cos_deg(alpha),
                        spec_mul_fx(spec_cos_deg(beta), spec_cos_deg(gamma)),
                    ),
                ),
                spec_sin_deg(gamma),
            ),
            r.matrix[2][2] == spec_sqrt_fx(
                spec_sub_fx(
                    spec_sub_fx(spec_mul_fx(c, c), spec_mul_fx(r.matrix[2][0], r.matrix[2][0])),
                    spec_mul_fx(r.matrix[2][1], r.matrix[2][1]),
                ),
            ),
    {
        let cos_alpha: i64 = cos_deg_fx(alpha);
        let cos_beta: i64 = cos_deg_fx(beta);
        let cos_gamma: i64 = cos_deg_fx(gamma);
        let sin_gamma: i64 = sin_deg_fx(gamma);

        let a_vec: [i64; 3] = [a, 0, 0];
        let b_vec: [i64; 3] = [fx_mul(b, cos_gamma), fx_mul(b, sin_gamma), 0];

        let c1: i64 = fx_mul(c, cos_beta);
        let c2: i64 = fx_div(
            fx_mul(c, fx_sub(cos_alpha, fx_mul(cos_beta, cos_gamma))),
            sin_gamma,
        );
        let c3: i64 = fx_sqrt(fx_sub(fx_sub(fx_mul(c, c), fx_mul(c1, c1)), fx_mul(c2, c2)));
        let c_vec: [i64; 3] = [c1, c2, c3];

        Lattice { matrix: [a_vec, b_vec, c_vec] }
    }

    /// A lattice directly from its row vectors.
    pub fn from_vectors(matrix: [[i64; 3]; 3]) -> (r: Lattice)
        ensures
            r.matrix == matrix,
    {
        Lattice { matrix }
    }

    /// The six cell parameters `(a, b, c, alpha, beta, gamma)`.
    pub fn parameters(&self) -> (r: (i64, i64, i64, i64, i64, i64))
        ensures
            r == spec_parameters(self.matrix),
    {
        let a_vec: [i64; 3] = self.matrix[0];
        let b_vec: [i64; 3] = self.matrix[1];
        let c_vec: [i64; 3] = self.matrix[2];

        let la: i64 = vec_len3(&a_vec);
        let lb: i64 = vec_len3(&b_vec);
        let lc: i64 = vec_len3(&c_vec);

        let dot_bc: i64 = dot3(&b_vec, &c_vec);
        let dot_ac: i64 = dot3(&a_vec, &c_vec);
        let dot_ab: i64 = dot3(&a_vec, &b_vec);

        let alpha: i64 = acos_deg_fx(fx_div(dot_bc, fx_mul(lb, lc)));
        let beta: i64 = acos_deg_fx(fx_div(dot_ac, fx_mul(la, lc)));
        let gamma: i64 = acos_deg_fx(fx_div(dot_ab, fx_mul(la, lb)));

        (la, lb, lc, alpha, beta, gamma)
    }

    /// The signed cell volume, in micro-cubic-angstroms.
    pub fn volume(&self) -> (r: i64)
        ensures
            r == spec_det3(self.matrix),
    {
        let a: [i64; 3] = self.matrix[0];
        let b: [i64; 3] = self.matrix[1];
        let c: [i64; 3] = self.matrix[2];
        fx_add(
            fx_sub(
                fx_mul(a[0], fx_sub(fx_mul(b[1], c[2]), fx_mul(b[2], c[1]))),
                fx_mul(a[1], fx_sub(fx_mul(b[0], c[2]), fx_mul(b[2], c[0]))),
            ),
            fx_mul(a[2], fx_sub(fx_mul(b[0], c[1]), fx_mul(b[1], c[0]))),
        )
    }
}

/// Dot product of two row vectors.
fn dot3(u: &[i64; 3], v: &[i64; 3]) -> (r: i64)
    ensures
        r == spec_dot3(*u, *v),
{
    fx_add(fx_add(fx_mul(u[0], v[0]), fx_mul(u[1], v[1])), fx_mul(u[2], v[2]))
}

/// Euclidean length of a row vector.
fn vec_len3(v: &[i64; 3]) -> (r: i64)
    ensures
        r == spec_vec_len(*v),
{
    fx_sqrt(dot3(v, v))
}

/// One atom: an element symbol and fractional coordinates in micro-units.
#[derive(Debug, Clone)]
pub struct Atom {
    pub element: String,
    pub position: [i64; 3],
    pub label: Option<String>,
}

impl Atom {
    /// An unlabelled atom.
    pub fn new(element: &str, position: [i64; 3]) -> (r: Atom)
        ensures
            r.element@ == element@,
            r.position == position,
            r.label is None,
    {
        Atom { element: element.to_owned(), position, label: None }
    }

    /// The same atom carrying a site label.
    pub fn with_label(self, label: &str) -> (r: Atom)
        ensures
            r.element == self.element,
            r.position == self.position,
            r.label is Some && r.label->0@ == label@,
    {
        Atom { element: self.element, position: self.position, label: Some(label.to_owned()) }
    }
}

/// A crystal: a name, a lattice and an ordered list of atoms (duplicates
/// allowed, no symmetry expansion), with optional bookkeeping values in
/// micro-units.
#[derive(Debug, Clone)]
pub struct Crystal {
    pub name: String,
    pub lattice: Lattice,
    pub atoms: Vec<Atom>,
    pub pressure: Option<i64>,
    pub enthalpy: Option<i64>,
    pub energy: Option<i64>,
    pub volume: Option<i64>,
    pub space_group: Option<String>,
    pub integrated_spin: Option<i64>,
    pub integrated_abs_spin: Option<i64>,
    pub source_format: Option<String>,
}

/// Atom counts capped to a positive machine range for per-atom divisions.
pub open spec fn spec_atom_count(n: nat) -> i64 {
    if n > 0x7FFF_FFFF {
        0x7FFF_FFFF
    } else {
        n as i64
    }
}

impl Crystal {
    /// A crystal with no bookkeeping values set.
    pub fn new(name: &str, lattice: Lattice, atoms: Vec<Atom>) -> (r: Crystal)
        ensures
            r.name@ == name@,
            r.lattice == lattice,
            r.atoms == atoms,
            r.pressure is None,
            r.enthalpy is None,
            r.energy is None,
            r.volume is None,
            r.space_group is None,
            r.integrated_spin is None,
            r.integrated_abs_spin is None,
            r.source_format is None,
    {
        Crystal {
            name: name.to_owned(),
            lattice,
            atoms,
            pressure: None,
            enthalpy: None,
            energy: None,
            volume: None,
            space_group: None,
            integrated_spin: None,
            integrated_abs_spin: None,
            source_format: None,
        }
    }

    /// Enthalpy per atom, when an enthalpy is recorded.
    pub fn enthalpy_per_atom(&self) -> (r: Option<i64>)
        ensures
            r == match self.enthalpy {
                Some(h) => Some(spec_mul_div_fx(h, 1, spec_atom_count(self.atoms@.len()))),
                None => None::<i64>,
            },
    {
        match self.enthalpy {
            Some(h) => Some(fx_mul_div(h, 1, atom_count(&self.atoms))),
            None => None,
        }
    }

    /// Volume per atom: the recorded volume, or else the absolute lattice
    /// volume, divided by the atom count.
    pub fn volume_per_atom(&self) -> (r: Option<i64>)
        ensures
            r == Some(
                spec_mul_div_fx(
                    match self.volume {
                        Some(v) => v,
                        None => if spec_det3(self.lattice.matrix) >= 0 {
                            spec_det3(self.lattice.matrix)
                        } else {
                            spec_neg_abs_det(self.lattice.matrix)
                        },
                    },
                    1,
                    spec_atom_count(self.atoms@.len()),
                ),
            ),
    {
        let vol: i64 = match self.volume {
            Some(v) => v,
            None => {
                let d: i64 = self.lattice.volume();
                if d >= 0 {
                    d
                } else {
                    crate::fx::fx_neg(d)
                }
            },
        };
        Some(fx_mul_div(vol, 1, atom_count(&self.atoms)))
    }
}

/// The clamped negation of a negative determinant, used for its absolute
/// value.
pub open spec fn spec_neg_abs_det(m: [[i64; 3]; 3]) -> i64 {
    crate::fx::spec_neg_fx(spec_det3(m))
}

/// The atom count as a positive `i64`, capped at a machine bound.
fn atom_count(atoms: &Vec<Atom>) -> (r: i64)
    ensures
        r == spec_atom_count(atoms@.len()),
{
    let n: usize = atoms.len();
    if n > 0x7FFF_FFFF {
        0x7FFF_FFFF
    } else {
        n as i64
    }
}

/// Element names in order of first appearance, scanning from position `i`
/// with the names already seen.
pub open spec fn spec_uniq_elements(atoms: Seq<Atom>, i: int, acc: Seq<Seq<char>>) -> Seq<
    Seq<char>,
>
    decreases atoms.len() - i,
{
    if i < 0 || i >= atoms.len() {
        acc
    } else if acc.contains(atoms[i].element@) {
        spec_uniq_elements(atoms, i + 1, acc)
    } else {
        spec_uniq_elements(atoms, i + 1, acc.push(atoms[i].element@))
    }
}

/// An element name placed into a lexicographically ascending list, after
/// every name that does not rank after it.
pub open spec fn spec_insert_name(s: Seq<Seq<char>>, x: Seq<char>) -> Seq<Seq<char>>
    decreases s.len(),
{
    if s.len() == 0 {
        seq![x]
    } else if !spec_str_lt(x, s.last()) {
        s.push(x)
    } else {
        spec_insert_name(s.drop_last(), x).push(s.last())
    }
}

/// Element names sorted into lexicographic order.
pub open spec fn spec_sorted_names(s: Seq<Seq<char>>) -> Seq<Seq<char>>
    decreases s.len(),
{
    if s.len() == 0 {
        Seq::empty()
    } else {
        spec_insert_name(spec_sorted_names(s.drop_last()), s.last())
    }
}

/// Insertion lands exactly where the scan from the right stops.
proof fn lemma_insert_name_position(s: Seq<Seq<char>>, x: Seq<char>, j: int)
    requires
        0 <= j <= s.len(),
        forall|k: int| j <= k < s.len() ==> spec_str_lt(x, s[k]),
        j == 0 || !spec_str_lt(x, s[j - 1]),
    ensures
        spec_insert_name(s, x) =~~= s.insert(j, x),
    decreases s.len(),
{
    if s.len() == 0 {
        assert(spec_insert_name(s, x) =~~= s.insert(0, x));
    } else if !spec_str_lt(x, s.last()) {
        assert(s.last() == s[s.len() - 1]);
        assert(j == s.len());
        assert(spec_insert_name(s, x) =~~= s.insert(j, x));
    } else {
        assert(s.last() == s[s.len() - 1]);
        assert(j < s.len());
        lemma_insert_name_position(s.drop_last(), x, j);
        assert(spec_insert_name(s, x) =~~= s.insert(j, x));
    }
}

/// Sort element names into lexicographic order by insertion.
fn sort_names(input: Vec<String>) -> (r: Vec<String>)
    ensures
        r.deep_view() == spec_sorted_names(input.deep_view()),
{
    let mut v: Vec<String> = Vec::new();
    let mut i: usize = 0;
    proof {
        assert(input.deep_view().subrange(0, 0) =~~= Seq::<Seq<char>>::empty());
        assert(v.deep_view() =~~= spec_sorted_names(input.deep_view().subrange(0, 0)));
    }
    while i < input.len()
        invariant
            i <= input@.len(),
            input.deep_view().len() == input@.len(),
            v.deep_view() == spec_sorted_names(input.deep_view().subrange(0, i as int)),
        decreases input@.len() - i,
    {
        let x: String = input[i].clone();
        proof {
            assert(input.deep_view()[i as int] == input@[i as int]@);
        }
        let mut pos: usize = v.len();
        while pos > 0 && str_lt(x.as_str(), v[pos - 1].as_str())
            invariant
                pos <= v@.len(),
                v.deep_view().len() == v@.len(),
                forall|k: int| pos <= k < v@.len() ==> spec_str_lt(x@, v.deep_view()[k]),
            decreases pos,
        {
            proof {
                assert(v.deep_view()[pos - 1] == v@[pos - 1]@);
            }
            pos = pos - 1;
        }
        proof {
            if pos > 0 {
                assert(v.deep_view()[pos - 1] == v@[pos - 1]@);
            }
        }
        let ghost prev = v.deep_view();
        v.insert(pos, x);
        proof {
            assert(v.deep_view() =~~= prev.insert(pos as int, x@));
            lemma_insert_name_position(prev, x@, pos as int);
            assert(v.deep_view() =~~= spec_insert_name(prev, x@));
            assert(input.deep_view().subrange(0, i + 1 as int).drop_last() =~= input.deep_view().subrange(
                0,
                i as int,
            ));
            assert(input.deep_view().subrange(0, i + 1 as int).last() == input.deep_view()[i as int]);
        }
        i = i + 1;
    }
    proof {
        assert(input.deep_view().subrange(0, input.deep_view().len() as int) =~~= input.deep_view());
    }
    v
}

/// How many atoms from position `i` on carry the element name.
pub open spec fn spec_count_element(atoms: Seq<Atom>, el: Seq<char>, i: int) -> int
    decreases atoms.len() - i,
{
    if i < 0 || i >= atoms.len() {
        0
    } else {
        (if atoms[i].element@ == el {
            1int
        } else {
            0int
        }) + spec_count_element(atoms, el, i + 1)
    }
}

/// The formula text from element `i` on: each name followed by its count,
/// the count omitted when it is one.
pub open spec fn spec_render_formula(atoms: Seq<Atom>, els: Seq<Seq<char>>, i: int) -> Seq<char>
    decreases els.len() - i,
{
    if i < 0 || i >= els.len() {
        Seq::empty()
    } else {
        let cnt = spec_count_element(atoms, els[i], 0);
        els[i] + (if cnt == 1 {
            Seq::<char>::empty()
        } else {
            spec_digits(cnt)
        }) + spec_render_formula(atoms, els, i + 1)
    }
}

/// The chemical formula of an atom list: the distinct element names in
/// lexicographic order, each with its multiplicity.
pub open spec fn spec_formula(atoms: Seq<Atom>) -> Seq<char> {
    spec_render_formula(atoms, spec_sorted_names(spec_uniq_elements(atoms, 0, Seq::empty())), 0)
}

/// Whether one of the strings reads the same as `s`.
fn contains_str(v: &Vec<String>, s: &str) -> (r: bool)
    ensures
        r == v.deep_view().contains(s@),
{
    let mut j: usize = 0;
    while j < v.len()
        invariant
            j <= v@.len(),
            v.deep_view().len() == v@.len(),
            forall|k: int| 0 <= k < j ==> v.deep_view()[k] != s@,
        decreases v@.len() - j,
    {
        proof {
            assert(v.deep_view()[j as int] == v@[j as int]@);
        }
        if str_eq(v[j].as_str(), s) {
            return true;
        }
        j = j + 1;
    }
    proof {
        assert(forall|k: int| 0 <= k < v.deep_view().len() ==> v.deep_view()[k] != s@);
    }
    false
}

/// Count the atoms carrying an element name.
fn count_element(atoms: &Vec<Atom>, el: &str) -> (r: usize)
    ensures
        r as int == spec_count_element(atoms@, el@, 0),
{
    let mut cnt: usize = 0;
    let mut i: usize = 0;
    while i < atoms.len()
        invariant
            i <= atoms@.len(),
            cnt <= i,
            cnt as int + spec_count_element(atoms@, el@, i as int) == spec_count_element(
                atoms@,
                el@,
                0,
            ),
        decreases atoms@.len() - i,
    {
        if str_eq(atoms[i].element.as_str(), el) {
            cnt = cnt + 1;
        }
        i = i + 1;
    }
    cnt
}

impl Crystal {
    /// The chemical formula: the distinct element symbols in lexicographic
    /// order, each with its count, counts of one omitted.
    pub fn formula(&self) -> (r: String)
        ensures
            r@ == spec_formula(self.atoms@),
    {
        let mut els: Vec<String> = Vec::new();
        let mut i: usize = 0;
        proof {
            assert(els.deep_view() =~~= Seq::<Seq<char>>::empty());
        }
        while i < self.atoms.len()
            invariant
                i <= self.atoms@.len(),
                spec_uniq_elements(self.atoms@, i as int, els.deep_view()) == spec_uniq_elements(
                    self.atoms@,
                    0,
                    Seq::empty(),
                ),
            decreases self.atoms@.len() - i,
        {
            let el: &String = &self.atoms[i].element;
            if !contains_str(&els, el.as_str()) {
                let ghost old_dv = els.deep_view();
                els.push(el.clone());
                proof {
                    assert(els.deep_view() =~~= old_dv.push(self.atoms@[i as int].element@));
                }
            }
            i = i + 1;
        }
        let els: Vec<String> = sort_names(els);
        let ghost dv = els.deep_view();
        proof {
            assert(dv == spec_sorted_names(spec_uniq_elements(self.atoms@, 0, Seq::empty())));
        }
        let mut out: String = String::new();
        let mut j: usize = 0;
        while j < els.len()
            invariant
                j <= els@.len(),
                dv == els.deep_view(),
                dv.len() == els@.len(),
                out@ + spec_render_formula(self.atoms@, dv, j as int) == spec_formula(self.atoms@),
            decreases els@.len() - j,
        {
            proof {
                assert(dv[j as int] == els@[j as int]@);
            }
            let cnt: usize = count_element(&self.atoms, els[j].as_str());
            let ghost before = out@;
            out.append(els[j].as_str());
            if cnt != 1 {
                out.append(u64_to_string(cnt as u64).as_str());
                proof {
                    assert(spec_digits(cnt as u64 as int) == spec_digits(cnt as int));
                }
            }
            proof {
                assert(out@ + spec_render_formula(self.atoms@, dv, j + 1 as int) =~= before
                    + spec_render_formula(self.atoms@, dv, j as int));
            }
            j = j + 1;
        }
        proof {
            assert(out@ + spec_render_formula(self.atoms@, dv, dv.len() as int) =~= out@);
        }
        out
    }
}

} // verus!
