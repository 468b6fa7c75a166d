//! Powder X-ray diffraction pattern calculation over a fixed-point model.
//!
//! Physical quantities (lengths in angstroms, angles in degrees or radians,
//! intensities) are represented as `i64` values scaled by one million
//! ("micro-units"): the value `5_640_000` stands for 5.64. All arithmetic is
//! saturating fixed-point arithmetic, so every operation is total and the
//! whole pipeline is a mathematical function of its inputs.
//!
//! Modules:
//! - `fx`: the fixed-point kernel (multiply, divide, square root, sine,
//!   cosine, arcsine, decaying exponential), each with an exact contract.
//! - `scattering`: the atomic scattering factor table and its lookup policy.
//! - `model`: lattice, atom and crystal types with their derivations.
//! - `calculator`: reciprocal lattice, Miller-index enumeration, structure
//!   factors, peak merging, sorting and normalization.
//! - `broadening`: peak-profile broadening of a discrete peak list.
//! - `collector`: file-collection settings and glob-style name matching.
//! - `calculation`: extracted results of electronic-structure runs.
//! - `slurm`: batch-script text generation.
//! - `cli`: plain option types and small input parsers.
//! - `text`: decimal rendering and ASCII case folding.

pub mod broadening;
pub mod calculation;
pub mod calculator;
pub mod cli;
pub mod collector;
pub mod fx;
pub mod model;
pub mod scattering;
pub mod slurm;
pub mod text;
