//! Extracted results of one electronic-structure calculation, in
//! micro-units.

use vstd::prelude::*;

use crate::cli::DftCodeType;
use crate::fx::{fx_mul_div, spec_mul_div_fx};

verus! {

/// A count capped to a positive machine range for per-atom divisions.
pub open spec fn spec_count_cap(n: nat) -> i64 {
    if n > 0x7FFF_FFFF {
        0x7FFF_FFFF
    } else {
        n as i64
    }
}

/// What one finished or unfinished calculation reported.
#[derive(Debug, Clone)]
pub struct DftResult {
    pub structure_name: String,
    pub code: DftCodeType,
    pub is_finished: bool,
    pub enthalpy_ev: Option<i64>,
    pub energy_ev: Option<i64>,
    pub pressure_kbar: Option<i64>,
    pub volume: Option<i64>,
    pub num_atoms: Option<usize>,
    pub structure_file: Option<String>,
}

impl DftResult {
    /// An empty result for a named structure.
    pub fn new(structure_name: &str, code: DftCodeType) -> (r: DftResult)
        ensures
            r.structure_name@ == structure_name@,
            r.code == code,
            r.is_finished == false,
            r.enthalpy_ev is None,
            r.energy_ev is None,
            r.pressure_kbar is None,
            r.volume is None,
            r.num_atoms is None,
            r.structure_file is None,
    {
        DftResult {
            structure_name: structure_name.to_owned(),
            code,
            is_finished: false,
            enthalpy_ev: None,
            energy_ev: None,
            pressure_kbar: None,
            volume: None,
            num_atoms: None,
            structure_file: None,
        }
    }

    /// Enthalpy per atom, when both an enthalpy and a positive atom count
    /// are recorded.
    pub fn enthalpy_per_atom(&self) -> (r: Option<i64>)
        ensures
            r == match (self.enthalpy_ev, self.num_atoms) {
                (Some(h), Some(n)) if n > 0 => Some(
                    spec_mul_div_fx(h, 1, spec_count_cap(n as nat)),
                ),
                _ => None::<i64>,
            },
    {
        match (self.enthalpy_ev, self.num_atoms) {
            (Some(h), Some(n)) => {
                if n > 0 {
                    Some(fx_mul_div(h, 1, count_cap(n)))
                } else {
                    None
                }
            },
            _ => None,
        }
    }

    /// Energy per atom, when both an energy and a positive atom count are
    /// recorded.
    pub fn energy_per_atom(&self) -> (r: Option<i64>)
        ensures
            r == match (self.energy_ev, self.num_atoms) {
                (Some(e), Some(n)) if n > 0 => Some(
                    spec_mul_div_fx(e, 1, spec_count_cap(n as nat)),
                ),
                _ => None::<i64>,
            },
    {
        match (self.energy_ev, self.num_atoms) {
            (Some(e), Some(n)) => {
                if n > 0 {
                    Some(fx_mul_div(e, 1, count_cap(n)))
                } else {
                    None
                }
            },
            _ => None,
        }
    }
}

/// The capped machine form of a count.
fn count_cap(n: usize) -> (r: i64)
    ensures
        r == spec_count_cap(n as nat),
{
    if n > 0x7FFF_FFFF {
        0x7FFF_FFFF
    } else {
        n as i64
    }
}

} // verus!
