//! Peak-profile broadening: turn a discrete peak list into a uniformly
//! sampled intensity curve.
//!
//! The window `[tmin, tmax]` is sampled every `step` micro-degrees, both
//! ends included; each peak with intensity at least the contribution floor
//! adds its line shape at every sample, and the finished curve is rescaled
//! so its maximum reads one hundred, matching the discrete normalization.

use vstd::prelude::*;

use crate::calculator::{Peak, HUNDRED_FX};
use crate::fx::{
    exp_neg_fx, fx_add, fx_div, fx_mul, fx_mul_div, fx_sub, spec_add_fx, spec_div_fx,
    spec_exp_neg_fx, spec_mul_div_fx, spec_mul_fx, spec_sub_fx, SCALE,
};

verus! {

/// Peaks weaker than this, on the micro 0-100 scale, are skipped when
/// summing contributions.
pub const INTENSITY_FLOOR_FX: i64 = 100_000;

/// The largest number of samples a curve may hold; a machine cap on
/// memory, far past any sensible step size.
pub const MAX_SAMPLES: usize = 10_000_000;

/// `2 sqrt(2 ln 2)` in micro-units: the ratio of a Gaussian's full width
/// at half maximum to its standard deviation.
pub const FWHM_TO_SIGMA_FX: i64 = 2_354_820;

/// The available line shapes.
#[derive(Clone, Copy, PartialEq, Eq, Structural, Debug)]
pub enum BroadeningType {
    /// No broadening: every contribution is zero.
    NoProfile,
    /// A Gaussian profile.
    Gaussian,
    /// A Lorentzian profile.
    Lorentzian,
    /// The even mix of the Gaussian and Lorentzian profiles.
    PseudoVoigt,
}

/// The Gaussian factor at offset `delta` for width `sigma`, in micro-units
/// of one: `exp(-delta^2 / (2 sigma^2))`, via the ratio `delta / sigma`.
/// A non-positive width degenerates to a spike at zero offset.
pub open spec fn spec_gauss_factor(delta: i64, sigma: i64) -> i64 {
    if sigma <= 0 {
        if delta == 0 {
            SCALE
        } else {
            0
        }
    } else {
        let q = spec_div_fx(delta, sigma);
        spec_exp_neg_fx(spec_div_fx(spec_mul_fx(q, q), 2_000_000))
    }
}

/// The Lorentzian factor at offset `delta` for half-width `gamma`:
/// `gamma^2 / (delta^2 + gamma^2)`, via the ratio `delta / gamma`. A
/// non-positive width degenerates to a spike at zero offset.
pub open spec fn spec_lorentz_factor(delta: i64, gamma: i64) -> i64 {
    if gamma <= 0 {
        if delta == 0 {
            SCALE
        } else {
            0
        }
    } else {
        let q = spec_div_fx(delta, gamma);
        spec_div_fx(SCALE, spec_add_fx(spec_mul_fx(q, q), SCALE))
    }
}

/// One peak's contribution at one sample offset.
pub open spec fn spec_profile_term(
    bt: BroadeningType,
    intensity: i64,
    delta: i64,
    sigma: i64,
    gamma: i64,
) -> i64 {
    match bt {
        BroadeningType::NoProfile => 0,
        BroadeningType::Gaussian => spec_mul_fx(intensity, spec_gauss_factor(delta, sigma)),
        BroadeningType::Lorentzian => spec_mul_fx(intensity, spec_lorentz_factor(delta, gamma)),
        BroadeningType::PseudoVoigt => spec_mul_fx(
            intensity,
            spec_div_fx(
                spec_add_fx(spec_gauss_factor(delta, sigma), spec_lorentz_factor(delta, gamma)),
                2_000_000,
            ),
        ),
    }
}

/// The summed contribution of all peaks at one sample angle; peaks under
/// the floor are skipped.
pub open spec fn spec_sample_sum(
    peaks: Seq<Peak>,
    angle: i64,
    sigma: i64,
    gamma: i64,
    bt: BroadeningType,
) -> i64
    decreases peaks.len(),
{
    if peaks.len() == 0 {
        0
    } else {
        let prev = spec_sample_sum(peaks.drop_last(), angle, sigma, gamma, bt);
        let p = peaks.last();
        if p.intensity < INTENSITY_FLOOR_FX {
            prev
        } else {
            spec_add_fx(
                prev,
                spec_profile_term(bt, p.intensity, spec_sub_fx(angle, p.two_theta), sigma, gamma),
            )
        }
    }
}

/// The number of samples over the window at the given step: both ends
/// inclusive, one sample for an empty window, none for a degenerate step,
/// capped by the machine limit.
pub open spec fn spec_sample_count(tmin: i64, tmax: i64, step: i64) -> int {
    if step <= 0 {
        0
    } else {
        let diff = tmax as int - tmin as int;
        if diff < 0 {
            1
        } else {
            let n = (diff + step as int - 1) / (step as int) + 1;
            if n > MAX_SAMPLES as int {
                MAX_SAMPLES as int
            } else {
                n
            }
        }
    }
}

/// The angle of sample `i`.
pub open spec fn spec_sample_angle(tmin: i64, step: i64, i: int) -> i64 {
    spec_add_fx(tmin, spec_mul_div_fx(i as i64, step, 1))
}

/// The unscaled curve: each sample's angle paired with the summed peak
/// contributions there.
pub open spec fn spec_raw_curve(
    peaks: Seq<Peak>,
    tmin: i64,
    tmax: i64,
    step: i64,
    sigma: i64,
    gamma: i64,
    bt: BroadeningType,
) -> Seq<(i64, i64)> {
    Seq::new(
        spec_sample_count(tmin, tmax, step) as nat,
        |i: int|
            (
                spec_sample_angle(tmin, step, i),
                spec_sample_sum(peaks, spec_sample_angle(tmin, step, i), sigma, gamma, bt),
            ),
    )
}

/// The largest intensity on a curve, at least zero.
pub open spec fn spec_curve_max(s: Seq<(i64, i64)>) -> i64
    decreases s.len(),
{
    if s.len() == 0 {
        0
    } else {
        let prev = spec_curve_max(s.drop_last());
        if s.last().1 > prev {
            s.last().1
        } else {
            prev
        }
    }
}

/// The Gaussian width parameter derived from a full width at half maximum.
pub open spec fn spec_sigma_of_fwhm(fwhm: i64) -> i64 {
    spec_div_fx(fwhm, FWHM_TO_SIGMA_FX)
}

/// The Lorentzian half width derived from a full width at half maximum.
pub open spec fn spec_gamma_of_fwhm(fwhm: i64) -> i64 {
    spec_div_fx(fwhm, 2_000_000)
}

/// The finished broadened curve: the raw curve rescaled so its maximum
/// reads one hundred, or left alone when the maximum is not positive.
pub open spec fn spec_broadened(
    peaks: Seq<Peak>,
    tmin: i64,
    tmax: i64,
    step: i64,
    fwhm: i64,
    bt: BroadeningType,
) -> Seq<(i64, i64)> {
    let raw = spec_raw_curve(
        peaks,
        tmin,
        tmax,
        step,
        spec_sigma_of_fwhm(fwhm),
        spec_gamma_of_fwhm(fwhm),
        bt,
    );
    let mx = spec_curve_max(raw);
    if mx > 0 {
        Seq::new(raw.len(), |i: int| (raw[i].0, spec_mul_div_fx(raw[i].1, HUNDRED_FX, mx)))
    } else {
        raw
    }
}

/// One peak's contribution at one sample offset.
fn profile_term(bt: BroadeningType, intensity: i64, delta: i64, sigma: i64, gamma: i64) -> (r: i64)
    ensures
        r == spec_profile_term(bt, intensity, delta, sigma, gamma),
{
    match bt {
        BroadeningType::NoProfile => 0,
        BroadeningType::Gaussian => fx_mul(intensity, gauss_factor(delta, sigma)),
        BroadeningType::Lorentzian => fx_mul(intensity, lorentz_factor(delta, gamma)),
        BroadeningType::PseudoVoigt => fx_mul(
            intensity,
            fx_div(fx_add(gauss_factor(delta, sigma), lorentz_factor(delta, gamma)), 2_000_000),
        ),
    }
}

/// The Gaussian factor at one offset.
fn gauss_factor(delta: i64, sigma: i64) -> (r: i64)
    ensures
        r == spec_gauss_factor(delta, sigma),
{
    if sigma <= 0 {
        if delta == 0 {
            SCALE
        } else {
            0
        }
    } else {
        let q: i64 = fx_div(delta, sigma);
        exp_neg_fx(fx_div(fx_mul(q, q), 2_000_000))
    }
}

/// The Lorentzian factor at one offset.
fn lorentz_factor(delta: i64, gamma: i64) -> (r: i64)
    ensures
        r == spec_lorentz_factor(delta, gamma),
{
    if gamma <= 0 {
        if delta == 0 {
            SCALE
        } else {
            0
        }
    } else {
        let q: i64 = fx_div(delta, gamma);
        fx_div(SCALE, fx_add(fx_mul(q, q), SCALE))
    }
}

/// The summed contribution of every peak at one sample angle.
fn sample_sum(peaks: &Vec<Peak>, angle: i64, sigma: i64, gamma: i64, bt: BroadeningType) -> (r:
    i64)
    ensures
        r == spec_sample_sum(peaks@, angle, sigma, gamma, bt),
{
    let mut acc: i64 = 0;
    let mut i: usize = 0;
    proof {
        assert(peaks@.subrange(0, 0) =~= Seq::<Peak>::empty());
    }
    while i < peaks.len()
        invariant
            i <= peaks@.len(),
            acc == spec_sample_sum(peaks@.subrange(0, i as int), angle, sigma, gamma, bt),
        decreases peaks@.len() - i,
    {
        let p: Peak = peaks[i];
        if p.intensity >= INTENSITY_FLOOR_FX {
            let delta: i64 = fx_sub(angle, p.two_theta);
            acc = fx_add(acc, profile_term(bt, p.intensity, delta, sigma, gamma));
        }
        proof {
            assert(peaks@.subrange(0, i + 1 as int).drop_last() =~= peaks@.subrange(0, i as int));
            assert(peaks@.subrange(0, i + 1 as int).last() == peaks@[i as int]);
        }
        i = i + 1;
    }
    proof {
        assert(peaks@.subrange(0, peaks@.len() as int) =~= peaks@);
    }
    acc
}

/// How many samples the window takes at the given step.
fn sample_count(tmin: i64, tmax: i64, step: i64) -> (r: usize)
    ensures
        r as int == spec_sample_count(tmin, tmax, step),
{
    if step <= 0 {
        return 0;
    }
    let diff: i128 = tmax as i128 - tmin as i128;
    if diff < 0 {
        return 1;
    }
    let q: u128 = ((diff as u128) + (step as u128) - 1) / (step as u128);
    if q + 1 > MAX_SAMPLES as u128 {
        MAX_SAMPLES
    } else {
        (q + 1) as usize
    }
}

/// Broaden a peak list into a uniformly sampled curve over the window,
/// using the chosen line shape, then rescale the curve's maximum to one
/// hundred.
pub fn apply_broadening(
    peaks: &Vec<Peak>,
    theta_min: i64,
    theta_max: i64,
    step: i64,
    fwhm: i64,
    broadening_type: BroadeningType,
) -> (r: Vec<(i64, i64)>)
    ensures
        r@ == spec_broadened(peaks@, theta_min, theta_max, step, fwhm, broadening_type),
{
    let sigma: i64 = fx_div(fwhm, FWHM_TO_SIGMA_FX);
    let gamma: i64 = fx_div(fwhm, 2_000_000);
    let cnt: usize = sample_count(theta_min, theta_max, step);

    let ghost raw_spec = spec_raw_curve(peaks@, theta_min, theta_max, step, sigma, gamma,
        broadening_type);

    let mut raw: Vec<(i64, i64)> = Vec::new();
    let mut i: usize = 0;
    while i < cnt
        invariant
            i <= cnt,
            cnt as int == spec_sample_count(theta_min, theta_max, step),
            sigma == spec_sigma_of_fwhm(fwhm),
            gamma == spec_gamma_of_fwhm(fwhm),
            raw_spec == spec_raw_curve(peaks@, theta_min, theta_max, step, sigma, gamma,
                broadening_type),
            raw@.len() == i,
            forall|k: int| 0 <= k < i ==> raw@[k] == raw_spec[k],
        decreases cnt - i,
    {
        let angle: i64 = fx_add(theta_min, fx_mul_div(i as i64, step, 1));
        let total: i64 = sample_sum(peaks, angle, sigma, gamma, broadening_type);
        raw.push((angle, total));
        i = i + 1;
    }
    proof {
        assert(raw@ =~= raw_spec);
    }

    let mut mx: i64 = 0;
    let mut j: usize = 0;
    proof {
        assert(raw@.subrange(0, 0) =~= Seq::<(i64, i64)>::empty());
    }
    while j < raw.len()
        invariant
            j <= raw@.len(),
            mx == spec_curve_max(raw@.subrange(0, j as int)),
        decreases raw@.len() - j,
    {
        let v: i64 = raw[j].1;
        if v > mx {
            mx = v;
        }
        proof {
            assert(raw@.subrange(0, j + 1 as int).drop_last() =~= raw@.subrange(0, j as int));
            assert(raw@.subrange(0, j + 1 as int).last() == raw@[j as int]);
        }
        j = j + 1;
    }
    proof {
        assert(raw@.subrange(0, raw@.len() as int) =~= raw@);
    }

    if mx <= 0 {
        proof {
            assert(raw@ =~= spec_broadened(peaks@, theta_min, theta_max, step, fwhm,
                broadening_type));
        }
        return raw;
    }

    let mut out: Vec<(i64, i64)> = Vec::new();
    let mut k: usize = 0;
    while k < raw.len()
        invariant
            k <= raw@.len(),
            mx == spec_curve_max(raw_spec),
            mx > 0,
            raw@ == raw_spec,
            out@.len() == k,
            forall|t: int|
                0 <= t < k ==> out@[t] == (
                    raw_spec[t].0,
                    spec_mul_div_fx(raw_spec[t].1, HUNDRED_FX, mx),
                ),
        decreases raw@.len() - k,
    {
        let a: i64 = raw[k].0;
        let v: i64 = raw[k].1;
        out.push((a, fx_mul_div(v, HUNDRED_FX, mx)));
        k = k + 1;
    }
    proof {
        assert(out@ =~= spec_broadened(peaks@, theta_min, theta_max, step, fwhm, broadening_type));
    }
    out
}

/// At zero offset every positive-width profile factor is exactly one, so a
/// sample taken at a peak's own angle receives that peak's full intensity:
/// as the width and the step shrink, the curve's maxima sit on the peak
/// angles.
pub proof fn lemma_profile_center(sigma: i64, gamma: i64)
    requires
        sigma > 0,
        gamma > 0,
    ensures
        spec_gauss_factor(0, sigma) == SCALE,
        spec_lorentz_factor(0, gamma) == SCALE,
{
    reveal(crate::fx::spec_exp_neg_fx);
    assert(spec_div_fx(0, sigma) == 0);
    assert(spec_mul_fx(0, 0) == 0);
    assert(spec_div_fx(0, 2_000_000) == 0);
    assert(spec_div_fx(0, gamma) == 0);
    assert(spec_add_fx(0, SCALE) == SCALE);
    assert(spec_div_fx(SCALE, SCALE) == SCALE) by {
        vstd::arithmetic::div_mod::lemma_div_multiples_vanish(1_000_000int, 1_000_000int);
    }
}

} // verus!
