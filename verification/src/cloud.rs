//! Sizes and budgets of the point cloud, and the phase palette index.

use vstd::prelude::*;

verus! {

/// Number of points drawn for the electron cloud.
pub const CLOUD_POINTS: usize = 4200;

/// Number of candidate points tried per point drawn before sampling gives up.
pub const ATTEMPTS_PER_POINT: usize = 400;

/// Largest number of candidate points tried while filling the cloud.
pub const MAX_ATTEMPTS: usize = CLOUD_POINTS * ATTEMPTS_PER_POINT;

/// Number of uniform probes used to estimate the peak of the envelope.
pub const PEAK_PROBES: usize = 40000;

/// Number of hues used to colour the phase of a superposition.
pub const HUES: usize = 24;

/// Whether rejection sampling should draw another candidate point: only
/// while the cloud is not full and the attempt budget is not spent.
pub fn keep_sampling(accepted: usize, attempts: usize) -> (r: bool)
    ensures
        r == (accepted < CLOUD_POINTS && attempts < MAX_ATTEMPTS),
{
    accepted < CLOUD_POINTS && attempts < MAX_ATTEMPTS
}

/// Clamp a raw phase bucket (⌊frac · HUES⌋ for a phase fraction in [0, 1])
/// to a valid palette index.
pub fn hue_index(raw: usize) -> (r: usize)
    ensures
        r < HUES,
        r == if raw < HUES { raw } else { (HUES - 1) as usize },
{
    if raw < HUES {
        raw
    } else {
        HUES - 1
    }
}

} // verus!
