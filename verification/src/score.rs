//! Fixed-point quality scores.
//!
//! A score is a fraction of [`SCORE_ONE`]: `0` means 0.0 and `SCORE_ONE`
//! means 1.0. Keeping scores as integers lets every scoring rule be exact.

use vstd::prelude::*;

verus! {

/// The fixed-point representation of the score 1.0.
pub const SCORE_ONE: u32 = 1000000;

/// True when `s` is a well-formed score, i.e. lies in `[0, SCORE_ONE]`.
pub open spec fn valid_score(s: u32) -> bool {
    s <= SCORE_ONE
}

/// Clamps an arbitrary non-negative magnitude into the score range.
pub fn clamp_score(v: u64) -> (r: u32)
    ensures
        valid_score(r),
        r == if v >= SCORE_ONE { SCORE_ONE as int } else { v as int },
{
    if v >= SCORE_ONE as u64 {
        SCORE_ONE
    } else {
        v as u32
    }
}

} // verus!
