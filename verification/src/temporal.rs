//! Temporal consistency checking.
//!
//! Per-sensor O(1) state: the last accepted timestamp and sequence number.
//! The check flags out-of-order timestamps, gaps large enough to imply
//! dropped samples, duplicate (non-increasing) sequence numbers, and clock
//! skew between origin and arrival time. The cursors advance only for
//! samples that pass the ordering and duplicate checks, so a rejected
//! sample never regresses them.

use vstd::prelude::*;
use crate::config::{params_wf, ProfileParams};
use crate::score::{valid_score, SCORE_ONE};

verus! {

/// The temporal cursors of one sensor stream, from the last accepted
/// sample. `None` when no sample has been seen yet.
pub type TemporalCursor = Option<(u64, u64)>;

/// The flags and score of the temporal check for one sample.
#[derive(Debug, Clone, Copy, PartialEq, Eq, Structural)]
pub struct TemporalOutcome {
    /// The sample's timestamp precedes the last accepted one.
    pub out_of_order: bool,
    /// The timestamp gap to the last accepted sample exceeds the maximum.
    pub stale: bool,
    /// The sequence number does not exceed the last accepted one.
    pub duplicate: bool,
    /// Origin and arrival time disagree beyond the tolerance.
    pub clock_skew: bool,
    /// The cursors advance to this sample.
    pub advance: bool,
    /// The check's consistency contribution.
    pub contribution: u32,
}

/// The sample's timestamp precedes the last accepted one.
pub open spec fn spec_out_of_order(ts: u64, cursor: TemporalCursor) -> bool {
    cursor matches Some((last_ts, _)) && ts < last_ts
}

/// The gap from the last accepted timestamp exceeds the profile's maximum.
pub open spec fn spec_stale(ts: u64, cursor: TemporalCursor, max_gap: u64) -> bool {
    cursor matches Some((last_ts, _)) && ts > last_ts && ts - last_ts > max_gap
}

/// The sequence number does not strictly exceed the last accepted one.
pub open spec fn spec_duplicate(seq: u64, cursor: TemporalCursor) -> bool {
    cursor matches Some((_, last_seq)) && seq <= last_seq
}

/// Origin and arrival time disagree beyond the tolerance.
pub open spec fn spec_clock_skew(ts: u64, arrival: u64, tolerance: u64) -> bool {
    if arrival >= ts {
        arrival - ts > tolerance
    } else {
        ts - arrival > tolerance
    }
}

/// Whether the cursors advance to the sample: only when it passes the
/// ordering and duplicate checks.
pub open spec fn spec_advance(ts: u64, seq: u64, cursor: TemporalCursor) -> bool {
    !spec_out_of_order(ts, cursor) && !spec_duplicate(seq, cursor)
}

/// The cursors after the check: the sample's timestamp and sequence number
/// when it was accepted, the old cursors otherwise.
pub open spec fn spec_next_cursor(ts: u64, seq: u64, cursor: TemporalCursor) -> (u64, u64) {
    if spec_advance(ts, seq, cursor) {
        (ts, seq)
    } else {
        cursor->Some_0
    }
}

/// Number of temporal rules the sample violates (out of four).
pub open spec fn spec_temporal_violation_count(
    ts: u64,
    seq: u64,
    arrival: u64,
    cursor: TemporalCursor,
    p: ProfileParams,
) -> int {
    (if spec_out_of_order(ts, cursor) {
        1int
    } else {
        0int
    }) + (if spec_stale(ts, cursor, p.max_gap) {
        1int
    } else {
        0int
    }) + (if spec_duplicate(seq, cursor) {
        1int
    } else {
        0int
    }) + (if spec_clock_skew(ts, arrival, p.clock_skew_tolerance) {
        1int
    } else {
        0int
    })
}

/// The temporal consistency contribution: full when clean, reduced by a
/// quarter of the scale for each violated rule.
pub open spec fn spec_temporal_contribution(
    ts: u64,
    seq: u64,
    arrival: u64,
    cursor: TemporalCursor,
    p: ProfileParams,
) -> int {
    SCORE_ONE - spec_temporal_violation_count(ts, seq, arrival, cursor, p) * (SCORE_ONE as int
        / 4)
}

/// Runs the temporal checks of one sample against the stream's cursors.
pub fn check_temporal(ts: u64, seq: u64, arrival: u64, cursor: TemporalCursor, p: &ProfileParams)
    -> (r: TemporalOutcome)
    requires
        params_wf(*p),
    ensures
        r.out_of_order == spec_out_of_order(ts, cursor),
        r.stale == spec_stale(ts, cursor, p.max_gap),
        r.duplicate == spec_duplicate(seq, cursor),
        r.clock_skew == spec_clock_skew(ts, arrival, p.clock_skew_tolerance),
        r.advance == spec_advance(ts, seq, cursor),
        r.contribution == spec_temporal_contribution(ts, seq, arrival, cursor, *p),
        valid_score(r.contribution),
{
    let (out_of_order, stale, duplicate) = match cursor {
        None => (false, false, false),
        Some((last_ts, last_seq)) => (
            ts < last_ts,
            ts > last_ts && ts - last_ts > p.max_gap,
            seq <= last_seq,
        ),
    };
    let clock_skew = if arrival >= ts {
        arrival - ts > p.clock_skew_tolerance
    } else {
        ts - arrival > p.clock_skew_tolerance
    };
    let mut violations: u32 = 0;
    if out_of_order {
        violations = violations + 1;
    }
    if stale {
        violations = violations + 1;
    }
    if duplicate {
        violations = violations + 1;
    }
    if clock_skew {
        violations = violations + 1;
    }
    let contribution: u32 = SCORE_ONE - violations * (SCORE_ONE / 4);
    TemporalOutcome {
        out_of_order,
        stale,
        duplicate,
        clock_skew,
        advance: !out_of_order && !duplicate,
        contribution,
    }
}

} // verus!
