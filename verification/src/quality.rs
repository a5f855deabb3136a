//! Stateless per-sample quality assessment.
//!
//! Scores one payload against a profile's bounds (accuracy), counts missing
//! fields (completeness), and checks the rate of change against the previous
//! reading (timeliness). Pure functions of the sample and the profile.

use vstd::prelude::*;
use crate::config::{params_wf, ProfileParams};
use crate::score::{valid_score, SCORE_ONE};
use crate::sensors::{count_present, count_present_from, lemma_count_present_bounds};
use vstd::arithmetic::div_mod::{lemma_div_is_ordered, lemma_div_multiples_vanish};

verus! {

/// How far `v` lies outside `[lo, hi]` (0 when inside).
pub open spec fn spec_overshoot(v: int, lo: int, hi: int) -> int {
    if v < lo {
        lo - v
    } else if v > hi {
        v - hi
    } else {
        0
    }
}

/// Accuracy score of one payload value: perfect inside the soft bounds,
/// else penalized in proportion to the overshoot relative to the bound
/// range, down to zero.
pub open spec fn spec_elem_accuracy(v: int, p: ProfileParams) -> int {
    let o = spec_overshoot(v, p.min_value as int, p.max_value as int);
    if o == 0 {
        SCORE_ONE as int
    } else {
        let range = p.max_value - p.min_value;
        if range == 0 {
            0
        } else {
            let pen = SCORE_ONE * o / range;
            if pen >= SCORE_ONE {
                0
            } else {
                SCORE_ONE - pen
            }
        }
    }
}

/// Sum of the accuracy scores of the present fields at index `i` or later.
pub open spec fn spec_accuracy_sum_from(pl: Seq<Option<i64>>, p: ProfileParams, i: int) -> int
    decreases pl.len() - i,
{
    if i < 0 || i >= pl.len() {
        0
    } else {
        (match pl[i] {
            Some(v) => spec_elem_accuracy(v as int, p),
            None => 0,
        }) + spec_accuracy_sum_from(pl, p, i + 1)
    }
}

/// Accuracy score of a payload: the mean accuracy of its present fields,
/// or perfect when no field is present (nothing to judge).
pub open spec fn spec_accuracy(pl: Seq<Option<i64>>, p: ProfileParams) -> int {
    let n = count_present(pl);
    if n == 0 {
        SCORE_ONE as int
    } else {
        spec_accuracy_sum_from(pl, p, 0) / n
    }
}

/// Some present field lies outside the soft bounds.
pub open spec fn spec_any_out_soft(pl: Seq<Option<i64>>, p: ProfileParams) -> bool {
    exists|i: int|
        0 <= i < pl.len() && (#[trigger] pl[i] matches Some(v) && spec_overshoot(
            v as int,
            p.min_value as int,
            p.max_value as int,
        ) > 0)
}

/// Some present field lies outside the hard safety bounds.
pub open spec fn spec_any_out_hard(pl: Seq<Option<i64>>, p: ProfileParams) -> bool {
    exists|i: int|
        0 <= i < pl.len() && (#[trigger] pl[i] matches Some(v) && spec_overshoot(
            v as int,
            p.hard_min as int,
            p.hard_max as int,
        ) > 0)
}

/// Completeness score: the present fraction of the payload's fields.
pub open spec fn spec_completeness(pl: Seq<Option<i64>>) -> int {
    if pl.len() == 0 {
        0
    } else {
        SCORE_ONE * count_present(pl) / pl.len() as int
    }
}

/// The payload has missing fields (or none at all).
pub open spec fn spec_incomplete(pl: Seq<Option<i64>>) -> bool {
    count_present(pl) < pl.len() || pl.len() == 0
}

/// The per-element accuracy score is a valid score.
pub proof fn lemma_elem_accuracy_range(v: int, p: ProfileParams)
    requires
        params_wf(p),
    ensures
        0 <= spec_elem_accuracy(v, p) <= SCORE_ONE,
{
    let o = spec_overshoot(v, p.min_value as int, p.max_value as int);
    let range = p.max_value - p.min_value;
    if o != 0 && range != 0 {
        if o > 0 && range > 0 {
            vstd::arithmetic::div_mod::lemma_div_pos_is_pos(SCORE_ONE * o, range);
        }
    }
}

/// Each summand of the accuracy sum lies in `[0, SCORE_ONE]`, so the sum
/// lies between 0 and `SCORE_ONE` times the present count.
pub proof fn lemma_accuracy_sum_bounds(pl: Seq<Option<i64>>, p: ProfileParams, i: int)
    requires
        params_wf(p),
    ensures
        0 <= spec_accuracy_sum_from(pl, p, i),
        spec_accuracy_sum_from(pl, p, i) <= SCORE_ONE * count_present_from(pl, i),
    decreases pl.len() - i,
{
    lemma_count_present_bounds(pl, i);
    if 0 <= i < pl.len() {
        lemma_accuracy_sum_bounds(pl, p, i + 1);
        lemma_count_present_bounds(pl, i + 1);
        if pl[i] is Some {
            lemma_elem_accuracy_range(pl[i]->0 as int, p);
        }
        assert(SCORE_ONE * count_present_from(pl, i) == SCORE_ONE * (count_present_from(pl, i)
            - count_present_from(pl, i + 1)) + SCORE_ONE * count_present_from(pl, i + 1))
            by (nonlinear_arith);
    }
}

/// The accuracy score is a valid score.
pub proof fn lemma_accuracy_in_range(pl: Seq<Option<i64>>, p: ProfileParams)
    requires
        params_wf(p),
    ensures
        0 <= spec_accuracy(pl, p) <= SCORE_ONE,
{
    let n = count_present(pl);
    lemma_count_present_bounds(pl, 0);
    if n > 0 {
        lemma_accuracy_sum_bounds(pl, p, 0);
        lemma_div_is_ordered(spec_accuracy_sum_from(pl, p, 0), SCORE_ONE * n, n);
        lemma_div_multiples_vanish(SCORE_ONE as int, n);
        vstd::arithmetic::div_mod::lemma_div_pos_is_pos(spec_accuracy_sum_from(pl, p, 0), n);
    }
}

/// Scores one payload value against the soft bounds.
pub fn elem_accuracy(v: i64, p: &ProfileParams) -> (r: u32)
    requires
        params_wf(*p),
    ensures
        r == spec_elem_accuracy(v as int, *p),
        valid_score(r),
{
    let vv = v as i128;
    let lo = p.min_value as i128;
    let hi = p.max_value as i128;
    let o: i128 = if vv < lo {
        lo - vv
    } else if vv > hi {
        vv - hi
    } else {
        0
    };
    if o == 0 {
        SCORE_ONE
    } else {
        let range: i128 = hi - lo;
        if range == 0 {
            0
        } else {
            proof {
                assert((SCORE_ONE as int) * o <= 1000000int * 10000000000000000000int)
                    by (nonlinear_arith)
                    requires
                        0 < o <= 10000000000000000000int,
                ;
                assert((SCORE_ONE as int) * o >= 0) by (nonlinear_arith)
                    requires
                        0 < o,
                ;
            }
            let pen: i128 = (SCORE_ONE as i128) * o / range;
            if pen >= SCORE_ONE as i128 {
                0
            } else {
                SCORE_ONE - (pen as u32)
            }
        }
    }
}

/// The quality assessor's outcome for one payload.
#[derive(Debug, Clone, Copy, PartialEq, Eq, Structural)]
pub struct PayloadAssessment {
    /// Mean bounds-conformance score of the present fields.
    pub accuracy: u32,
    /// Present fraction of the payload's fields.
    pub completeness: u32,
    /// Some present field lies outside the soft bounds.
    pub out_of_range: bool,
    /// Some present field lies outside the hard safety bounds.
    pub hard_out_of_range: bool,
    /// Some field is missing, or the payload is empty.
    pub incomplete: bool,
}

/// Assesses a payload against a profile: accuracy and completeness scores
/// plus the range and completeness violation flags.
pub fn assess_payload(payload: &Vec<Option<i64>>, p: &ProfileParams) -> (r: PayloadAssessment)
    requires
        params_wf(*p),
    ensures
        r.accuracy == spec_accuracy(payload@, *p),
        r.completeness == spec_completeness(payload@),
        r.out_of_range == spec_any_out_soft(payload@, *p),
        r.hard_out_of_range == spec_any_out_hard(payload@, *p),
        r.incomplete == spec_incomplete(payload@),
        valid_score(r.accuracy),
        valid_score(r.completeness),
{
    let ghost pl = payload@;
    let len = payload.len();
    let mut sum: u128 = 0;
    let mut count: u64 = 0;
    let mut soft: bool = false;
    let mut hard: bool = false;
    let mut i: usize = 0;
    proof {
        lemma_count_present_bounds(pl, 0);
        lemma_accuracy_sum_bounds(pl, *p, 0);
    }
    while i < len
        invariant
            0 <= i <= len,
            len == pl.len(),
            pl == payload@,
            params_wf(*p),
            count == count_present(pl) - count_present_from(pl, i as int),
            count <= i,
            sum == spec_accuracy_sum_from(pl, *p, 0) - spec_accuracy_sum_from(pl, *p, i as int),
            sum <= 1000000u128 * (count as u128),
            soft == exists|j: int|
                0 <= j < i && (#[trigger] pl[j] matches Some(v) && spec_overshoot(
                    v as int,
                    p.min_value as int,
                    p.max_value as int,
                ) > 0),
            hard == exists|j: int|
                0 <= j < i && (#[trigger] pl[j] matches Some(v) && spec_overshoot(
                    v as int,
                    p.hard_min as int,
                    p.hard_max as int,
                ) > 0),
        decreases len - i,
    {
        proof {
            lemma_count_present_bounds(pl, i + 1);
            lemma_accuracy_sum_bounds(pl, *p, i + 1);
            lemma_accuracy_sum_bounds(pl, *p, i as int);
        }
        match payload[i] {
            Some(v) => {
                let e = elem_accuracy(v, p);
                sum = sum + e as u128;
                count = count + 1;
                let vv = v as i128;
                if vv < p.min_value as i128 || vv > p.max_value as i128 {
                    soft = true;
                }
                if vv < p.hard_min as i128 || vv > p.hard_max as i128 {
                    hard = true;
                }
            },
            None => {},
        }
        i = i + 1;
    }
    let accuracy: u32 = if count == 0 {
        SCORE_ONE
    } else {
        proof {
            lemma_accuracy_in_range(pl, *p);
        }
        (sum / count as u128) as u32
    };
    let completeness: u32 = if len == 0 {
        0
    } else {
        proof {
            let n = count_present(pl);
            assert(SCORE_ONE * n <= SCORE_ONE * len) by (nonlinear_arith)
                requires
                    n <= len,
            ;
            lemma_div_is_ordered(SCORE_ONE * n, SCORE_ONE * (len as int), len as int);
            lemma_div_multiples_vanish(SCORE_ONE as int, len as int);
            vstd::arithmetic::div_mod::lemma_div_pos_is_pos(SCORE_ONE * n, len as int);
        }
        ((SCORE_ONE as u128) * (count as u128) / (len as u128)) as u32
    };
    PayloadAssessment {
        accuracy,
        completeness,
        out_of_range: soft,
        hard_out_of_range: hard,
        incomplete: count < len as u64 || len == 0,
    }
}

/// Whether the change from `(pv, pts)` to `(v, ts)` exceeds the profile's
/// maximum absolute rate. Judged only over a positive time step; a
/// non-increasing timestamp is the ordering checks' business.
pub open spec fn spec_rate_exceeded(v: int, ts: int, pv: int, pts: int, max_rate: int) -> bool {
    ts > pts && abs_int(v - pv) > max_rate * (ts - pts)
}

/// Magnitude of an integer.
pub open spec fn abs_int(v: int) -> int {
    if v >= 0 {
        v
    } else {
        -v
    }
}

/// Timeliness score of a step: perfect without a prior sample or within the
/// allowed rate, else the allowed change as a fraction of the actual one.
pub open spec fn spec_timeliness(
    v: int,
    ts: int,
    prev: Option<(i64, u64)>,
    p: ProfileParams,
) -> int {
    match prev {
        None => SCORE_ONE as int,
        Some((pv, pts)) => {
            if !spec_rate_exceeded(v, ts, pv as int, pts as int, p.max_rate as int) {
                SCORE_ONE as int
            } else {
                let allowed = p.max_rate * (ts - pts);
                let actual = abs_int(v - pv);
                let sc = SCORE_ONE * allowed / actual;
                if sc >= SCORE_ONE {
                    SCORE_ONE as int
                } else {
                    sc
                }
            }
        },
    }
}

/// Checks the rate of change of `value` at `ts` against the previous
/// reading, returning the timeliness score and the violation flag.
pub fn rate_check(value: i64, ts: u64, prev: Option<(i64, u64)>, p: &ProfileParams) -> (r: (
    u32,
    bool,
))
    requires
        params_wf(*p),
    ensures
        r.1 == (prev matches Some((pv, pts)) && spec_rate_exceeded(
            value as int,
            ts as int,
            pv as int,
            pts as int,
            p.max_rate as int,
        )),
        r.0 == spec_timeliness(value as int, ts as int, prev, *p),
        valid_score(r.0),
{
    match prev {
        None => (SCORE_ONE, false),
        Some((pv, pts)) => {
            if ts <= pts {
                (SCORE_ONE, false)
            } else {
                let dt: i128 = (ts - pts) as i128;
                let dv: i128 = if value >= pv {
                    (value as i128) - (pv as i128)
                } else {
                    (pv as i128) - (value as i128)
                };
                proof {
                    assert((p.max_rate as int) * dt <= 1000000000int * 18446744073709551615int)
                        by (nonlinear_arith)
                        requires
                            0 <= p.max_rate <= 1000000000,
                            0 < dt <= 18446744073709551615i128,
                    ;
                    assert((p.max_rate as int) * dt >= 0) by (nonlinear_arith)
                        requires
                            0 <= p.max_rate,
                            0 < dt,
                    ;
                }
                let allowed: i128 = (p.max_rate as i128) * dt;
                if dv <= allowed {
                    (SCORE_ONE, false)
                } else {
                    let sc: i128 = (SCORE_ONE as i128) * allowed / dv;
                    let tim: u32 = if sc >= SCORE_ONE as i128 {
                        SCORE_ONE
                    } else {
                        sc as u32
                    };
                    proof {
                        vstd::arithmetic::div_mod::lemma_div_pos_is_pos(SCORE_ONE * allowed, dv as int);
                    }
                    (tim, true)
                }
            }
        },
    }
}

} // verus!
