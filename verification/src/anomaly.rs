//! Stateful per-sensor anomaly detection.
//!
//! Each sensor stream keeps a decay-weighted running mean and variance of
//! its readings. During the Warming phase (fewer than `W` samples folded in)
//! every sample is treated as non-anomalous while the baseline builds; in
//! the Stable phase a sample is anomalous when its deviation from the
//! running mean exceeds `k` standard deviations (with a configured floor on
//! the deviation scale). Classification always uses the statistics from
//! before the sample is folded in, so an outlier cannot bias the threshold
//! used to judge itself.

use vstd::prelude::*;
use crate::config::{params_wf, ProfileParams, K_UNIT};
use crate::score::{valid_score, SCORE_ONE};
use crate::sensors::VALUE_MAX;
use vstd::arithmetic::div_mod::{lemma_div_pos_is_pos, lemma_fundamental_div_mod};

verus! {

/// Largest representable rolling variance: the square of the largest
/// deviation between two in-range readings.
pub const VAR_MAX: u64 = 4000000000000000000;

/// Rolling statistics of one sensor stream.
#[derive(Debug, Clone, Copy, PartialEq, Eq, Structural)]
pub struct RollingStats {
    /// Number of samples folded into the statistics so far.
    pub count: u64,
    /// Decay-weighted running mean, in payload value units.
    pub mean: i64,
    /// Decay-weighted running variance, in squared value units.
    pub variance: u64,
}

impl RollingStats {
    /// Statistics of a stream that has seen no samples.
    pub open spec fn spec_empty() -> RollingStats {
        RollingStats { count: 0, mean: 0, variance: 0 }
    }

    /// The representable-range invariant of the statistics.
    pub open spec fn wf(&self) -> bool {
        &&& -VALUE_MAX <= self.mean <= VALUE_MAX
        &&& self.variance <= VAR_MAX
    }

    /// Fresh statistics for a newly created stream.
    pub fn empty() -> (r: RollingStats)
        ensures
            r == RollingStats::spec_empty(),
            r.wf(),
    {
        RollingStats { count: 0, mean: 0, variance: 0 }
    }
}

/// Magnitude of the deviation of `value` from `mean`.
pub open spec fn spec_deviation(mean: int, value: int) -> int {
    if value >= mean {
        value - mean
    } else {
        mean - value
    }
}

/// The decay weight for the next fold: the sample count so far plus one,
/// saturating at the window size. During warmup this makes the fold an
/// exact running average; afterwards an exponentially-weighted one.
pub open spec fn spec_decay_n(count: u64, window: u64) -> int {
    if count + 1 < window {
        count + 1
    } else {
        window as int
    }
}

/// The mean after folding `value` in with decay weight `n`: the mean moves
/// toward the value by a 1/n fraction of the deviation (rounded toward the
/// old mean).
pub open spec fn spec_mean_next(mean: int, value: int, n: int) -> int {
    let step = spec_deviation(mean, value) / n;
    if value >= mean {
        mean + step
    } else {
        mean - step
    }
}

/// The variance after folding `value` in with decay weight `n`, by the
/// decay-weighted incremental rule
/// `var' = (1 - 1/n) * (var + d*d / n)` in integer arithmetic, clamped to
/// the representable range.
pub open spec fn spec_var_next(var: u64, mean: int, value: int, n: int) -> int {
    let d = spec_deviation(mean, value);
    let raw = (n - 1) * (var + d * d / n) / n;
    if raw > VAR_MAX {
        VAR_MAX as int
    } else {
        raw
    }
}

/// The statistics after folding one sample in.
pub open spec fn spec_fold(s: RollingStats, value: i64, window: u64) -> RollingStats {
    let n = spec_decay_n(s.count, window);
    RollingStats {
        count: if s.count == u64::MAX {
            s.count
        } else {
            (s.count + 1) as u64
        },
        mean: spec_mean_next(s.mean as int, value as int, n) as i64,
        variance: spec_var_next(s.variance, s.mean as int, value as int, n) as u64,
    }
}

/// Whether `value` counts as anomalous against statistics `s`: only once
/// the stream is Stable (`count >= window`), and then exactly when the
/// deviation from the running mean exceeds `k` times the larger of the
/// running standard deviation and the configured floor.
pub open spec fn spec_is_anomalous(s: RollingStats, value: i64, p: ProfileParams) -> bool {
    let d = spec_deviation(s.mean as int, value as int);
    let sd = spec_isqrt(s.variance as int);
    let floor = if sd >= p.epsilon {
        sd
    } else {
        p.epsilon as int
    };
    s.count >= p.window && d * K_UNIT > p.anomaly_k * floor
}

/// The consistency contribution of the anomaly check: full when the sample
/// is not anomalous, else the threshold as a fraction of the deviation.
pub open spec fn spec_anomaly_contribution(s: RollingStats, value: i64, p: ProfileParams) -> int {
    if !spec_is_anomalous(s, value, p) {
        SCORE_ONE as int
    } else {
        let d = spec_deviation(s.mean as int, value as int);
        let sd = spec_isqrt(s.variance as int);
        let floor = if sd >= p.epsilon {
            sd
        } else {
            p.epsilon as int
        };
        let sc = SCORE_ONE * (p.anomaly_k * floor) / (d * K_UNIT);
        if sc >= SCORE_ONE {
            SCORE_ONE as int
        } else {
            sc
        }
    }
}

/// The integer square root: the largest `r` with `r * r <= v`.
pub open spec fn spec_isqrt(v: int) -> int {
    choose|r: int| r >= 0 && #[trigger] (r * r) <= v && (r + 1) * (r + 1) > v
}

/// The integer square root exists and is unique; this pins down
/// [`spec_isqrt`] for any result the executable search returns.
proof fn lemma_isqrt_unique(v: int, r: int)
    requires
        r >= 0,
        r * r <= v,
        (r + 1) * (r + 1) > v,
    ensures
        spec_isqrt(v) == r,
{
    assert(r >= 0 && (r * r) <= v && (r + 1) * (r + 1) > v);
    let c = choose|c: int| c >= 0 && #[trigger] (c * c) <= v && (c + 1) * (c + 1) > v;
    if c < r {
        assert((c + 1) * (c + 1) <= r * r) by (nonlinear_arith)
            requires
                0 <= c < r,
        ;
    }
    if c > r {
        assert((r + 1) * (r + 1) <= c * c) by (nonlinear_arith)
            requires
                0 <= r < c,
        ;
    }
}

/// Computes the integer square root of a representable variance by binary
/// search.
pub fn isqrt(v: u64) -> (r: u64)
    requires
        v <= VAR_MAX,
    ensures
        r as int == spec_isqrt(v as int),
        r * r <= v,
        (r + 1) * (r + 1) > v,
        r <= 2000000000,
{
    let mut lo: u64 = 0;
    let mut hi: u64 = 2000000001;
    proof {
        assert(2000000001int * 2000000001int > VAR_MAX) by (nonlinear_arith);
    }
    while hi - lo > 1
        invariant
            0 <= lo < hi <= 2000000001,
            (lo * lo) as int <= v as int,
            (hi * hi) as int > v as int,
        decreases hi - lo,
    {
        let mid: u64 = lo + (hi - lo) / 2;
        proof {
            assert(mid * mid <= 2000000001int * 2000000001int) by (nonlinear_arith)
                requires
                    0 <= mid <= 2000000001,
            ;
        }
        if mid * mid <= v {
            lo = mid;
        } else {
            hi = mid;
        }
    }
    proof {
        assert(hi == lo + 1);
        lemma_isqrt_unique(v as int, lo as int);
    }
    lo
}

/// The outcome of the anomaly check for one sample.
#[derive(Debug, Clone, Copy, PartialEq, Eq, Structural)]
pub struct AnomalyOutcome {
    /// The sample's deviation exceeded the anomaly threshold.
    pub is_anomalous: bool,
    /// The check's consistency contribution.
    pub contribution: u32,
}

/// Classifies `value` against the statistics gathered so far, before any
/// folding, so the sample cannot bias its own threshold.
pub fn evaluate(s: &RollingStats, value: i64, p: &ProfileParams) -> (r: AnomalyOutcome)
    requires
        s.wf(),
        params_wf(*p),
        -VALUE_MAX <= value <= VALUE_MAX,
    ensures
        r.is_anomalous == spec_is_anomalous(*s, value, *p),
        r.contribution == spec_anomaly_contribution(*s, value, *p),
        valid_score(r.contribution),
{
    if s.count < p.window {
        AnomalyOutcome { is_anomalous: false, contribution: SCORE_ONE }
    } else {
        let sd: u64 = isqrt(s.variance);
        let floor: i64 = if sd as i64 >= p.epsilon {
            sd as i64
        } else {
            p.epsilon
        };
        let d: i64 = if value >= s.mean {
            value - s.mean
        } else {
            s.mean - value
        };
        proof {
            assert(0 <= (d as int) * (K_UNIT as int) <= 2000000000int * 1000int)
                by (nonlinear_arith)
                requires
                    0 <= d <= 2000000000,
                    K_UNIT == 1000,
            ;
        }
        let scaled_dev: i128 = (d as i128) * (K_UNIT as i128);
        proof {
            assert((p.anomaly_k as int) * (floor as int) <= 1000000int * 2000000000int)
                by (nonlinear_arith)
                requires
                    0 <= p.anomaly_k <= 1000000,
                    0 <= floor <= 2000000000,
            ;
            assert((p.anomaly_k as int) * (floor as int) >= 0) by (nonlinear_arith)
                requires
                    0 <= p.anomaly_k,
                    0 <= floor,
            ;
        }
        let threshold: i128 = (p.anomaly_k as i128) * (floor as i128);
        if scaled_dev <= threshold {
            AnomalyOutcome { is_anomalous: false, contribution: SCORE_ONE }
        } else {
            let sc: i128 = (SCORE_ONE as i128) * threshold / scaled_dev;
            proof {
                lemma_div_pos_is_pos(SCORE_ONE * threshold as int, scaled_dev as int);
            }
            let contribution: u32 = if sc >= SCORE_ONE as i128 {
                SCORE_ONE
            } else {
                sc as u32
            };
            AnomalyOutcome { is_anomalous: true, contribution }
        }
    }
}

/// The decay-weighted fold keeps the mean between its old value and the
/// sample, and the variance within the representable range.
pub proof fn lemma_fold_wf(s: RollingStats, value: i64, window: u64)
    requires
        s.wf(),
        -VALUE_MAX <= value <= VALUE_MAX,
        1 <= window,
    ensures
        spec_fold(s, value, window).wf(),
        spec_fold(s, value, window).count == if s.count == u64::MAX {
            s.count as int
        } else {
            s.count + 1
        },
{
    let n = spec_decay_n(s.count, window);
    let d = spec_deviation(s.mean as int, value as int);
    let step = d / n;
    lemma_fundamental_div_mod(d, n);
    vstd::arithmetic::div_mod::lemma_mod_bound(d, n);
    assert(n * (d / n) <= d);
    assert(step <= n * step) by (nonlinear_arith)
        requires
            n >= 1,
            step >= 0,
    ;
    lemma_div_pos_is_pos(d, n);
    let dd = d * d;
    assert(0 <= d * d <= 4000000000000000000int) by (nonlinear_arith)
        requires
            0 <= d <= 2000000000int,
    ;
    let q = dd / n;
    lemma_fundamental_div_mod(dd, n);
    vstd::arithmetic::div_mod::lemma_mod_bound(dd, n);
    lemma_div_pos_is_pos(dd, n);
    let t = (n - 1) * (s.variance + q);
    assert((n - 1) * (s.variance + q) >= 0) by (nonlinear_arith)
        requires
            n >= 1,
            s.variance >= 0,
            q >= 0,
    ;
    lemma_div_pos_is_pos(t, n);
}

/// Folds one sample into the rolling statistics with the profile's window.
pub fn fold(s: &RollingStats, value: i64, p: &ProfileParams) -> (r: RollingStats)
    requires
        s.wf(),
        params_wf(*p),
        -VALUE_MAX <= value <= VALUE_MAX,
    ensures
        r == spec_fold(*s, value, p.window),
        r.wf(),
{
    proof {
        lemma_fold_wf(*s, value, p.window);
    }
    let n: u64 = if s.count < u64::MAX && s.count + 1 < p.window {
        s.count + 1
    } else {
        p.window
    };
    let d: i64 = if value >= s.mean {
        value - s.mean
    } else {
        s.mean - value
    };
    let step: i64 = d / (n as i64);
    proof {
        lemma_fundamental_div_mod(d as int, n as int);
        vstd::arithmetic::div_mod::lemma_mod_bound(d as int, n as int);
        lemma_div_pos_is_pos(d as int, n as int);
        assert((d as int) / (n as int) <= d as int) by (nonlinear_arith)
            requires
                n >= 1,
                d >= 0,
                (d as int) / (n as int) * (n as int) + (d as int) % (n as int) == d as int,
                0 <= (d as int) % (n as int),
        ;
    }
    let mean: i64 = if value >= s.mean {
        s.mean + step
    } else {
        s.mean - step
    };
    proof {
        assert(0 <= (d as int) * (d as int) <= 4000000000000000000int) by (nonlinear_arith)
            requires
                0 <= d <= 2000000000,
        ;
    }
    let dd: i128 = (d as i128) * (d as i128);
    proof {
        lemma_fundamental_div_mod(dd as int, n as int);
        vstd::arithmetic::div_mod::lemma_mod_bound(dd as int, n as int);
        lemma_div_pos_is_pos(dd as int, n as int);
        assert((dd as int) / (n as int) <= dd as int) by (nonlinear_arith)
            requires
                n >= 1,
                0 <= dd,
                (dd as int) / (n as int) * (n as int) + (dd as int) % (n as int) == dd as int,
                0 <= (dd as int) % (n as int),
        ;
    }
    let q: i128 = dd / (n as i128);
    proof {
        assert(0 <= ((n - 1) as int) * ((s.variance as int) + (q as int))
            <= 1000000int * 8000000000000000000int) by (nonlinear_arith)
            requires
                1 <= n <= 1000000,
                0 <= s.variance <= 4000000000000000000int,
                0 <= q <= 4000000000000000000int,
        ;
    }
    let t: i128 = ((n - 1) as i128) * ((s.variance as i128) + q);
    let raw: i128 = t / (n as i128);
    proof {
        lemma_div_pos_is_pos(t as int, n as int);
    }
    let variance: u64 = if raw > VAR_MAX as i128 {
        VAR_MAX
    } else {
        raw as u64
    };
    let count: u64 = if s.count == u64::MAX {
        s.count
    } else {
        s.count + 1
    };
    RollingStats { count, mean, variance }
}

} // verus!
