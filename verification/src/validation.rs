//! Validation results and the result aggregator.
//!
//! The aggregator combines the quality, anomaly and temporal checks into one
//! [`QualityMetrics`] record and a [`Verdict`], applying the hard-violation
//! override: a hard violation forces `Invalid` whatever the composite score.

use vstd::prelude::*;
use crate::config::ProfileParams;
use crate::score::{clamp_score, valid_score, SCORE_ONE};

verus! {

/// The quality verdict assigned to one sample.
#[derive(Debug, Clone, Copy, PartialEq, Eq, Structural)]
pub enum Verdict {
    /// The sample can be trusted by downstream consumers.
    Valid,
    /// The sample is usable but questionable.
    Suspect,
    /// The sample must not be trusted.
    Invalid,
}

/// The rule a violation was raised by.
#[derive(Debug, Clone, Copy, PartialEq, Eq, Structural)]
pub enum RuleKind {
    /// A payload value lies outside the configured bounds.
    OutOfRange,
    /// Payload fields are missing or non-finite.
    IncompleteData,
    /// The value changed faster than the configured maximum rate.
    ExcessiveRateOfChange,
    /// The sample's timestamp precedes the last accepted timestamp.
    OutOfOrder,
    /// The timestamp gap to the previous sample exceeds the maximum,
    /// implying dropped samples.
    StaleOrDropped,
    /// The sequence number does not exceed the last accepted one.
    DuplicateSample,
    /// Origin and arrival time disagree beyond the skew tolerance.
    ClockSkew,
}

/// How severe a violation is; `Critical` violations are hard.
#[derive(Debug, Clone, Copy, PartialEq, Eq, Structural)]
pub enum Severity {
    /// Informational only.
    Info,
    /// Quality-reducing but not disqualifying.
    Warning,
    /// A hard violation: forces the verdict to `Invalid`.
    Critical,
}

/// Numeric rank of a severity, for ordering comparisons.
pub open spec fn severity_rank(s: Severity) -> int {
    match s {
        Severity::Info => 0,
        Severity::Warning => 1,
        Severity::Critical => 2,
    }
}

/// True when `a` is at least as severe as `b`.
pub fn severity_at_least(a: Severity, b: Severity) -> (r: bool)
    ensures
        r == (severity_rank(a) >= severity_rank(b)),
{
    let ra: u32 = match a {
        Severity::Info => 0,
        Severity::Warning => 1,
        Severity::Critical => 2,
    };
    let rb: u32 = match b {
        Severity::Info => 0,
        Severity::Warning => 1,
        Severity::Critical => 2,
    };
    ra >= rb
}

/// One rule violation attached to a validation result.
#[derive(Debug, Clone, Copy, PartialEq, Eq, Structural)]
pub struct Violation {
    /// The rule that was violated.
    pub rule: RuleKind,
    /// How severe the violation is.
    pub severity: Severity,
}

/// The quality sub-scores and composite score of one sample, each a
/// fraction of [`SCORE_ONE`].
#[derive(Debug, Clone, Copy, PartialEq, Eq, Structural)]
pub struct QualityMetrics {
    /// Fraction of payload fields that were present.
    pub completeness: u32,
    /// Bounds-conformance score of the payload values.
    pub accuracy_score: u32,
    /// Rate-of-change conformance score.
    pub timeliness_score: u32,
    /// Statistical and temporal consistency score.
    pub consistency_score: u32,
    /// Weighted combination of the four sub-scores.
    pub composite_score: u32,
}

impl QualityMetrics {
    /// All five scores lie in `[0, SCORE_ONE]`.
    pub open spec fn wf(&self) -> bool {
        &&& valid_score(self.completeness)
        &&& valid_score(self.accuracy_score)
        &&& valid_score(self.timeliness_score)
        &&& valid_score(self.consistency_score)
        &&& valid_score(self.composite_score)
    }
}

/// The outcome of validating one sample.
#[derive(Debug, Clone)]
pub struct ValidationResult {
    /// Identity of the sensor stream the sample belongs to.
    pub sensor_id: String,
    /// The validated sample's sequence number.
    pub sequence_number: u64,
    /// The validated sample's origin timestamp.
    pub timestamp: u64,
    /// The verdict assigned to the sample.
    pub verdict: Verdict,
    /// The sample's quality scores.
    pub metrics: QualityMetrics,
    /// The violations raised, in fixed rule order.
    pub violations: Vec<Violation>,
}

/// Copies a violation list.
pub fn duplicate_violations(v: &Vec<Violation>) -> (c: Vec<Violation>)
    ensures
        c@ == v@,
{
    let mut c: Vec<Violation> = Vec::new();
    let mut i: usize = 0;
    while i < v.len()
        invariant
            0 <= i <= v@.len(),
            c@ == v@.subrange(0, i as int),
        decreases v@.len() - i,
    {
        c.push(v[i]);
        proof {
            assert(c@ =~= v@.subrange(0, i + 1));
        }
        i = i + 1;
    }
    proof {
        assert(c@ =~= v@);
    }
    c
}

/// Two results carry the same information: equal up to the identity of
/// their heap allocations.
pub open spec fn result_like(a: ValidationResult, b: ValidationResult) -> bool {
    &&& a.sensor_id@ == b.sensor_id@
    &&& a.sequence_number == b.sequence_number
    &&& a.timestamp == b.timestamp
    &&& a.verdict == b.verdict
    &&& a.metrics == b.metrics
    &&& a.violations@ == b.violations@
}

/// Copies a validation result, e.g. for fan-out to a subscriber queue.
pub fn duplicate_result(r: &ValidationResult) -> (c: ValidationResult)
    ensures
        result_like(c, *r),
{
    ValidationResult {
        sensor_id: r.sensor_id.clone(),
        sequence_number: r.sequence_number,
        timestamp: r.timestamp,
        verdict: r.verdict,
        metrics: r.metrics,
        violations: duplicate_violations(&r.violations),
    }
}

/// The smaller of two scores.
pub open spec fn spec_min_score(a: u32, b: u32) -> u32 {
    if a <= b {
        a
    } else {
        b
    }
}

/// The composite score: the weighted average of the four sub-scores under
/// the profile's weights, clamped into the score range.
pub open spec fn spec_composite(
    accuracy: u32,
    completeness: u32,
    timeliness: u32,
    consistency: u32,
    p: ProfileParams,
) -> int {
    let num = p.weight_accuracy * accuracy + p.weight_completeness * completeness
        + p.weight_timeliness * timeliness + p.weight_consistency * consistency;
    let avg = num / p.spec_weight_sum();
    if avg >= SCORE_ONE {
        SCORE_ONE as int
    } else {
        avg
    }
}

/// The verdict for a composite score: hard violations force `Invalid`,
/// otherwise the thresholds decide.
pub open spec fn spec_verdict(hard: bool, composite: int, p: ProfileParams) -> Verdict {
    if hard {
        Verdict::Invalid
    } else if composite >= p.valid_threshold {
        Verdict::Valid
    } else if composite >= p.suspect_threshold {
        Verdict::Suspect
    } else {
        Verdict::Invalid
    }
}

/// Combines the sub-scores into metrics and a verdict.
///
/// The consistency score is the weaker of the anomaly and temporal
/// contributions; `hard` reports whether any hard violation was raised.
pub fn aggregate(
    accuracy: u32,
    completeness: u32,
    timeliness: u32,
    anomaly_contribution: u32,
    temporal_contribution: u32,
    hard: bool,
    p: &ProfileParams,
) -> (r: (QualityMetrics, Verdict))
    requires
        valid_score(accuracy),
        valid_score(completeness),
        valid_score(timeliness),
        valid_score(anomaly_contribution),
        valid_score(temporal_contribution),
        p.spec_weight_sum() >= 1,
        p.suspect_threshold <= p.valid_threshold,
    ensures
        r.0.accuracy_score == accuracy,
        r.0.completeness == completeness,
        r.0.timeliness_score == timeliness,
        r.0.consistency_score == spec_min_score(anomaly_contribution, temporal_contribution),
        r.0.composite_score == spec_composite(
            accuracy,
            completeness,
            timeliness,
            spec_min_score(anomaly_contribution, temporal_contribution),
            *p,
        ),
        r.1 == spec_verdict(hard, r.0.composite_score as int, *p),
        r.0.wf(),
{
    let consistency: u32 = if anomaly_contribution <= temporal_contribution {
        anomaly_contribution
    } else {
        temporal_contribution
    };
    proof {
        assert((p.weight_accuracy as int) * (accuracy as int) <= 4294967295000000int
            && (p.weight_completeness as int) * (completeness as int) <= 4294967295000000int
            && (p.weight_timeliness as int) * (timeliness as int) <= 4294967295000000int
            && (p.weight_consistency as int) * (consistency as int) <= 4294967295000000int)
            by (nonlinear_arith)
            requires
                accuracy <= 1000000,
                completeness <= 1000000,
                timeliness <= 1000000,
                consistency <= 1000000,
                p.weight_accuracy <= 4294967295u32,
                p.weight_completeness <= 4294967295u32,
                p.weight_timeliness <= 4294967295u32,
                p.weight_consistency <= 4294967295u32,
        ;
    }
    let num: u64 = (p.weight_accuracy as u64) * (accuracy as u64) + (p.weight_completeness
        as u64) * (completeness as u64) + (p.weight_timeliness as u64) * (timeliness as u64) + (
    p.weight_consistency as u64) * (consistency as u64);
    let wsum: u64 = (p.weight_accuracy as u64) + (p.weight_completeness as u64)
        + (p.weight_timeliness as u64) + (p.weight_consistency as u64);
    let avg: u64 = num / wsum;
    let composite: u32 = clamp_score(avg);
    let verdict: Verdict = if hard {
        Verdict::Invalid
    } else if composite >= p.valid_threshold {
        Verdict::Valid
    } else if composite >= p.suspect_threshold {
        Verdict::Suspect
    } else {
        Verdict::Invalid
    };
    let metrics = QualityMetrics {
        completeness,
        accuracy_score: accuracy,
        timeliness_score: timeliness,
        consistency_score: consistency,
        composite_score: composite,
    };
    (metrics, verdict)
}

/// A composite of all-perfect sub-scores is perfect: feeding `SCORE_ONE`
/// into every channel yields exactly `SCORE_ONE`, for any well-formed
/// weights.
pub proof fn lemma_perfect_composite(p: ProfileParams)
    requires
        p.spec_weight_sum() >= 1,
    ensures
        spec_composite(SCORE_ONE, SCORE_ONE, SCORE_ONE, SCORE_ONE, p) == SCORE_ONE,
{
    let w = p.spec_weight_sum();
    assert(p.weight_accuracy * SCORE_ONE + p.weight_completeness * SCORE_ONE
        + p.weight_timeliness * SCORE_ONE + p.weight_consistency * SCORE_ONE == (
    p.weight_accuracy + p.weight_completeness + p.weight_timeliness + p.weight_consistency)
        * SCORE_ONE) by (nonlinear_arith);
    vstd::arithmetic::div_mod::lemma_div_multiples_vanish(SCORE_ONE as int, w);
}

} // verus!
