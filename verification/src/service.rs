//! The validator service: per-sensor pipeline state and orchestration.
//!
//! The service owns one pipeline state per sensor identity, created lazily
//! on the first sample and evicted after inactivity. `submit_sample` runs
//! the quality, anomaly and temporal checks against that state, aggregates
//! them into a verdict, updates the state and the counters, and fans the
//! result out to matching subscribers. Samples for the same sensor are
//! applied in the order the calls arrive; callers running streams in
//! parallel serialize per sensor at this boundary.

use vstd::prelude::*;
use crate::anomaly::{
    evaluate, fold, spec_anomaly_contribution, spec_fold, spec_is_anomalous, RollingStats,
};
use crate::config::{
    spec_find_profile, ConfigError, ProfileParams, SensorProfile, ValidationConfig,
};
use crate::metrics::{record, spec_record, ServiceMetrics};
use crate::quality::{
    assess_payload, rate_check, spec_accuracy, spec_any_out_hard, spec_any_out_soft,
    spec_completeness, spec_incomplete, spec_rate_exceeded, spec_timeliness,
};
use crate::sensors::{count_present, payload_representable, SensorData, VALUE_MAX};
use crate::subscribe::{
    offer_result, spec_offered, OverflowPolicy, Subscriber, SubscriptionFilter,
};
use crate::temporal::{
    check_temporal, spec_advance, spec_clock_skew, spec_duplicate, spec_out_of_order, spec_stale,
    spec_temporal_contribution, TemporalCursor,
};
use crate::validation::{
    aggregate, duplicate_result, result_like, spec_composite, spec_min_score, spec_verdict,
    QualityMetrics, RuleKind, Severity, ValidationResult, Verdict, Violation,
};

verus! {

/// Why a sample was rejected before entering the pipeline.
#[derive(Debug, Clone, Copy, PartialEq, Eq, Structural)]
pub enum InputError {
    /// The sample carries no sensor identity.
    MissingSensorId,
    /// No payload field holds a usable value.
    UnusablePayload,
    /// A payload value is too large in magnitude to score exactly.
    UnrepresentableValue,
}

/// Why the service could not produce a verdict for a sample. A low-quality
/// verdict is a successful outcome, not an error.
#[derive(Debug, Clone, Copy, PartialEq, Eq, Structural)]
pub enum ValidationError {
    /// The sample was malformed; pipeline state is untouched.
    Input(InputError),
    /// The configuration has no profile for the sample's sensor type.
    Config(ConfigError),
    /// The sensor's pipeline could not be claimed in time; retryable.
    Timeout,
}

/// The lifecycle phase of one sensor's pipeline.
#[derive(Debug, Clone, Copy, PartialEq, Eq, Structural)]
pub enum PipelinePhase {
    /// Fewer than `W` samples folded in: baseline still building.
    Warming,
    /// Full anomaly detection is active.
    Stable,
}

/// Per-sensor pipeline state, exclusively owned by the service.
#[derive(Debug, Clone, Copy, PartialEq, Eq, Structural)]
pub struct PipelineState {
    /// Rolling statistics of the stream's values.
    pub stats: RollingStats,
    /// Value of the last accepted sample, for the rate-of-change check.
    pub last_value: i64,
    /// Timestamp of the last accepted sample.
    pub last_timestamp: u64,
    /// Sequence number of the last accepted sample.
    pub last_sequence: u64,
    /// Service time of the last activity on this sensor.
    pub last_activity: u64,
    /// Inactivity span after which this state is evicted.
    pub idle_timeout: u64,
    /// Rolling-window size of the profile that applied last.
    pub window: u64,
    /// Quality metrics of the last produced result.
    pub last_metrics: QualityMetrics,
}

impl PipelineState {
    /// Range invariants of the state.
    pub open spec fn wf(&self) -> bool {
        &&& self.stats.wf()
        &&& 1 <= self.window
    }

    /// The lifecycle phase: Warming until `window` samples are folded in.
    pub open spec fn spec_phase(&self) -> PipelinePhase {
        if self.stats.count < self.window {
            PipelinePhase::Warming
        } else {
            PipelinePhase::Stable
        }
    }

    /// Reports the state's lifecycle phase.
    pub fn phase(&self) -> (r: PipelinePhase)
        ensures
            r == self.spec_phase(),
    {
        if self.stats.count < self.window {
            PipelinePhase::Warming
        } else {
            PipelinePhase::Stable
        }
    }
}

/// The input check a sample must pass before it reaches the pipeline, and
/// the error when it does not.
pub open spec fn spec_input_error(sample: SensorData) -> Option<InputError> {
    if sample.sensor_id@.len() == 0 {
        Some(InputError::MissingSensorId)
    } else if count_present(sample.payload@) == 0 {
        Some(InputError::UnusablePayload)
    } else if !payload_representable(sample.payload@) {
        Some(InputError::UnrepresentableValue)
    } else {
        None
    }
}

/// The statistics a sample is judged against: the stream's, or fresh ones.
pub open spec fn spec_prev_stats(prev: Option<PipelineState>) -> RollingStats {
    match prev {
        None => RollingStats::spec_empty(),
        Some(st) => st.stats,
    }
}

/// The temporal cursors a sample is judged against.
pub open spec fn spec_prev_cursor(prev: Option<PipelineState>) -> TemporalCursor {
    match prev {
        None => None,
        Some(st) => Some((st.last_timestamp, st.last_sequence)),
    }
}

/// The previous reading the rate-of-change check compares against.
pub open spec fn spec_prev_rate(prev: Option<PipelineState>) -> Option<(i64, u64)> {
    match prev {
        None => None,
        Some(st) => Some((st.last_value, st.last_timestamp)),
    }
}

/// The sample's value, for a sample that passed the input check.
pub open spec fn spec_sample_value(sample: SensorData) -> i64 {
    sample.spec_value()->Some_0
}

/// Whether the sample raises a hard violation: a payload value beyond the
/// safety bounds, or a duplicate sequence number.
pub open spec fn spec_sample_hard(
    sample: SensorData,
    prev: Option<PipelineState>,
    p: ProfileParams,
) -> bool {
    spec_any_out_hard(sample.payload@, p) || spec_duplicate(
        sample.sequence_number,
        spec_prev_cursor(prev),
    )
}

/// Whether the sample violates the rate-of-change rule.
pub open spec fn spec_sample_rate_exceeded(
    sample: SensorData,
    prev: Option<PipelineState>,
    p: ProfileParams,
) -> bool {
    spec_prev_rate(prev) matches Some((pv, pts)) && spec_rate_exceeded(
        spec_sample_value(sample) as int,
        sample.timestamp as int,
        pv as int,
        pts as int,
        p.max_rate as int,
    )
}

/// The quality metrics the pipeline assigns to a sample.
pub open spec fn spec_sample_metrics(
    sample: SensorData,
    prev: Option<PipelineState>,
    p: ProfileParams,
) -> QualityMetrics {
    let pl = sample.payload@;
    let v = spec_sample_value(sample);
    let accuracy = spec_accuracy(pl, p) as u32;
    let completeness = spec_completeness(pl) as u32;
    let timeliness = spec_timeliness(
        v as int,
        sample.timestamp as int,
        spec_prev_rate(prev),
        p,
    ) as u32;
    let anom = spec_anomaly_contribution(spec_prev_stats(prev), v, p) as u32;
    let temp = spec_temporal_contribution(
        sample.timestamp,
        sample.sequence_number,
        sample.arrival_time,
        spec_prev_cursor(prev),
        p,
    ) as u32;
    let consistency = spec_min_score(anom, temp);
    QualityMetrics {
        completeness,
        accuracy_score: accuracy,
        timeliness_score: timeliness,
        consistency_score: consistency,
        composite_score: spec_composite(accuracy, completeness, timeliness, consistency, p)
            as u32,
    }
}

/// The verdict the pipeline assigns to a sample.
pub open spec fn spec_sample_verdict(
    sample: SensorData,
    prev: Option<PipelineState>,
    p: ProfileParams,
) -> Verdict {
    spec_verdict(
        spec_sample_hard(sample, prev, p),
        spec_sample_metrics(sample, prev, p).composite_score as int,
        p,
    )
}

/// The violations the pipeline raises for a sample, in fixed rule order.
pub open spec fn spec_sample_violations(
    sample: SensorData,
    prev: Option<PipelineState>,
    p: ProfileParams,
) -> Seq<Violation> {
    let pl = sample.payload@;
    let cursor = spec_prev_cursor(prev);
    let s0 = Seq::<Violation>::empty();
    let s1 = if spec_any_out_soft(pl, p) {
        s0.push(
            Violation {
                rule: RuleKind::OutOfRange,
                severity: if spec_any_out_hard(pl, p) {
                    Severity::Critical
                } else {
                    Severity::Warning
                },
            },
        )
    } else {
        s0
    };
    let s2 = if spec_incomplete(pl) {
        s1.push(Violation { rule: RuleKind::IncompleteData, severity: Severity::Warning })
    } else {
        s1
    };
    let s3 = if spec_sample_rate_exceeded(sample, prev, p) {
        s2.push(
            Violation { rule: RuleKind::ExcessiveRateOfChange, severity: Severity::Warning },
        )
    } else {
        s2
    };
    let s4 = if spec_out_of_order(sample.timestamp, cursor) {
        s3.push(Violation { rule: RuleKind::OutOfOrder, severity: Severity::Warning })
    } else {
        s3
    };
    let s5 = if spec_stale(sample.timestamp, cursor, p.max_gap) {
        s4.push(Violation { rule: RuleKind::StaleOrDropped, severity: Severity::Warning })
    } else {
        s4
    };
    let s6 = if spec_duplicate(sample.sequence_number, cursor) {
        s5.push(Violation { rule: RuleKind::DuplicateSample, severity: Severity::Critical })
    } else {
        s5
    };
    if spec_clock_skew(sample.arrival_time, sample.timestamp, p.clock_skew_tolerance) {
        s6.push(Violation { rule: RuleKind::ClockSkew, severity: Severity::Warning })
    } else {
        s6
    }
}

/// The pipeline state after a sample: statistics folded in unless the
/// payload broke the safety bounds, cursors advanced only when the sample
/// passed the ordering and duplicate checks, activity refreshed.
pub open spec fn spec_next_state(
    sample: SensorData,
    prev: Option<PipelineState>,
    p: ProfileParams,
    now: u64,
) -> PipelineState {
    let v = spec_sample_value(sample);
    let cursor = spec_prev_cursor(prev);
    let adv = spec_advance(sample.timestamp, sample.sequence_number, cursor);
    let stats0 = spec_prev_stats(prev);
    PipelineState {
        stats: if spec_any_out_hard(sample.payload@, p) {
            stats0
        } else {
            spec_fold(stats0, v, p.window)
        },
        last_value: if adv {
            v
        } else {
            prev->Some_0.last_value
        },
        last_timestamp: if adv {
            sample.timestamp
        } else {
            prev->Some_0.last_timestamp
        },
        last_sequence: if adv {
            sample.sequence_number
        } else {
            prev->Some_0.last_sequence
        },
        last_activity: now,
        idle_timeout: p.idle_timeout,
        window: p.window,
        last_metrics: spec_sample_metrics(sample, prev, p),
    }
}

/// The service counters after recording a sample's outcome.
pub open spec fn spec_next_counters(
    m: ServiceMetrics,
    sample: SensorData,
    prev: Option<PipelineState>,
    p: ProfileParams,
) -> ServiceMetrics {
    let pl = sample.payload@;
    let cursor = spec_prev_cursor(prev);
    spec_record(
        m,
        spec_is_anomalous(spec_prev_stats(prev), spec_sample_value(sample), p),
        spec_any_out_soft(pl, p),
        spec_incomplete(pl),
        spec_sample_rate_exceeded(sample, prev, p),
        spec_out_of_order(sample.timestamp, cursor),
        spec_stale(sample.timestamp, cursor, p.max_gap),
        spec_duplicate(sample.sequence_number, cursor),
        spec_clock_skew(sample.arrival_time, sample.timestamp, p.clock_skew_tolerance),
    )
}

/// Index of the first pipeline entry (at `i` or later) whose sensor id is
/// `id`, if any.
pub open spec fn spec_entry_at_from(
    entries: Seq<(String, PipelineState)>,
    id: Seq<char>,
    i: int,
) -> Option<int>
    decreases entries.len() - i,
{
    if i < 0 || i >= entries.len() {
        None
    } else if entries[i].0@ == id {
        Some(i)
    } else {
        spec_entry_at_from(entries, id, i + 1)
    }
}

/// Index of the pipeline entry for `id`, if any.
pub open spec fn spec_entry_at(entries: Seq<(String, PipelineState)>, id: Seq<char>) -> Option<
    int,
> {
    spec_entry_at_from(entries, id, 0)
}

/// The pipeline state the service holds for `id`, if any.
pub open spec fn spec_state_of(entries: Seq<(String, PipelineState)>, id: Seq<char>) -> Option<
    PipelineState,
> {
    match spec_entry_at(entries, id) {
        None => None,
        Some(k) => Some(entries[k].1),
    }
}

/// What a found (or absent) entry index means for the individual entries.
pub proof fn lemma_entry_at_from(entries: Seq<(String, PipelineState)>, id: Seq<char>, i: int)
    requires
        0 <= i,
    ensures
        match spec_entry_at_from(entries, id, i) {
            Some(k) => {
                &&& i <= k < entries.len()
                &&& entries[k].0@ == id
                &&& forall|j: int| i <= j < k ==> (#[trigger] entries[j]).0@ != id
            },
            None => forall|j: int| i <= j < entries.len() ==> (#[trigger] entries[j]).0@ != id,
        },
    decreases entries.len() - i,
{
    if 0 <= i < entries.len() {
        lemma_entry_at_from(entries, id, i + 1);
    }
}

/// The validator service: configuration, per-sensor pipelines, subscribers
/// and counters.
#[derive(Debug)]
pub struct ValidatorService {
    /// The active configuration snapshot.
    pub config: ValidationConfig,
    /// One pipeline per sensor identity seen recently.
    pub entries: Vec<(String, PipelineState)>,
    /// The registered subscribers.
    pub subscribers: Vec<Subscriber>,
    /// The next subscription handle to hand out.
    pub next_subscriber_id: u64,
    /// Service-level counters.
    pub counters: ServiceMetrics,
}

impl ValidatorService {
    /// The service invariant: well-formed configuration and states, one
    /// entry per sensor id, bounded subscriber queues, fresh handles.
    pub open spec fn wf(&self) -> bool {
        &&& self.config.wf()
        &&& forall|i: int|
            0 <= i < self.entries@.len() ==> (#[trigger] self.entries@[i]).1.wf()
        &&& forall|i: int, j: int|
            0 <= i < j < self.entries@.len() ==> (#[trigger] self.entries@[i]).0@ != (
            #[trigger] self.entries@[j]).0@
        &&& forall|i: int|
            0 <= i < self.subscribers@.len() ==> (#[trigger] self.subscribers@[i]).wf()
        &&& self.next_subscriber_id == u64::MAX || forall|i: int|
            0 <= i < self.subscribers@.len() ==> (#[trigger] self.subscribers@[i]).id
                < self.next_subscriber_id
    }

    /// Creates a service over a configuration.
    pub fn new(config: ValidationConfig) -> (r: ValidatorService)
        requires
            config.wf(),
        ensures
            r.wf(),
            r.config == config,
            r.entries@.len() == 0,
            r.subscribers@.len() == 0,
            r.counters == ServiceMetrics::spec_zero(),
    {
        ValidatorService {
            config,
            entries: Vec::new(),
            subscribers: Vec::new(),
            next_subscriber_id: 0,
            counters: crate::metrics::ServiceMetrics::zero(),
        }
    }

    /// Finds the pipeline entry for a sensor id.
    fn find_entry(&self, id: &String) -> (r: Option<usize>)
        ensures
            match r {
                None => spec_entry_at(self.entries@, id@) is None,
                Some(k) => spec_entry_at(self.entries@, id@) == Some(k as int),
            },
    {
        let mut i: usize = 0;
        while i < self.entries.len()
            invariant
                0 <= i <= self.entries@.len(),
                spec_entry_at_from(self.entries@, id@, i as int) == spec_entry_at(
                    self.entries@,
                    id@,
                ),
            decreases self.entries@.len() - i,
        {
            if self.entries[i].0 == *id {
                return Some(i);
            }
            i = i + 1;
        }
        None
    }

    /// Returns the metrics of the last result produced for `sensor_id`,
    /// without mutating any pipeline state.
    pub fn get_metrics(&self, sensor_id: &String) -> (r: Option<QualityMetrics>)
        ensures
            r == match spec_state_of(self.entries@, sensor_id@) {
                None => None::<QualityMetrics>,
                Some(st) => Some(st.last_metrics),
            },
    {
        match self.find_entry(sensor_id) {
            None => None,
            Some(k) => {
                proof {
                    lemma_entry_at_from(self.entries@, sensor_id@, 0);
                }
                Some(self.entries[k].1.last_metrics)
            },
        }
    }

    /// Returns the lifecycle phase of a sensor's pipeline, if it has one.
    pub fn get_phase(&self, sensor_id: &String) -> (r: Option<PipelinePhase>)
        ensures
            r == match spec_state_of(self.entries@, sensor_id@) {
                None => None::<PipelinePhase>,
                Some(st) => Some(st.spec_phase()),
            },
    {
        match self.find_entry(sensor_id) {
            None => None,
            Some(k) => {
                proof {
                    lemma_entry_at_from(self.entries@, sensor_id@, 0);
                }
                Some(self.entries[k].1.phase())
            },
        }
    }

    /// Returns the aggregate metrics snapshot: the mean of each score
    /// over every live pipeline, or `None` when no pipeline exists.
    pub fn get_aggregate_metrics(&self) -> (r: Option<QualityMetrics>)
        ensures
            r is Some <==> self.entries@.len() > 0,
            r matches Some(m) ==> m == spec_aggregate_metrics(self.entries@),
    {
        let n = self.entries.len();
        if n == 0 {
            return None;
        }
        let mut completeness: u128 = 0;
        let mut accuracy: u128 = 0;
        let mut timeliness: u128 = 0;
        let mut consistency: u128 = 0;
        let mut composite: u128 = 0;
        let mut i: usize = 0;
        while i < n
            invariant
                0 <= i <= n,
                n == self.entries@.len(),
                completeness <= 4294967295u128 * (i as u128),
                accuracy <= 4294967295u128 * (i as u128),
                timeliness <= 4294967295u128 * (i as u128),
                consistency <= 4294967295u128 * (i as u128),
                composite <= 4294967295u128 * (i as u128),
                ({
                    let rest = spec_metrics_sums(self.entries@, i as int);
                    let total = spec_metrics_sums(self.entries@, 0);
                    &&& completeness + rest.0 == total.0
                    &&& accuracy + rest.1 == total.1
                    &&& timeliness + rest.2 == total.2
                    &&& consistency + rest.3 == total.3
                    &&& composite + rest.4 == total.4
                }),
            decreases n - i,
        {
            let m = self.entries[i].1.last_metrics;
            completeness = completeness + m.completeness as u128;
            accuracy = accuracy + m.accuracy_score as u128;
            timeliness = timeliness + m.timeliness_score as u128;
            consistency = consistency + m.consistency_score as u128;
            composite = composite + m.composite_score as u128;
            i = i + 1;
        }
        proof {
            lemma_metrics_sums_nonneg(self.entries@, 0);
        }
        let nn = n as u128;
        Some(
            QualityMetrics {
                completeness: clamp_mean(completeness, nn),
                accuracy_score: clamp_mean(accuracy, nn),
                timeliness_score: clamp_mean(timeliness, nn),
                consistency_score: clamp_mean(consistency, nn),
                composite_score: clamp_mean(composite, nn),
            },
        )
    }

    /// Returns a snapshot of the service counters.
    pub fn get_counters(&self) -> (r: ServiceMetrics)
        ensures
            r == self.counters,
    {
        self.counters
    }

    /// Replaces the configuration with a validated new one; a rejected
    /// reload leaves the prior configuration active.
    pub fn reload_config(&mut self, profiles: Vec<SensorProfile>) -> (r: Result<(), ConfigError>)
        requires
            old(self).wf(),
        ensures
            final(self).wf(),
            r matches Ok(_) <==> crate::config::profiles_wf(profiles@),
            r matches Ok(_) ==> final(self).config.profiles@ == profiles@,
            r matches Err(e) ==> Some(e) == crate::config::spec_profiles_error(profiles@)
                && final(self).config == old(self).config,
            final(self).entries@ == old(self).entries@,
            final(self).subscribers@ == old(self).subscribers@,
            final(self).counters == old(self).counters,
    {
        match ValidationConfig::new(profiles) {
            Ok(c) => {
                self.config = c;
                Ok(())
            },
            Err(e) => Err(e),
        }
    }

    /// Registers a subscriber and returns its handle. A zero capacity is
    /// raised to one; the queue is bounded by it thereafter.
    pub fn subscribe(&mut self, filter: SubscriptionFilter, capacity: usize, policy: OverflowPolicy)
        -> (r: u64)
        requires
            old(self).wf(),
        ensures
            final(self).wf(),
            final(self).subscribers@.len() == old(self).subscribers@.len() + 1,
            final(self).subscribers@.drop_last() == old(self).subscribers@,
            final(self).subscribers@.last().id == r,
            final(self).subscribers@.last().filter == filter,
            final(self).subscribers@.last().queue@.len() == 0,
            final(self).subscribers@.last().policy == policy,
            !final(self).subscribers@.last().disconnected,
            r == old(self).next_subscriber_id,
            final(self).next_subscriber_id == if old(self).next_subscriber_id == u64::MAX {
                u64::MAX as int
            } else {
                old(self).next_subscriber_id + 1
            },
            old(self).next_subscriber_id != u64::MAX ==> forall|i: int|
                0 <= i < old(self).subscribers@.len() ==> (#[trigger] old(
                    self,
                ).subscribers@[i]).id != r,
            final(self).entries@ == old(self).entries@,
            final(self).config == old(self).config,
            final(self).counters == old(self).counters,
    {
        let cap: usize = if capacity == 0 {
            1
        } else {
            capacity
        };
        let id = self.next_subscriber_id;
        self.next_subscriber_id = if id == u64::MAX {
            id
        } else {
            id + 1
        };
        let sub = Subscriber {
            id,
            filter,
            queue: Vec::new(),
            capacity: cap,
            policy,
            disconnected: false,
        };
        self.subscribers.push(sub);
        proof {
            assert(self.subscribers@.drop_last() =~= old(self).subscribers@);
        }
        id
    }

    /// Finds a subscriber by handle.
    fn find_subscriber(&self, id: u64) -> (r: Option<usize>)
        ensures
            match r {
                None => forall|j: int|
                    0 <= j < self.subscribers@.len() ==> (#[trigger] self.subscribers@[j]).id
                        != id,
                Some(k) => k < self.subscribers@.len() && self.subscribers@[k as int].id == id,
            },
    {
        let mut k: usize = 0;
        while k < self.subscribers.len()
            invariant
                0 <= k <= self.subscribers@.len(),
                forall|j: int|
                    0 <= j < k ==> (#[trigger] self.subscribers@[j]).id != id,
            decreases self.subscribers@.len() - k,
        {
            if self.subscribers[k].id == id {
                return Some(k);
            }
            k = k + 1;
        }
        None
    }

    /// Drains and returns a subscriber's queued results, oldest first;
    /// `None` when no subscriber has the handle.
    pub fn poll_subscriber(&mut self, id: u64) -> (r: Option<Vec<ValidationResult>>)
        requires
            old(self).wf(),
        ensures
            final(self).wf(),
            final(self).entries@ == old(self).entries@,
            final(self).config == old(self).config,
            final(self).counters == old(self).counters,
            r is Some <==> exists|k: int|
                0 <= k < old(self).subscribers@.len() && (#[trigger] old(
                    self,
                ).subscribers@[k]).id == id,
            r is None ==> final(self).subscribers@ == old(self).subscribers@,
            r matches Some(q) ==> exists|k: int|
                {
                    &&& 0 <= k < old(self).subscribers@.len()
                    &&& (#[trigger] old(self).subscribers@[k]).id == id
                    &&& q@.len() == old(self).subscribers@[k].queue@.len()
                    &&& forall|j: int|
                        0 <= j < q@.len() ==> result_like(
                            #[trigger] q@[j],
                            old(self).subscribers@[k].queue@[j],
                        )
                    &&& final(self).subscribers@ == old(self).subscribers@.update(
                        k,
                        final(self).subscribers@[k],
                    )
                    &&& final(self).subscribers@[k].queue@.len() == 0
                    &&& final(self).subscribers@[k].id == id
                },
    {
        match self.find_subscriber(id) {
            None => None,
            Some(k) => {
                let mut drained: Vec<ValidationResult> = Vec::new();
                let n = self.subscribers[k].queue.len();
                let mut j: usize = 0;
                while j < n
                    invariant
                        *self == *old(self),
                        old(self).wf(),
                        0 <= j <= n,
                        k < self.subscribers@.len(),
                        self.subscribers@[k as int].id == id,
                        n == self.subscribers@[k as int].queue@.len(),
                        drained@.len() == j,
                        forall|t: int|
                            0 <= t < j ==> result_like(
                                #[trigger] drained@[t],
                                self.subscribers@[k as int].queue@[t],
                            ),
                    decreases n - j,
                {
                    let c = duplicate_result(&self.subscribers[k].queue[j]);
                    drained.push(c);
                    j = j + 1;
                }
                self.subscribers[k].queue.clear();
                proof {
                    let ghost ks = k as int;
                    assert(self.subscribers@ =~= old(self).subscribers@.update(
                        ks,
                        self.subscribers@[ks],
                    ));
                    assert forall|i2: int|
                        0 <= i2 < self.subscribers@.len() implies (
                    #[trigger] self.subscribers@[i2]).wf() by {
                        if i2 != ks {
                            assert(self.subscribers@[i2] == old(self).subscribers@[i2]);
                        }
                    }
                    if self.next_subscriber_id != u64::MAX {
                        assert forall|i2: int|
                            0 <= i2 < self.subscribers@.len() implies (
                        #[trigger] self.subscribers@[i2]).id < self.next_subscriber_id by {
                            if i2 != ks {
                                assert(self.subscribers@[i2] == old(self).subscribers@[i2]);
                            } else {
                                assert(self.subscribers@[ks].id == old(
                                    self,
                                ).subscribers@[ks].id);
                            }
                        }
                    }
                }
                Some(drained)
            },
        }
    }

    /// Removes a subscriber; returns whether the handle was registered.
    pub fn unsubscribe(&mut self, id: u64) -> (r: bool)
        requires
            old(self).wf(),
        ensures
            final(self).wf(),
            final(self).entries@ == old(self).entries@,
            final(self).config == old(self).config,
            final(self).counters == old(self).counters,
            r <==> exists|k: int|
                0 <= k < old(self).subscribers@.len() && (#[trigger] old(
                    self,
                ).subscribers@[k]).id == id,
            !r ==> final(self).subscribers@ == old(self).subscribers@,
            r ==> exists|k: int|
                {
                    &&& 0 <= k < old(self).subscribers@.len()
                    &&& (#[trigger] old(self).subscribers@[k]).id == id
                    &&& final(self).subscribers@ == old(self).subscribers@.remove(k)
                },
    {
        match self.find_subscriber(id) {
            None => false,
            Some(k) => {
                self.subscribers.remove(k);
                proof {
                    old(self).subscribers@.remove_ensures(k as int);
                    assert(old(self).subscribers@[k as int].id == id);
                    assert forall|i2: int|
                        0 <= i2 < self.subscribers@.len() implies (
                    #[trigger] self.subscribers@[i2]).wf() by {
                        if i2 < k as int {
                            assert(self.subscribers@[i2] == old(self).subscribers@[i2]);
                        } else {
                            assert(self.subscribers@[i2] == old(self).subscribers@[i2 + 1]);
                        }
                    }
                    if self.next_subscriber_id != u64::MAX {
                        assert forall|i2: int|
                            0 <= i2 < self.subscribers@.len() implies (
                        #[trigger] self.subscribers@[i2]).id < self.next_subscriber_id by {
                            if i2 < k as int {
                                assert(self.subscribers@[i2] == old(self).subscribers@[i2]);
                            } else {
                                assert(self.subscribers@[i2] == old(self).subscribers@[i2
                                    + 1]);
                            }
                        }
                    }
                }
                true
            },
        }
    }

    /// Validates one sample synchronously: rejects malformed input,
    /// resolves the profile, runs the three checks against this sensor's
    /// state, aggregates the verdict, updates the state and the counters,
    /// and fans the result out to matching subscribers. `now` is the
    /// service's receipt time, used for idle tracking.
    pub fn submit_sample(&mut self, sample: &SensorData, now: u64) -> (r: Result<
        ValidationResult,
        ValidationError,
    >)
        requires
            old(self).wf(),
        ensures
            final(self).wf(),
            spec_input_error(*sample) matches Some(e) ==> r == Err::<
                ValidationResult,
                ValidationError,
            >(ValidationError::Input(e)) && *final(self) == *old(self),
            spec_input_error(*sample) is None && spec_find_profile(
                old(self).config.profiles@,
                sample.sensor_type,
            ) is None ==> r == Err::<ValidationResult, ValidationError>(
                ValidationError::Config(ConfigError::UnknownSensorType),
            ) && *final(self) == *old(self),
            r is Ok <==> spec_input_error(*sample) is None && spec_find_profile(
                old(self).config.profiles@,
                sample.sensor_type,
            ) is Some,
            r matches Ok(res) ==> spec_submit_ok(*old(self), *final(self), *sample, res, now),
    {
        let v: i64 = match check_input(sample) {
            Err(e) => {
                return Err(ValidationError::Input(e));
            },
            Ok(v) => v,
        };
        let p: ProfileParams = match self.config.find_profile(&sample.sensor_type) {
            None => {
                return Err(ValidationError::Config(ConfigError::UnknownSensorType));
            },
            Some(p) => p,
        };
        proof {
            crate::config::lemma_find_profile_wf(self.config.profiles@, sample.sensor_type, 0);
        }
        let kopt: Option<usize> = self.find_entry(&sample.sensor_id);
        proof {
            lemma_entry_at_from(self.entries@, sample.sensor_id@, 0);
        }
        let prev: Option<PipelineState> = match kopt {
            None => None,
            Some(k) => Some(self.entries[k].1),
        };
        let ghost gprev = spec_state_of(old(self).entries@, sample.sensor_id@);
        proof {
            assert(prev == gprev);
        }
        let prev_stats: RollingStats = match prev {
            None => RollingStats::empty(),
            Some(st) => st.stats,
        };
        let cursor: TemporalCursor = match prev {
            None => None,
            Some(st) => Some((st.last_timestamp, st.last_sequence)),
        };
        let prev_rate: Option<(i64, u64)> = match prev {
            None => None,
            Some(st) => Some((st.last_value, st.last_timestamp)),
        };
        let assessment = assess_payload(&sample.payload, &p);
        let (timeliness, rate_exceeded) = rate_check(v, sample.timestamp, prev_rate, &p);
        let anom = evaluate(&prev_stats, v, &p);
        let temp = check_temporal(
            sample.timestamp,
            sample.sequence_number,
            sample.arrival_time,
            cursor,
            &p,
        );
        let hard = assessment.hard_out_of_range || temp.duplicate;
        let (qm, verdict) = aggregate(
            assessment.accuracy,
            assessment.completeness,
            timeliness,
            anom.contribution,
            temp.contribution,
            hard,
            &p,
        );
        let mut violations: Vec<Violation> = Vec::new();
        if assessment.out_of_range {
            violations.push(
                Violation {
                    rule: RuleKind::OutOfRange,
                    severity: if assessment.hard_out_of_range {
                        Severity::Critical
                    } else {
                        Severity::Warning
                    },
                },
            );
        }
        if assessment.incomplete {
            violations.push(
                Violation { rule: RuleKind::IncompleteData, severity: Severity::Warning },
            );
        }
        if rate_exceeded {
            violations.push(
                Violation {
                    rule: RuleKind::ExcessiveRateOfChange,
                    severity: Severity::Warning,
                },
            );
        }
        if temp.out_of_order {
            violations.push(Violation { rule: RuleKind::OutOfOrder, severity: Severity::Warning });
        }
        if temp.stale {
            violations.push(
                Violation { rule: RuleKind::StaleOrDropped, severity: Severity::Warning },
            );
        }
        if temp.duplicate {
            violations.push(
                Violation { rule: RuleKind::DuplicateSample, severity: Severity::Critical },
            );
        }
        if temp.clock_skew {
            violations.push(Violation { rule: RuleKind::ClockSkew, severity: Severity::Warning });
        }
        proof {
            assert(violations@ =~= spec_sample_violations(*sample, gprev, p));
        }
        let new_stats: RollingStats = if assessment.hard_out_of_range {
            prev_stats
        } else {
            fold(&prev_stats, v, &p)
        };
        let (last_value, last_timestamp, last_sequence): (i64, u64, u64) = if temp.advance {
            (v, sample.timestamp, sample.sequence_number)
        } else {
            match prev {
                Some(st) => (st.last_value, st.last_timestamp, st.last_sequence),
                None => (v, sample.timestamp, sample.sequence_number),
            }
        };
        let new_state = PipelineState {
            stats: new_stats,
            last_value,
            last_timestamp,
            last_sequence,
            last_activity: now,
            idle_timeout: p.idle_timeout,
            window: p.window,
            last_metrics: qm,
        };
        proof {
            assert(new_state == spec_next_state(*sample, gprev, p, now));
        }
        match kopt {
            Some(k) => {
                self.entries[k].1 = new_state;
                proof {
                    assert(self.entries@ =~= old(self).entries@.update(
                        k as int,
                        (old(self).entries@[k as int].0, new_state),
                    ));
                    assert forall|i2: int|
                        0 <= i2 < self.entries@.len() implies (
                    #[trigger] self.entries@[i2]).1.wf() by {
                        if i2 != k as int {
                            assert(self.entries@[i2] == old(self).entries@[i2]);
                        }
                    }
                    assert forall|i2: int, j2: int|
                        0 <= i2 < j2 < self.entries@.len() implies (
                    #[trigger] self.entries@[i2]).0@ != (#[trigger] self.entries@[j2]).0@ by {
                        assert(self.entries@[i2].0 == old(self).entries@[i2].0);
                        assert(self.entries@[j2].0 == old(self).entries@[j2].0);
                    }
                }
            },
            None => {
                self.entries.push((sample.sensor_id.clone(), new_state));
                proof {
                    assert(self.entries@.drop_last() =~= old(self).entries@);
                    let le = self.entries@.len() - 1;
                    assert forall|i2: int, j2: int|
                        0 <= i2 < j2 < self.entries@.len() implies (
                    #[trigger] self.entries@[i2]).0@ != (#[trigger] self.entries@[j2]).0@ by {
                        if j2 < le {
                            assert(self.entries@[i2] == old(self).entries@[i2]);
                            assert(self.entries@[j2] == old(self).entries@[j2]);
                        } else {
                            assert(self.entries@[i2] == old(self).entries@[i2]);
                            assert(self.entries@[j2].0@ == sample.sensor_id@);
                        }
                    }
                }
            },
        }
        self.counters = record(
            &self.counters,
            anom.is_anomalous,
            assessment.out_of_range,
            assessment.incomplete,
            rate_exceeded,
            temp.out_of_order,
            temp.stale,
            temp.duplicate,
            temp.clock_skew,
        );
        let res = ValidationResult {
            sensor_id: sample.sensor_id.clone(),
            sequence_number: sample.sequence_number,
            timestamp: sample.timestamp,
            verdict,
            metrics: qm,
            violations,
        };
        let ghost subs0 = self.subscribers@;
        let ghost ent1 = self.entries@;
        let ghost cnt1 = self.counters;
        let nsubs = self.subscribers.len();
        let mut i: usize = 0;
        while i < nsubs
            invariant
                0 <= i <= nsubs,
                self.entries@ == ent1,
                self.counters == cnt1,
                self.config == old(self).config,
                self.next_subscriber_id == old(self).next_subscriber_id,
                nsubs == subs0.len(),
                self.subscribers@.len() == subs0.len(),
                subs0 == old(self).subscribers@,
                old(self).wf(),
                forall|j: int|
                    0 <= j < i ==> spec_offered(#[trigger] subs0[j], self.subscribers@[j], res),
                forall|j: int|
                    i <= j < subs0.len() ==> #[trigger] self.subscribers@[j] == subs0[j],
            decreases nsubs - i,
        {
            offer_result(&mut self.subscribers[i], &res);
            i = i + 1;
        }
        proof {
            assert forall|j: int|
                0 <= j < self.subscribers@.len() implies (#[trigger] self.subscribers@[j]).wf()
                by {
                assert(spec_offered(subs0[j], self.subscribers@[j], res));
                assert(subs0[j].wf());
                lemma_offered_wf(subs0[j], self.subscribers@[j], res);
            }
            if self.next_subscriber_id != u64::MAX {
                assert forall|j: int|
                    0 <= j < self.subscribers@.len() implies (
                #[trigger] self.subscribers@[j]).id < self.next_subscriber_id by {
                    assert(spec_offered(subs0[j], self.subscribers@[j], res));
                }
            }
        }
        Ok(res)
    }

    /// Evicts every pipeline whose last activity is further in the past
    /// than its idle timeout, as judged at `now`. The next sample for an
    /// evicted sensor starts a fresh Warming phase.
    pub fn evict_idle(&mut self, now: u64)
        requires
            old(self).wf(),
        ensures
            final(self).wf(),
            final(self).entries@ == spec_retained(old(self).entries@, now),
            final(self).subscribers@ == old(self).subscribers@,
            final(self).config == old(self).config,
            final(self).counters == old(self).counters,
    {
        let ghost old_entries = self.entries@;
        let mut kept: Vec<(String, PipelineState)> = Vec::new();
        let n = self.entries.len();
        let mut i: usize = 0;
        while i < n
            invariant
                *self == *old(self),
                old(self).wf(),
                0 <= i <= n,
                n == old_entries.len(),
                self.entries@ == old_entries,
                old_entries == old(self).entries@,
                kept@ + spec_retained_from(old_entries, now, i as int) == spec_retained(
                    old_entries,
                    now,
                ),
            decreases n - i,
        {
            let la = self.entries[i].1.last_activity;
            let to = self.entries[i].1.idle_timeout;
            let keep = if now <= la {
                true
            } else {
                now - la <= to
            };
            if keep {
                let entry = self.clone_entry(i);
                kept.push(entry);
                proof {
                    assert(kept@ =~= kept@.drop_last() + seq![old_entries[i as int]]);
                    assert(kept@.drop_last() + (seq![old_entries[i as int]]
                        + spec_retained_from(old_entries, now, i + 1)) =~= (kept@.drop_last()
                        + seq![old_entries[i as int]]) + spec_retained_from(
                        old_entries,
                        now,
                        i + 1,
                    ));
                }
            }
            i = i + 1;
        }
        proof {
            assert(kept@ + spec_retained_from(old_entries, now, n as int) =~= kept@);
            lemma_retained_wf(old_entries, now, 0);
        }
        self.entries = kept;
    }

    /// Copies entry `i` of the table.
    fn clone_entry(&self, i: usize) -> (r: (String, PipelineState))
        requires
            i < self.entries@.len(),
        ensures
            r == self.entries@[i as int],
    {
        let s = self.entries[i].0.clone();
        let st = self.entries[i].1;
        (s, st)
    }
}

/// Whether a pipeline survives an eviction sweep at `now`: kept exactly
/// when its inactivity span does not exceed its idle timeout.
pub open spec fn spec_keep_entry(now: u64, e: (String, PipelineState)) -> bool {
    now <= e.1.last_activity + e.1.idle_timeout
}

/// The entries at index `i` or later that survive an eviction sweep at
/// `now`, in order.
pub open spec fn spec_retained_from(
    entries: Seq<(String, PipelineState)>,
    now: u64,
    i: int,
) -> Seq<(String, PipelineState)>
    decreases entries.len() - i,
{
    if i < 0 || i >= entries.len() {
        Seq::empty()
    } else {
        let rest = spec_retained_from(entries, now, i + 1);
        if spec_keep_entry(now, entries[i]) {
            seq![entries[i]] + rest
        } else {
            rest
        }
    }
}

/// The entries that survive an eviction sweep at `now`, in order.
pub open spec fn spec_retained(entries: Seq<(String, PipelineState)>, now: u64) -> Seq<
    (String, PipelineState),
> {
    spec_retained_from(entries, now, 0)
}

/// Everything retained by a sweep is one of the original entries (at or
/// after the start index), so well-formedness and distinctness of sensor
/// ids survive the sweep.
pub proof fn lemma_retained_wf(entries: Seq<(String, PipelineState)>, now: u64, i: int)
    requires
        forall|t: int| 0 <= t < entries.len() ==> (#[trigger] entries[t]).1.wf(),
        forall|t: int, u: int|
            0 <= t < u < entries.len() ==> (#[trigger] entries[t]).0@ != (
            #[trigger] entries[u]).0@,
    ensures
        forall|t: int|
            0 <= t < spec_retained_from(entries, now, i).len() ==> exists|j: int|
                i <= j < entries.len() && #[trigger] spec_retained_from(entries, now, i)[t]
                    == entries[j],
        forall|t: int|
            0 <= t < spec_retained_from(entries, now, i).len() ==> (
            #[trigger] spec_retained_from(entries, now, i)[t]).1.wf(),
        forall|t: int, u: int|
            0 <= t < u < spec_retained_from(entries, now, i).len() ==> (
            #[trigger] spec_retained_from(entries, now, i)[t]).0@ != (
            #[trigger] spec_retained_from(entries, now, i)[u]).0@,
    decreases entries.len() - i,
{
    if i < 0 || i >= entries.len() {
    } else {
        lemma_retained_wf(entries, now, i + 1);
        let rest = spec_retained_from(entries, now, i + 1);
        let cur = spec_retained_from(entries, now, i);
        if spec_keep_entry(now, entries[i]) {
            assert(cur == seq![entries[i]] + rest);
            assert(cur[0] == entries[i]);
            assert forall|t: int| 0 <= t < cur.len() implies exists|j: int|
                i <= j < entries.len() && #[trigger] cur[t] == entries[j] by {
                if t == 0 {
                    assert(cur[0] == entries[i]);
                } else {
                    assert(cur[t] == rest[t - 1]);
                }
            }
            assert forall|t: int, u: int| 0 <= t < u < cur.len() implies (
            #[trigger] cur[t]).0@ != (#[trigger] cur[u]).0@ by {
                if t == 0 {
                    assert(cur[u] == rest[u - 1]);
                    let j = choose|j: int|
                        i + 1 <= j < entries.len() && #[trigger] rest[u - 1] == entries[j];
                    assert(entries[i].0@ != entries[j].0@);
                } else {
                    assert(cur[t] == rest[t - 1] && cur[u] == rest[u - 1]);
                }
            }
        }
    }
}


/// Checks a sample's input validity; returns the value the pipeline will
/// track on success.
pub fn check_input(sample: &SensorData) -> (r: Result<i64, InputError>)
    ensures
        match r {
            Ok(v) => {
                &&& spec_input_error(*sample) is None
                &&& Some(v) == sample.spec_value()
                &&& -VALUE_MAX <= v <= VALUE_MAX
            },
            Err(e) => spec_input_error(*sample) == Some(e),
        },
{
    if sample.sensor_id.as_str().is_empty() {
        return Err(InputError::MissingSensorId);
    }
    let v: i64 = match sample.value() {
        None => {
            proof {
                crate::sensors::lemma_first_present_count(sample.payload@, 0);
            }
            return Err(InputError::UnusablePayload);
        },
        Some(v) => v,
    };
    proof {
        crate::sensors::lemma_first_present_count(sample.payload@, 0);
        crate::sensors::lemma_count_present_bounds(sample.payload@, 0);
    }
    let mut i: usize = 0;
    while i < sample.payload.len()
        invariant
            0 <= i <= sample.payload@.len(),
            sample.sensor_id@.len() > 0,
            count_present(sample.payload@) > 0,
            Some(v) == sample.spec_value(),
            forall|j: int|
                0 <= j < i ==> (#[trigger] sample.payload@[j] matches Some(x) ==> -VALUE_MAX
                    <= x <= VALUE_MAX),
        decreases sample.payload@.len() - i,
    {
        match sample.payload[i] {
            Some(x) => {
                if x < -VALUE_MAX || x > VALUE_MAX {
                    proof {
                        assert(!payload_representable(sample.payload@));
                    }
                    return Err(InputError::UnrepresentableValue);
                }
            },
            None => {},
        }
        i = i + 1;
    }
    proof {
        assert(payload_representable(sample.payload@));
        crate::sensors::lemma_first_present_bounds(sample.payload@, 0);
    }
    Ok(v)
}

/// What a successful submission does: the returned result carries the
/// pipeline's scores, verdict and violations for the sample as judged
/// against the sensor's previous state; the sensor's entry is updated (or
/// created); the counters record the outcome; every subscriber is offered
/// the result; nothing else changes.
pub open spec fn spec_submit_ok(
    pre: ValidatorService,
    post: ValidatorService,
    sample: SensorData,
    res: ValidationResult,
    now: u64,
) -> bool {
    let p = spec_find_profile(pre.config.profiles@, sample.sensor_type)->Some_0;
    let id = sample.sensor_id@;
    let prev = spec_state_of(pre.entries@, id);
    let st = spec_next_state(sample, prev, p, now);
    &&& res.sensor_id@ == id
    &&& res.sequence_number == sample.sequence_number
    &&& res.timestamp == sample.timestamp
    &&& res.metrics == spec_sample_metrics(sample, prev, p)
    &&& res.verdict == spec_sample_verdict(sample, prev, p)
    &&& res.violations@ == spec_sample_violations(sample, prev, p)
    &&& match spec_entry_at(pre.entries@, id) {
        Some(k) => post.entries@ == pre.entries@.update(k, (pre.entries@[k].0, st)),
        None => {
            &&& post.entries@.len() == pre.entries@.len() + 1
            &&& post.entries@.drop_last() == pre.entries@
            &&& post.entries@.last().0@ == id
            &&& post.entries@.last().1 == st
        },
    }
    &&& post.counters == spec_next_counters(pre.counters, sample, prev, p)
    &&& post.subscribers@.len() == pre.subscribers@.len()
    &&& forall|i: int|
        0 <= i < pre.subscribers@.len() ==> spec_offered(
            #[trigger] pre.subscribers@[i],
            post.subscribers@[i],
            res,
        )
    &&& post.config == pre.config
    &&& post.next_subscriber_id == pre.next_subscriber_id
}

/// Offering a result to a well-formed subscriber keeps it well-formed.
pub proof fn lemma_offered_wf(old_s: Subscriber, new_s: Subscriber, r: ValidationResult)
    requires
        old_s.wf(),
        spec_offered(old_s, new_s, r),
    ensures
        new_s.wf(),
{
}


/// A payload with every present field inside the soft bounds has a perfect
/// accuracy sum.
pub proof fn lemma_accuracy_perfect(pl: Seq<Option<i64>>, p: ProfileParams, i: int)
    requires
        crate::config::params_wf(p),
        !spec_any_out_soft(pl, p),
    ensures
        crate::quality::spec_accuracy_sum_from(pl, p, i) == crate::score::SCORE_ONE
            * crate::sensors::count_present_from(pl, i),
    decreases pl.len() - i,
{
    if 0 <= i < pl.len() {
        lemma_accuracy_perfect(pl, p, i + 1);
        if pl[i] is Some {
            let v = pl[i]->Some_0;
            assert(crate::quality::spec_overshoot(
                v as int,
                p.min_value as int,
                p.max_value as int,
            ) == 0);
        }
        assert(crate::score::SCORE_ONE * crate::sensors::count_present_from(pl, i)
            == crate::score::SCORE_ONE * (crate::sensors::count_present_from(pl, i)
            - crate::sensors::count_present_from(pl, i + 1)) + crate::score::SCORE_ONE
            * crate::sensors::count_present_from(pl, i + 1)) by (nonlinear_arith);
    }
}

/// A sample that is clean in every respect — all present fields inside the
/// soft bounds, no missing fields, rate of change within the limit, in
/// order, within the allowed gap, a fresh sequence number, within clock
/// skew, and not anomalous against the stream's statistics — is assigned
/// the verdict `Valid`, in the Stable phase as in any other.
pub proof fn lemma_clean_sample_valid(
    sample: SensorData,
    prev: Option<PipelineState>,
    p: ProfileParams,
)
    requires
        crate::config::params_wf(p),
        !spec_any_out_soft(sample.payload@, p),
        !spec_incomplete(sample.payload@),
        !spec_sample_rate_exceeded(sample, prev, p),
        !spec_is_anomalous(spec_prev_stats(prev), spec_sample_value(sample), p),
        !spec_out_of_order(sample.timestamp, spec_prev_cursor(prev)),
        !spec_stale(sample.timestamp, spec_prev_cursor(prev), p.max_gap),
        !spec_duplicate(sample.sequence_number, spec_prev_cursor(prev)),
        !spec_clock_skew(sample.arrival_time, sample.timestamp, p.clock_skew_tolerance),
    ensures
        spec_sample_verdict(sample, prev, p) == Verdict::Valid,
        spec_sample_metrics(sample, prev, p).composite_score == crate::score::SCORE_ONE,
        spec_sample_violations(sample, prev, p).len() == 0,
{
    let pl = sample.payload@;
    let one = crate::score::SCORE_ONE;
    // Accuracy is perfect: every present field is in bounds.
    lemma_accuracy_perfect(pl, p, 0);
    crate::sensors::lemma_count_present_bounds(pl, 0);
    let n = crate::sensors::count_present(pl);
    assert(n == pl.len() && pl.len() > 0);
    vstd::arithmetic::div_mod::lemma_div_multiples_vanish(one as int, n);
    assert(spec_accuracy(pl, p) == one);
    // Completeness is perfect: no field is missing.
    assert(spec_completeness(pl) == one * n / pl.len() as int);
    assert(spec_completeness(pl) == one);
    // No hard range violation: inside the soft bounds means inside the
    // hard bounds.
    assert(!spec_any_out_hard(pl, p)) by {
        if spec_any_out_hard(pl, p) {
            let i = choose|i: int|
                0 <= i < pl.len() && (#[trigger] pl[i] matches Some(v)
                    && crate::quality::spec_overshoot(
                    v as int,
                    p.hard_min as int,
                    p.hard_max as int,
                ) > 0);
            assert(crate::quality::spec_overshoot(
                pl[i]->Some_0 as int,
                p.min_value as int,
                p.max_value as int,
            ) > 0);
        }
    }
    // Temporal contribution is full: no rule is violated.
    assert(crate::temporal::spec_temporal_violation_count(
        sample.timestamp,
        sample.sequence_number,
        sample.arrival_time,
        spec_prev_cursor(prev),
        p,
    ) == 0);
    // Composite of all-perfect sub-scores is perfect.
    crate::validation::lemma_perfect_composite(p);
    assert(spec_sample_metrics(sample, prev, p).composite_score == one);
    assert(!spec_sample_hard(sample, prev, p));
}

/// A duplicate sequence number raises a hard `DuplicateSample` violation,
/// forces the verdict `Invalid`, and leaves the stream's cursors — last
/// timestamp, last sequence number, last value — untouched.
pub proof fn lemma_duplicate_sample(
    sample: SensorData,
    prev: Option<PipelineState>,
    p: ProfileParams,
    now: u64,
)
    requires
        spec_duplicate(sample.sequence_number, spec_prev_cursor(prev)),
    ensures
        spec_sample_verdict(sample, prev, p) == Verdict::Invalid,
        spec_sample_violations(sample, prev, p).contains(
            Violation { rule: RuleKind::DuplicateSample, severity: Severity::Critical },
        ),
        spec_next_state(sample, prev, p, now).last_timestamp == prev->Some_0.last_timestamp,
        spec_next_state(sample, prev, p, now).last_sequence == prev->Some_0.last_sequence,
        spec_next_state(sample, prev, p, now).last_value == prev->Some_0.last_value,
{
    let dup = Violation { rule: RuleKind::DuplicateSample, severity: Severity::Critical };
    let vs = spec_sample_violations(sample, prev, p);
    let cursor = spec_prev_cursor(prev);
    assert(spec_sample_hard(sample, prev, p));
    assert(!spec_advance(sample.timestamp, sample.sequence_number, cursor));
    // The duplicate violation is in the list: it is pushed, and at most one
    // later push follows it.
    assert(vs.contains(dup)) by {
        let pl = sample.payload@;
        let s0 = Seq::<Violation>::empty();
        let s1 = if spec_any_out_soft(pl, p) {
            s0.push(
                Violation {
                    rule: RuleKind::OutOfRange,
                    severity: if spec_any_out_hard(pl, p) {
                        Severity::Critical
                    } else {
                        Severity::Warning
                    },
                },
            )
        } else {
            s0
        };
        let s2 = if spec_incomplete(pl) {
            s1.push(Violation { rule: RuleKind::IncompleteData, severity: Severity::Warning })
        } else {
            s1
        };
        let s3 = if spec_sample_rate_exceeded(sample, prev, p) {
            s2.push(
                Violation {
                    rule: RuleKind::ExcessiveRateOfChange,
                    severity: Severity::Warning,
                },
            )
        } else {
            s2
        };
        let s4 = if spec_out_of_order(sample.timestamp, cursor) {
            s3.push(Violation { rule: RuleKind::OutOfOrder, severity: Severity::Warning })
        } else {
            s3
        };
        let s5 = if spec_stale(sample.timestamp, cursor, p.max_gap) {
            s4.push(Violation { rule: RuleKind::StaleOrDropped, severity: Severity::Warning })
        } else {
            s4
        };
        let s6 = s5.push(dup);
        assert(s6[s5.len() as int] == dup);
        if spec_clock_skew(sample.arrival_time, sample.timestamp, p.clock_skew_tolerance) {
            assert(vs == s6.push(
                Violation { rule: RuleKind::ClockSkew, severity: Severity::Warning },
            ));
            assert(vs[s5.len() as int] == dup);
        } else {
            assert(vs == s6);
        }
    }
}

/// The first sample of a (re)created stream starts a fresh Warming phase:
/// its statistics count one sample, which is below any window of at least
/// two.
pub proof fn lemma_first_sample_warming(sample: SensorData, p: ProfileParams, now: u64)
    requires
        crate::config::params_wf(p),
        !spec_any_out_hard(sample.payload@, p),
        p.window >= 2,
    ensures
        spec_next_state(sample, None, p, now).stats.count == 1,
        spec_next_state(sample, None, p, now).spec_phase() == PipelinePhase::Warming,
{
    let st = spec_next_state(sample, None, p, now);
    assert(st.stats == spec_fold(
        RollingStats::spec_empty(),
        spec_sample_value(sample),
        p.window,
    ));
}

/// An entry table update that keeps the key at `k` is invisible to lookup.
pub proof fn lemma_entry_at_update(
    entries: Seq<(String, PipelineState)>,
    id: Seq<char>,
    k: int,
    e: (String, PipelineState),
    i: int,
)
    requires
        0 <= i,
        0 <= k < entries.len(),
        e.0@ == entries[k].0@,
    ensures
        spec_entry_at_from(entries.update(k, e), id, i) == spec_entry_at_from(entries, id, i),
    decreases entries.len() - i,
{
    if 0 <= i < entries.len() {
        assert(entries.update(k, e)[i].0@ == entries[i].0@);
        lemma_entry_at_update(entries, id, k, e, i + 1);
    }
}

/// Appending an entry with a key absent from the table makes lookup find
/// exactly the appended entry.
pub proof fn lemma_entry_at_append(
    pre: Seq<(String, PipelineState)>,
    post: Seq<(String, PipelineState)>,
    id: Seq<char>,
    i: int,
)
    requires
        0 <= i <= pre.len(),
        post.len() == pre.len() + 1,
        post.drop_last() == pre,
        post.last().0@ == id,
        forall|j: int| 0 <= j < pre.len() ==> (#[trigger] pre[j]).0@ != id,
    ensures
        spec_entry_at_from(post, id, i) == Some(pre.len() as int),
    decreases pre.len() - i,
{
    if i < pre.len() {
        assert(post[i] == pre[i]);
        lemma_entry_at_append(pre, post, id, i + 1);
    } else {
        assert(post[i].0@ == id);
    }
}

/// Round trip: right after a successful submission, `get_metrics` for that
/// sensor reports exactly the metrics of the returned result, and the held
/// state is the one the submission computed.
pub proof fn lemma_metrics_round_trip(
    pre: ValidatorService,
    post: ValidatorService,
    sample: SensorData,
    res: ValidationResult,
    now: u64,
)
    requires
        pre.wf(),
        spec_submit_ok(pre, post, sample, res, now),
    ensures
        spec_state_of(post.entries@, sample.sensor_id@) == Some(
            spec_next_state(
                sample,
                spec_state_of(pre.entries@, sample.sensor_id@),
                spec_find_profile(pre.config.profiles@, sample.sensor_type)->Some_0,
                now,
            ),
        ),
        spec_state_of(post.entries@, sample.sensor_id@)->Some_0.last_metrics == res.metrics,
{
    let id = sample.sensor_id@;
    let p = spec_find_profile(pre.config.profiles@, sample.sensor_type)->Some_0;
    let prev = spec_state_of(pre.entries@, id);
    let st = spec_next_state(sample, prev, p, now);
    lemma_entry_at_from(pre.entries@, id, 0);
    match spec_entry_at(pre.entries@, id) {
        Some(k) => {
            let e = (pre.entries@[k].0, st);
            lemma_entry_at_update(pre.entries@, id, k, e, 0);
            assert(post.entries@[k].1 == st);
        },
        None => {
            lemma_entry_at_append(pre.entries@, post.entries@, id, 0);
            assert(post.entries@[pre.entries@.len() as int].1 == st);
        },
    }
}


/// Componentwise sums of the last-result metrics over the entries at
/// index `i` or later: completeness, accuracy, timeliness, consistency,
/// composite.
pub open spec fn spec_metrics_sums(entries: Seq<(String, PipelineState)>, i: int) -> (
    int,
    int,
    int,
    int,
    int,
)
    decreases entries.len() - i,
{
    if i < 0 || i >= entries.len() {
        (0int, 0int, 0int, 0int, 0int)
    } else {
        let rest = spec_metrics_sums(entries, i + 1);
        let m = entries[i].1.last_metrics;
        (
            m.completeness + rest.0,
            m.accuracy_score + rest.1,
            m.timeliness_score + rest.2,
            m.consistency_score + rest.3,
            m.composite_score + rest.4,
        )
    }
}

/// The metric sums are non-negative.
pub proof fn lemma_metrics_sums_nonneg(entries: Seq<(String, PipelineState)>, i: int)
    ensures
        spec_metrics_sums(entries, i).0 >= 0,
        spec_metrics_sums(entries, i).1 >= 0,
        spec_metrics_sums(entries, i).2 >= 0,
        spec_metrics_sums(entries, i).3 >= 0,
        spec_metrics_sums(entries, i).4 >= 0,
    decreases entries.len() - i,
{
    if 0 <= i < entries.len() {
        lemma_metrics_sums_nonneg(entries, i + 1);
    }
}

/// A non-negative mean, clamped into the score range.
pub open spec fn spec_clamp_mean(sum: int, n: int) -> u32 {
    let avg = sum / n;
    if avg >= crate::score::SCORE_ONE {
        crate::score::SCORE_ONE
    } else {
        avg as u32
    }
}

/// The aggregate metrics over all live pipelines: the componentwise mean
/// of every pipeline's last metrics, clamped into the score range.
pub open spec fn spec_aggregate_metrics(entries: Seq<(String, PipelineState)>) -> QualityMetrics {
    let sums = spec_metrics_sums(entries, 0);
    let n = entries.len() as int;
    QualityMetrics {
        completeness: spec_clamp_mean(sums.0, n),
        accuracy_score: spec_clamp_mean(sums.1, n),
        timeliness_score: spec_clamp_mean(sums.2, n),
        consistency_score: spec_clamp_mean(sums.3, n),
        composite_score: spec_clamp_mean(sums.4, n),
    }
}

/// Divides a non-negative sum by a positive count and clamps the mean to
/// the score range.
fn clamp_mean(sum: u128, n: u128) -> (r: u32)
    requires
        n >= 1,
    ensures
        r == spec_clamp_mean(sum as int, n as int),
{
    let avg = sum / n;
    if avg >= crate::score::SCORE_ONE as u128 {
        crate::score::SCORE_ONE
    } else {
        avg as u32
    }
}


/// The recorded cursors never regress: the sequence number recorded in
/// pipeline state strictly increases for accepted samples and never
/// changes otherwise, and the recorded timestamp is monotonic
/// non-decreasing.
pub proof fn lemma_cursor_monotonic(
    sample: SensorData,
    prev: PipelineState,
    p: ProfileParams,
    now: u64,
)
    ensures
        spec_next_state(sample, Some(prev), p, now).last_sequence >= prev.last_sequence,
        spec_next_state(sample, Some(prev), p, now).last_timestamp >= prev.last_timestamp,
        spec_advance(sample.timestamp, sample.sequence_number, spec_prev_cursor(Some(prev)))
            ==> spec_next_state(sample, Some(prev), p, now).last_sequence
            > prev.last_sequence,
{
}

} // verus!
