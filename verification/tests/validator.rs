//! End-to-end tests of the validator service.

use kova_validator::{
    ConfigError, InputError, OverflowPolicy, PipelinePhase, RuleKind, SensorData, SensorType,
    Severity, SubscriptionFilter, ValidationConfig, ValidationError, ValidatorService, Verdict,
};

fn sample(id: &str, ts: u64, seq: u64, value: i64) -> SensorData {
    SensorData {
        sensor_id: id.to_string(),
        sensor_type: SensorType::Lidar,
        timestamp: ts,
        arrival_time: ts,
        sequence_number: seq,
        payload: vec![Some(value)],
    }
}

fn service() -> ValidatorService {
    ValidatorService::new(ValidationConfig::default())
}

#[test]
fn unknown_sensor_type_is_config_error() {
    let mut svc = service();
    let mut s = sample("s1", 1000, 1, 0);
    s.sensor_type = SensorType::Custom("oddball".to_string());
    let r = svc.submit_sample(&s, 1000);
    assert_eq!(
        r.unwrap_err(),
        ValidationError::Config(ConfigError::UnknownSensorType)
    );
    // No partial result: no pipeline state was created.
    assert!(svc.get_metrics(&"s1".to_string()).is_none());
    assert_eq!(svc.get_counters().samples_processed, 0);
}

#[test]
fn missing_sensor_id_is_input_error() {
    let mut svc = service();
    let s = sample("", 1000, 1, 0);
    let r = svc.submit_sample(&s, 1000);
    assert_eq!(
        r.unwrap_err(),
        ValidationError::Input(InputError::MissingSensorId)
    );
}

#[test]
fn all_missing_payload_is_input_error() {
    let mut svc = service();
    let mut s = sample("s1", 1000, 1, 0);
    s.payload = vec![None, None];
    let r = svc.submit_sample(&s, 1000);
    assert_eq!(
        r.unwrap_err(),
        ValidationError::Input(InputError::UnusablePayload)
    );
}

#[test]
fn oversized_value_is_input_error() {
    let mut svc = service();
    let s = sample("s1", 1000, 1, 2_000_000_000);
    let r = svc.submit_sample(&s, 1000);
    assert_eq!(
        r.unwrap_err(),
        ValidationError::Input(InputError::UnrepresentableValue)
    );
}

#[test]
fn clean_stream_is_valid_beyond_warming() {
    let mut svc = service();
    let id = "lidar-7".to_string();
    for i in 0..15u64 {
        let s = sample("lidar-7", 1000 + i * 100, i + 1, 500);
        let r = svc.submit_sample(&s, 1000 + i * 100).unwrap();
        assert_eq!(r.verdict, Verdict::Valid);
        assert!(r.violations.is_empty());
        assert_eq!(r.metrics.composite_score, 1_000_000);
    }
    // Window is 10, so the pipeline is Stable by now.
    assert_eq!(svc.get_phase(&id), Some(PipelinePhase::Stable));
}

#[test]
fn duplicate_sequence_number_is_hard_invalid() {
    let mut svc = service();
    let s1 = sample("s1", 1000, 5, 0);
    let s2 = sample("s1", 1100, 5, 0);
    svc.submit_sample(&s1, 1000).unwrap();
    let before = svc.entries[0].1;
    let r = svc.submit_sample(&s2, 1100).unwrap();
    assert_eq!(r.verdict, Verdict::Invalid);
    assert!(r
        .violations
        .iter()
        .any(|v| v.rule == RuleKind::DuplicateSample && v.severity == Severity::Critical));
    // The rejected duplicate did not move the cursors.
    let after = svc.entries[0].1;
    assert_eq!(after.last_timestamp, before.last_timestamp);
    assert_eq!(after.last_sequence, before.last_sequence);
    assert_eq!(after.last_value, before.last_value);
}

#[test]
fn outlier_after_flat_warmup_is_anomalous() {
    // Ten samples of 0 build a zero-variance baseline (window is 10); an
    // eleventh of 100 units (fixed-point 100000) with k = 3 must be
    // classified anomalous and must pull the verdict below Valid.
    let mut svc = service();
    for i in 0..10u64 {
        let s = sample("imu-1", 1000 + i * 10, i + 1, 0);
        let r = svc.submit_sample(&s, 1000 + i * 10).unwrap();
        assert_eq!(r.verdict, Verdict::Valid);
    }
    assert_eq!(svc.get_phase(&"imu-1".to_string()), Some(PipelinePhase::Stable));
    assert_eq!(svc.get_counters().anomalies_detected, 0);
    let outlier = sample("imu-1", 1200, 11, 100_000);
    let r = svc.submit_sample(&outlier, 1200).unwrap();
    assert!(r.verdict == Verdict::Suspect || r.verdict == Verdict::Invalid);
    assert!(r.metrics.composite_score < 900_000);
    assert_eq!(svc.get_counters().anomalies_detected, 1);
}

#[test]
fn same_sensor_submissions_apply_in_order() {
    // Two submissions for one sensor apply in a single total order: the
    // state afterwards is exactly the fold of both, in submission order.
    let mut svc = service();
    svc.submit_sample(&sample("s1", 1000, 1, 100), 1000).unwrap();
    svc.submit_sample(&sample("s1", 1100, 2, 200), 1100).unwrap();
    let st = svc.entries[0].1;
    assert_eq!(st.stats.count, 2);
    assert_eq!(st.last_sequence, 2);
    assert_eq!(st.last_timestamp, 1100);
    assert_eq!(st.last_value, 200);
    assert_eq!(svc.get_counters().samples_processed, 2);
}

#[test]
fn idle_sensor_is_evicted_and_restarts_warming() {
    let mut svc = service();
    let id = "gps-3".to_string();
    for i in 0..12u64 {
        let mut s = sample("gps-3", 1000 + i * 10, i + 1, 0);
        s.sensor_type = SensorType::Gps;
        svc.submit_sample(&s, 1000 + i * 10).unwrap();
    }
    assert_eq!(svc.get_phase(&id), Some(PipelinePhase::Stable));
    // Default idle timeout is 300000; sweep far in the future.
    svc.evict_idle(10_000_000);
    assert!(svc.get_metrics(&id).is_none());
    assert!(svc.get_phase(&id).is_none());
    // The next sample starts a fresh Warming phase with no memory.
    let mut s = sample("gps-3", 20_000_000, 100, 0);
    s.sensor_type = SensorType::Gps;
    svc.submit_sample(&s, 20_000_000).unwrap();
    assert_eq!(svc.get_phase(&id), Some(PipelinePhase::Warming));
    assert_eq!(svc.entries[0].1.stats.count, 1);
}

#[test]
fn eviction_keeps_active_sensors() {
    let mut svc = service();
    svc.submit_sample(&sample("old", 1000, 1, 0), 1000).unwrap();
    svc.submit_sample(&sample("fresh", 1000, 1, 0), 400_000).unwrap();
    svc.evict_idle(500_000);
    assert!(svc.get_metrics(&"old".to_string()).is_none());
    assert!(svc.get_metrics(&"fresh".to_string()).is_some());
}

#[test]
fn get_metrics_reflects_last_submission() {
    let mut svc = service();
    let r = svc.submit_sample(&sample("s1", 1000, 1, 500), 1000).unwrap();
    let m = svc.get_metrics(&"s1".to_string()).unwrap();
    assert_eq!(m, r.metrics);
    let r2 = svc
        .submit_sample(&sample("s1", 1100, 2, 1_500_000), 1100)
        .unwrap();
    let m2 = svc.get_metrics(&"s1".to_string()).unwrap();
    assert_eq!(m2, r2.metrics);
    assert_ne!(m2, m);
}

#[test]
fn out_of_range_value_penalizes_accuracy_proportionally() {
    // Soft bounds are [-1000000, 1000000]; 1500000 overshoots by 500000
    // over a range of 2000000: a quarter of the scale, so accuracy is
    // 750000.
    let mut svc = service();
    let r = svc
        .submit_sample(&sample("s1", 1000, 1, 1_500_000), 1000)
        .unwrap();
    assert_eq!(r.metrics.accuracy_score, 750_000);
    assert!(r
        .violations
        .iter()
        .any(|v| v.rule == RuleKind::OutOfRange && v.severity == Severity::Warning));
}

#[test]
fn hard_out_of_range_forces_invalid_and_protects_baseline() {
    // 200000000 exceeds the hard safety bound 100000000: the verdict is
    // Invalid regardless of the other scores, and the corrupt value is not
    // folded into the rolling statistics.
    let mut svc = service();
    svc.submit_sample(&sample("s1", 1000, 1, 0), 1000).unwrap();
    let count_before = svc.entries[0].1.stats.count;
    let r = svc
        .submit_sample(&sample("s1", 1100, 2, 200_000_000), 1100)
        .unwrap();
    assert_eq!(r.verdict, Verdict::Invalid);
    assert!(r
        .violations
        .iter()
        .any(|v| v.rule == RuleKind::OutOfRange && v.severity == Severity::Critical));
    assert_eq!(svc.entries[0].1.stats.count, count_before);
}

#[test]
fn missing_fields_reduce_completeness() {
    let mut svc = service();
    let mut s = sample("s1", 1000, 1, 0);
    s.payload = vec![Some(0), None];
    let r = svc.submit_sample(&s, 1000).unwrap();
    assert_eq!(r.metrics.completeness, 500_000);
    assert!(r.violations.iter().any(|v| v.rule == RuleKind::IncompleteData));
}

#[test]
fn excessive_rate_of_change_is_flagged() {
    // From -900000 to 900000 in one time unit is 1800000 per unit, above
    // the limit of 1000000: timeliness is 1000000 * 1000000 / 1800000.
    let mut svc = service();
    svc.submit_sample(&sample("s1", 1000, 1, -900_000), 1000).unwrap();
    let r = svc.submit_sample(&sample("s1", 1001, 2, 900_000), 1001).unwrap();
    assert!(r
        .violations
        .iter()
        .any(|v| v.rule == RuleKind::ExcessiveRateOfChange));
    assert_eq!(r.metrics.timeliness_score, 555_555);
}

#[test]
fn out_of_order_timestamp_is_flagged_and_cursor_kept() {
    let mut svc = service();
    svc.submit_sample(&sample("s1", 5000, 1, 0), 5000).unwrap();
    let r = svc.submit_sample(&sample("s1", 4000, 2, 0), 5100).unwrap();
    assert!(r.violations.iter().any(|v| v.rule == RuleKind::OutOfOrder));
    assert_eq!(svc.entries[0].1.last_timestamp, 5000);
}

#[test]
fn large_gap_is_stale_or_dropped() {
    let mut svc = service();
    svc.submit_sample(&sample("s1", 1000, 1, 0), 1000).unwrap();
    // The default maximum gap is 10000.
    let r = svc.submit_sample(&sample("s1", 20_000, 2, 0), 20_000).unwrap();
    assert!(r.violations.iter().any(|v| v.rule == RuleKind::StaleOrDropped));
}

#[test]
fn clock_skew_is_flagged() {
    let mut svc = service();
    let mut s = sample("s1", 1000, 1, 0);
    s.arrival_time = 10_000;  // default tolerance is 5000
    let r = svc.submit_sample(&s, 10_000).unwrap();
    assert!(r.violations.iter().any(|v| v.rule == RuleKind::ClockSkew));
}

#[test]
fn violation_counters_track_kinds() {
    let mut svc = service();
    svc.submit_sample(&sample("s1", 1000, 1, 0), 1000).unwrap();
    svc.submit_sample(&sample("s1", 1100, 1, 0), 1100).unwrap();  // duplicate
    svc.submit_sample(&sample("s1", 900, 2, 0), 1200).unwrap();  // out of order
    let c = svc.get_counters();
    assert_eq!(c.samples_processed, 3);
    assert_eq!(c.duplicate_sample, 1);
    assert_eq!(c.out_of_order, 1);
}

#[test]
fn reload_rejects_bad_config_and_keeps_old() {
    let mut svc = service();
    let profiles_before = svc.config.profiles.len();
    let mut bad = kova_validator::SensorProfile {
        sensor_type: SensorType::Lidar,
        params: kova_validator::config::default_params(),
    };
    bad.params.suspect_threshold = 999_999;
    bad.params.valid_threshold = 1;  // thresholds out of order
    let r = svc.reload_config(vec![bad]);
    assert_eq!(r.unwrap_err(), ConfigError::InvalidThresholds);
    assert_eq!(svc.config.profiles.len(), profiles_before);
}

#[test]
fn subscriber_receives_matching_results() {
    let mut svc = service();
    let handle = svc.subscribe(
        SubscriptionFilter { sensor_id: Some("s1".to_string()), min_severity: None },
        8,
        OverflowPolicy::DropOldest,
    );
    svc.submit_sample(&sample("s1", 1000, 1, 0), 1000).unwrap();
    svc.submit_sample(&sample("s2", 1000, 1, 0), 1000).unwrap();
    let delivered = svc.poll_subscriber(handle).unwrap();
    assert_eq!(delivered.len(), 1);
    assert_eq!(delivered[0].sensor_id, "s1");
    // The queue is drained.
    assert_eq!(svc.poll_subscriber(handle).unwrap().len(), 0);
}

#[test]
fn severity_filter_suppresses_clean_results() {
    let mut svc = service();
    let handle = svc.subscribe(
        SubscriptionFilter { sensor_id: None, min_severity: Some(Severity::Critical) },
        8,
        OverflowPolicy::DropOldest,
    );
    svc.submit_sample(&sample("s1", 1000, 1, 0), 1000).unwrap();
    svc.submit_sample(&sample("s1", 1100, 1, 0), 1100).unwrap();  // duplicate: Critical
    let delivered = svc.poll_subscriber(handle).unwrap();
    assert_eq!(delivered.len(), 1);
    assert!(delivered[0]
        .violations
        .iter()
        .any(|v| v.severity == Severity::Critical));
}

#[test]
fn overflow_drop_oldest_keeps_newest() {
    let mut svc = service();
    let handle = svc.subscribe(
        SubscriptionFilter { sensor_id: None, min_severity: None },
        1,
        OverflowPolicy::DropOldest,
    );
    svc.submit_sample(&sample("s1", 1000, 1, 0), 1000).unwrap();
    svc.submit_sample(&sample("s1", 1100, 2, 0), 1100).unwrap();
    let delivered = svc.poll_subscriber(handle).unwrap();
    assert_eq!(delivered.len(), 1);
    assert_eq!(delivered[0].sequence_number, 2);
}

#[test]
fn overflow_disconnect_never_blocks_ingestion() {
    let mut svc = service();
    let handle = svc.subscribe(
        SubscriptionFilter { sensor_id: None, min_severity: None },
        1,
        OverflowPolicy::Disconnect,
    );
    svc.submit_sample(&sample("s1", 1000, 1, 0), 1000).unwrap();
    let r = svc.submit_sample(&sample("s1", 1100, 2, 0), 1100);
    assert!(r.is_ok());
    assert!(svc.subscribers[0].disconnected);
    // The first result is still queued; the second was dropped.
    let delivered = svc.poll_subscriber(handle).unwrap();
    assert_eq!(delivered.len(), 1);
    assert_eq!(delivered[0].sequence_number, 1);
}

#[test]
fn unsubscribe_releases_the_queue() {
    let mut svc = service();
    let handle = svc.subscribe(
        SubscriptionFilter { sensor_id: None, min_severity: None },
        4,
        OverflowPolicy::DropOldest,
    );
    assert!(svc.unsubscribe(handle));
    assert!(!svc.unsubscribe(handle));
    assert!(svc.poll_subscriber(handle).is_none());
}
