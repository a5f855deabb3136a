//! Unit tests of the pipeline components and their exact formulas.

use kova_validator::anomaly::{evaluate, fold, isqrt, RollingStats};
use kova_validator::clamp_score;
use kova_validator::config::{check_params, default_params};
use kova_validator::quality::{assess_payload, elem_accuracy, rate_check};
use kova_validator::temporal::check_temporal;
use kova_validator::{
    ConfigError, OverflowPolicy, SensorProfile, SensorType, SubscriptionFilter,
    ValidationConfig, ValidatorService, Verdict,
};

#[test]
fn clamp_score_saturates_at_one() {
    assert_eq!(clamp_score(0), 0);
    assert_eq!(clamp_score(999_999), 999_999);
    assert_eq!(clamp_score(1_000_000), 1_000_000);
    assert_eq!(clamp_score(u64::MAX), 1_000_000);
}

#[test]
fn isqrt_exact_values() {
    assert_eq!(isqrt(0), 0);
    assert_eq!(isqrt(1), 1);
    assert_eq!(isqrt(15), 3);
    assert_eq!(isqrt(16), 4);
    assert_eq!(isqrt(1_000_000), 1000);
    assert_eq!(isqrt(4_000_000_000_000_000_000), 2_000_000_000);
}

#[test]
fn elem_accuracy_penalty_is_proportional() {
    let p = default_params();
    assert_eq!(elem_accuracy(0, &p), 1_000_000);
    assert_eq!(elem_accuracy(1_000_000, &p), 1_000_000);
    // Overshoot of half the range costs half the scale.
    assert_eq!(elem_accuracy(2_000_000, &p), 500_000);
    // Overshoot of the full range or more costs everything.
    assert_eq!(elem_accuracy(3_000_000, &p), 0);
    assert_eq!(elem_accuracy(-3_000_000, &p), 0);
}

#[test]
fn assess_payload_averages_element_scores() {
    let p = default_params();
    let payload = vec![Some(0i64), Some(2_000_000)];
    let a = assess_payload(&payload, &p);
    assert_eq!(a.accuracy, 750_000);
    assert_eq!(a.completeness, 1_000_000);
    assert!(a.out_of_range);
    assert!(!a.hard_out_of_range);
    assert!(!a.incomplete);
}

#[test]
fn rate_check_is_neutral_without_history() {
    let p = default_params();
    let (tim, exceeded) = rate_check(500, 1000, None, &p);
    assert_eq!(tim, 1_000_000);
    assert!(!exceeded);
}

#[test]
fn rate_check_scales_with_time_step() {
    let p = default_params();
    // A change of 900000 over one unit is within the limit of 1000000.
    let (tim, exceeded) = rate_check(900_000, 1001, Some((0, 1000)), &p);
    assert_eq!(tim, 1_000_000);
    assert!(!exceeded);
    // The same change with no time elapsed is judged by the ordering
    // checks, not here.
    let (tim0, exceeded0) = rate_check(900_000, 1000, Some((0, 1000)), &p);
    assert_eq!(tim0, 1_000_000);
    assert!(!exceeded0);
}

#[test]
fn temporal_contribution_drops_a_quarter_per_violation() {
    let p = default_params();
    // Out of order and duplicate at once: two violations.
    let t = check_temporal(900, 5, 900, Some((1000, 5)), &p);
    assert!(t.out_of_order);
    assert!(t.duplicate);
    assert!(!t.advance);
    assert_eq!(t.contribution, 500_000);
}

#[test]
fn fold_tracks_running_mean_and_variance() {
    let p = default_params();
    let s0 = RollingStats { count: 0, mean: 0, variance: 0 };
    let s1 = fold(&s0, 10, &p);
    assert_eq!(s1.count, 1);
    assert_eq!(s1.mean, 10);
    assert_eq!(s1.variance, 0);
    let s2 = fold(&s1, 20, &p);
    assert_eq!(s2.count, 2);
    // d = 10, n = 2: the mean moves halfway, and the variance becomes
    // (n-1) * (d*d/n) / n = 25.
    assert_eq!(s2.mean, 15);
    assert_eq!(s2.variance, 25);
}

#[test]
fn warming_phase_never_classifies_anomalies() {
    let p = default_params();
    let s = RollingStats { count: 3, mean: 0, variance: 0 };
    let out = evaluate(&s, 1_000_000, &p);
    assert!(!out.is_anomalous);
    assert_eq!(out.contribution, 1_000_000);
}

#[test]
fn stable_phase_flags_large_deviation() {
    let p = default_params();
    let s = RollingStats { count: 10, mean: 0, variance: 0 };
    // Deviation 100000 against floor epsilon = 1000 with k = 3:
    // contribution is 1000000 * 3000000 / 100000000 = 30000.
    let out = evaluate(&s, 100_000, &p);
    assert!(out.is_anomalous);
    assert_eq!(out.contribution, 30_000);
}

#[test]
fn config_rejects_each_inconsistency() {
    let mut p = default_params();
    p.min_value = 10;
    p.max_value = -10;
    assert_eq!(check_params(&p).unwrap_err(), ConfigError::InvalidBounds);

    let mut p = default_params();
    p.max_rate = -1;
    assert_eq!(check_params(&p).unwrap_err(), ConfigError::InvalidRate);

    let mut p = default_params();
    p.epsilon = 0;
    assert_eq!(check_params(&p).unwrap_err(), ConfigError::InvalidSensitivity);

    let mut p = default_params();
    p.window = 0;
    assert_eq!(check_params(&p).unwrap_err(), ConfigError::InvalidWindow);

    let mut p = default_params();
    p.suspect_threshold = 900_000;
    p.valid_threshold = 600_000;
    assert_eq!(check_params(&p).unwrap_err(), ConfigError::InvalidThresholds);

    let mut p = default_params();
    p.weight_accuracy = 0;
    p.weight_completeness = 0;
    p.weight_timeliness = 0;
    p.weight_consistency = 0;
    assert_eq!(check_params(&p).unwrap_err(), ConfigError::InvalidWeights);

    assert!(check_params(&default_params()).is_ok());
}

#[test]
fn custom_sensor_types_resolve_by_name() {
    let profiles = vec![
        SensorProfile {
            sensor_type: SensorType::Custom("thermal".to_string()),
            params: default_params(),
        },
    ];
    let config = ValidationConfig::new(profiles).unwrap();
    assert!(config
        .find_profile(&SensorType::Custom("thermal".to_string()))
        .is_some());
    assert!(config
        .find_profile(&SensorType::Custom("acoustic".to_string()))
        .is_none());
    assert!(config.find_profile(&SensorType::Lidar).is_none());
}

#[test]
fn aggregate_metrics_average_over_sensors() {
    let mut svc = ValidatorService::new(ValidationConfig::default());
    assert!(svc.get_aggregate_metrics().is_none());
    let mk = |id: &str, value: i64| kova_validator::SensorData {
        sensor_id: id.to_string(),
        sensor_type: SensorType::Lidar,
        timestamp: 1000,
        arrival_time: 1000,
        sequence_number: 1,
        payload: vec![Some(value)],
    };
    let r1 = svc.submit_sample(&mk("a", 0), 1000).unwrap();
    let r2 = svc.submit_sample(&mk("b", 1_500_000), 1000).unwrap();
    assert_eq!(r1.verdict, Verdict::Valid);
    assert_eq!(r2.metrics.accuracy_score, 750_000);
    let agg = svc.get_aggregate_metrics().unwrap();
    assert_eq!(agg.accuracy_score, 875_000);
    assert_eq!(agg.completeness, 1_000_000);
    assert_eq!(
        agg.composite_score,
        (r1.metrics.composite_score as u64 + r2.metrics.composite_score as u64) as u32 / 2
    );
}

#[test]
fn subscriber_handles_are_distinct() {
    let mut svc = ValidatorService::new(ValidationConfig::default());
    let f = || SubscriptionFilter { sensor_id: None, min_severity: None };
    let h1 = svc.subscribe(f(), 4, OverflowPolicy::DropOldest);
    let h2 = svc.subscribe(f(), 4, OverflowPolicy::Disconnect);
    assert_ne!(h1, h2);
}
