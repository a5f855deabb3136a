//! Kova Validator
//!
//! Data validation library for streaming robotic sensor telemetry.
//!
//! Each submitted sample is scored for quality, checked for statistical
//! anomalies against a per-sensor rolling baseline, and checked for temporal
//! consistency; the three checks are aggregated into a verdict and a
//! composite quality score. All scores are fixed-point fractions of
//! [`score::SCORE_ONE`], and all payload values are fixed-point integers in
//! the caller's unit convention, so the whole pipeline is exact integer
//! arithmetic.

pub mod anomaly;
pub mod config;
pub mod metrics;
pub mod quality;
pub mod score;
pub mod service;
pub mod sensors;
pub mod subscribe;
pub mod temporal;
pub mod validation;

pub use anomaly::RollingStats;
pub use config::{ConfigError, ProfileParams, SensorProfile, ValidationConfig};
pub use metrics::ServiceMetrics;
pub use score::clamp_score;
pub use sensors::{SensorData, SensorType};
pub use service::{
    InputError, PipelinePhase, PipelineState, ValidationError, ValidatorService,
};
pub use subscribe::{OverflowPolicy, Subscriber, SubscriptionFilter};
pub use validation::{
    QualityMetrics, RuleKind, Severity, ValidationResult, Verdict, Violation,
};
