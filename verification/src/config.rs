//! Validation configuration.
//!
//! A [`ValidationConfig`] is a resolved, immutable snapshot of per-sensor-type
//! threshold profiles. Every numeric field is fixed-point in the same unit
//! conventions as the samples; profiles are checked for consistency when the
//! configuration is built, so a constructed configuration is always
//! well-formed.

use vstd::prelude::*;
use crate::score::SCORE_ONE;
use crate::sensors::{SensorType, VALUE_MAX};

verus! {

/// Fixed-point unit for the anomaly sensitivity `k`: a profile's
/// `anomaly_k` of `3000` means `k = 3.0`.
pub const K_UNIT: u32 = 1000;

/// Largest accepted anomaly sensitivity, in [`K_UNIT`] units.
pub const K_MAX: u32 = 1000000;

/// Largest accepted rolling-window size.
pub const WINDOW_MAX: u64 = 1000000;

/// Why a configuration profile was rejected.
#[derive(Debug, Clone, Copy, PartialEq, Eq, Structural)]
pub enum ConfigError {
    /// No profile exists for the sample's sensor type.
    UnknownSensorType,
    /// Soft or hard value bounds are out of order or unrepresentable.
    InvalidBounds,
    /// The maximum rate of change is negative or unrepresentable.
    InvalidRate,
    /// The anomaly sensitivity or its numeric floor is out of range.
    InvalidSensitivity,
    /// The rolling-window size is zero or too large.
    InvalidWindow,
    /// The verdict thresholds are out of order or above 1.0.
    InvalidThresholds,
    /// All four check weights are zero.
    InvalidWeights,
}

/// Numeric thresholds of one sensor-type profile. All scores are fractions
/// of [`SCORE_ONE`]; all value fields are in payload value units.
#[derive(Debug, Clone, Copy, PartialEq, Eq, Structural)]
pub struct ProfileParams {
    /// Soft lower bound on payload values.
    pub min_value: i64,
    /// Soft upper bound on payload values.
    pub max_value: i64,
    /// Absolute safety lower bound; values below it are hard violations.
    pub hard_min: i64,
    /// Absolute safety upper bound; values above it are hard violations.
    pub hard_max: i64,
    /// Largest allowed |value change| per time unit.
    pub max_rate: i64,
    /// Anomaly sensitivity `k`, in [`K_UNIT`] units.
    pub anomaly_k: u32,
    /// Floor applied to the rolling standard deviation before the anomaly
    /// threshold is formed, preventing instability when variance collapses.
    pub epsilon: i64,
    /// Rolling-window size `W`: samples folded in before the Stable phase.
    pub window: u64,
    /// Largest allowed timestamp gap between consecutive samples.
    pub max_gap: u64,
    /// Largest allowed |arrival_time - timestamp|.
    pub clock_skew_tolerance: u64,
    /// Inactivity span after which a sensor's pipeline state is evicted.
    pub idle_timeout: u64,
    /// Composite score at or above which the verdict is `Valid`.
    pub valid_threshold: u32,
    /// Composite score at or above which the verdict is at least `Suspect`.
    pub suspect_threshold: u32,
    /// Weight of the accuracy sub-score in the composite.
    pub weight_accuracy: u32,
    /// Weight of the completeness sub-score in the composite.
    pub weight_completeness: u32,
    /// Weight of the timeliness sub-score in the composite.
    pub weight_timeliness: u32,
    /// Weight of the consistency sub-score in the composite.
    pub weight_consistency: u32,
}

impl ProfileParams {
    /// Sum of the four check weights.
    pub open spec fn spec_weight_sum(self) -> int {
        self.weight_accuracy + self.weight_completeness + self.weight_timeliness
            + self.weight_consistency
    }
}

/// Consistency conditions on one profile's thresholds.
pub open spec fn params_wf(p: ProfileParams) -> bool {
    &&& -VALUE_MAX <= p.hard_min <= p.min_value <= p.max_value <= p.hard_max <= VALUE_MAX
    &&& 0 <= p.max_rate <= VALUE_MAX
    &&& 1 <= p.anomaly_k <= K_MAX
    &&& 1 <= p.epsilon <= VALUE_MAX
    &&& 1 <= p.window <= WINDOW_MAX
    &&& p.suspect_threshold <= p.valid_threshold <= SCORE_ONE
    &&& p.spec_weight_sum() >= 1
}

/// The first consistency error of a profile, in checking order, if any.
pub open spec fn spec_params_error(p: ProfileParams) -> Option<ConfigError> {
    if !(-VALUE_MAX <= p.hard_min <= p.min_value <= p.max_value <= p.hard_max <= VALUE_MAX) {
        Some(ConfigError::InvalidBounds)
    } else if !(0 <= p.max_rate <= VALUE_MAX) {
        Some(ConfigError::InvalidRate)
    } else if !(1 <= p.anomaly_k <= K_MAX && 1 <= p.epsilon <= VALUE_MAX) {
        Some(ConfigError::InvalidSensitivity)
    } else if !(1 <= p.window <= WINDOW_MAX) {
        Some(ConfigError::InvalidWindow)
    } else if !(p.suspect_threshold <= p.valid_threshold <= SCORE_ONE) {
        Some(ConfigError::InvalidThresholds)
    } else if p.spec_weight_sum() < 1 {
        Some(ConfigError::InvalidWeights)
    } else {
        None
    }
}

/// Checks one profile for consistency.
pub fn check_params(p: &ProfileParams) -> (r: Result<(), ConfigError>)
    ensures
        r matches Ok(_) <==> params_wf(*p),
        r matches Err(e) ==> Some(e) == spec_params_error(*p),
{
    if !(-VALUE_MAX <= p.hard_min && p.hard_min <= p.min_value && p.min_value <= p.max_value
        && p.max_value <= p.hard_max && p.hard_max <= VALUE_MAX) {
        Err(ConfigError::InvalidBounds)
    } else if !(0 <= p.max_rate && p.max_rate <= VALUE_MAX) {
        Err(ConfigError::InvalidRate)
    } else if !(1 <= p.anomaly_k && p.anomaly_k <= K_MAX && 1 <= p.epsilon && p.epsilon
        <= VALUE_MAX) {
        Err(ConfigError::InvalidSensitivity)
    } else if !(1 <= p.window && p.window <= WINDOW_MAX) {
        Err(ConfigError::InvalidWindow)
    } else if !(p.suspect_threshold <= p.valid_threshold && p.valid_threshold <= SCORE_ONE) {
        Err(ConfigError::InvalidThresholds)
    } else if (p.weight_accuracy as u64) + (p.weight_completeness as u64) + (p.weight_timeliness
        as u64) + (p.weight_consistency as u64) < 1 {
        Err(ConfigError::InvalidWeights)
    } else {
        Ok(())
    }
}

/// One sensor-type profile: the type it applies to and its thresholds.
#[derive(Debug, Clone)]
pub struct SensorProfile {
    /// Sensor type this profile applies to.
    pub sensor_type: SensorType,
    /// The profile's thresholds.
    pub params: ProfileParams,
}

/// The thresholds of the first profile in `profiles` (from index `i`)
/// whose sensor type equals `t`, if any.
pub open spec fn spec_find_profile_from(
    profiles: Seq<SensorProfile>,
    t: SensorType,
    i: int,
) -> Option<ProfileParams>
    decreases profiles.len() - i,
{
    if i < 0 || i >= profiles.len() {
        None
    } else if profiles[i].sensor_type.type_eq(t) {
        Some(profiles[i].params)
    } else {
        spec_find_profile_from(profiles, t, i + 1)
    }
}

/// The thresholds that apply to sensor type `t`: the first matching profile.
pub open spec fn spec_find_profile(
    profiles: Seq<SensorProfile>,
    t: SensorType,
) -> Option<ProfileParams> {
    spec_find_profile_from(profiles, t, 0)
}

/// A profile found in a well-formed profile list is itself well-formed.
pub proof fn lemma_find_profile_wf(profiles: Seq<SensorProfile>, t: SensorType, i: int)
    requires
        profiles_wf(profiles),
    ensures
        spec_find_profile_from(profiles, t, i) matches Some(pp) ==> params_wf(pp),
    decreases profiles.len() - i,
{
    if 0 <= i < profiles.len() {
        lemma_find_profile_wf(profiles, t, i + 1);
    }
}

/// A resolved configuration snapshot: one profile per sensor type of
/// interest. Built only through [`ValidationConfig::new`] or
/// [`ValidationConfig::default`], so every held profile is well-formed.
#[derive(Debug, Clone)]
pub struct ValidationConfig {
    /// The threshold profiles, searched in order; first match wins.
    pub profiles: Vec<SensorProfile>,
}

/// The consistency error of the first ill-formed profile in the list (at
/// index `i` or later), if any.
pub open spec fn spec_profiles_error_from(profiles: Seq<SensorProfile>, i: int) -> Option<
    ConfigError,
>
    decreases profiles.len() - i,
{
    if i < 0 || i >= profiles.len() {
        None
    } else if spec_params_error(profiles[i].params) is Some {
        spec_params_error(profiles[i].params)
    } else {
        spec_profiles_error_from(profiles, i + 1)
    }
}

/// The consistency error of the first ill-formed profile, if any.
pub open spec fn spec_profiles_error(profiles: Seq<SensorProfile>) -> Option<ConfigError> {
    spec_profiles_error_from(profiles, 0)
}

/// Every profile of the sequence is well-formed.
pub open spec fn profiles_wf(profiles: Seq<SensorProfile>) -> bool {
    forall|i: int| 0 <= i < profiles.len() ==> params_wf(#[trigger] profiles[i].params)
}

impl ValidationConfig {
    /// A configuration is well-formed when all its profiles are.
    pub open spec fn wf(&self) -> bool {
        profiles_wf(self.profiles@)
    }

    /// Builds a configuration from profiles, rejecting any inconsistent one.
    pub fn new(profiles: Vec<SensorProfile>) -> (r: Result<ValidationConfig, ConfigError>)
        ensures
            r matches Ok(c) ==> c.wf() && c.profiles@ == profiles@,
            r matches Ok(_) <==> profiles_wf(profiles@),
            r matches Err(e) ==> Some(e) == spec_profiles_error(profiles@),
    {
        let mut i: usize = 0;
        while i < profiles.len()
            invariant
                0 <= i <= profiles.len(),
                forall|j: int| 0 <= j < i ==> params_wf(#[trigger] profiles@[j].params),
                spec_profiles_error_from(profiles@, i as int) == spec_profiles_error(profiles@),
            decreases profiles.len() - i,
        {
            if let Err(e) = check_params(&profiles[i].params) {
                return Err(e);
            }
            i = i + 1;
        }
        Ok(ValidationConfig { profiles })
    }

    /// The thresholds that apply to `t` under this configuration, if any.
    pub fn find_profile(&self, t: &SensorType) -> (r: Option<ProfileParams>)
        ensures
            r == spec_find_profile(self.profiles@, *t),
    {
        let mut i: usize = 0;
        while i < self.profiles.len()
            invariant
                0 <= i <= self.profiles.len(),
                spec_find_profile_from(self.profiles@, *t, i as int) == spec_find_profile(
                    self.profiles@,
                    *t,
                ),
            decreases self.profiles.len() - i,
        {
            if self.profiles[i].sensor_type == *t {
                return Some(self.profiles[i].params);
            }
            i = i + 1;
        }
        None
    }
}

/// The default thresholds shared by the built-in sensor-type profiles:
/// soft bounds of one million value units with hundredfold safety bounds,
/// a rate limit of one million units per time unit, `k = 3.0` over a
/// ten-sample window with a floor of a thousand units, a gap limit of
/// 10000 and a skew tolerance of 5000 time units, eviction after 300000
/// idle time units, verdict thresholds of 0.9 and 0.6, and equal weights.
pub open spec fn spec_default_params() -> ProfileParams {
    ProfileParams {
        min_value: -1000000i64,
        max_value: 1000000i64,
        hard_min: -100000000i64,
        hard_max: 100000000i64,
        max_rate: 1000000i64,
        anomaly_k: 3000u32,
        epsilon: 1000i64,
        window: 10u64,
        max_gap: 10000u64,
        clock_skew_tolerance: 5000u64,
        idle_timeout: 300000u64,
        valid_threshold: 900000u32,
        suspect_threshold: 600000u32,
        weight_accuracy: 1u32,
        weight_completeness: 1u32,
        weight_timeliness: 1u32,
        weight_consistency: 1u32,
    }
}

/// Default thresholds shared by the built-in sensor-type profiles.
pub fn default_params() -> (p: ProfileParams)
    ensures
        p == spec_default_params(),
        params_wf(p),
{
    ProfileParams {
        min_value: -1000000,
        max_value: 1000000,
        hard_min: -100000000,
        hard_max: 100000000,
        max_rate: 1000000,
        anomaly_k: 3000,
        epsilon: 1000,
        window: 10,
        max_gap: 10000,
        clock_skew_tolerance: 5000,
        idle_timeout: 300000,
        valid_threshold: 900000,
        suspect_threshold: 600000,
        weight_accuracy: 1,
        weight_completeness: 1,
        weight_timeliness: 1,
        weight_consistency: 1,
    }
}

impl Default for ValidationConfig {
    /// A configuration holding one default profile for each built-in
    /// sensor type, in a fixed order, all with the default thresholds.
    fn default() -> (c: ValidationConfig)
        ensures
            c.wf(),
            c.profiles@.len() == 5,
            c.profiles@[0].sensor_type == SensorType::Lidar,
            c.profiles@[1].sensor_type == SensorType::Imu,
            c.profiles@[2].sensor_type == SensorType::Gps,
            c.profiles@[3].sensor_type == SensorType::Camera,
            c.profiles@[4].sensor_type == SensorType::Battery,
            forall|i: int|
                0 <= i < 5 ==> (#[trigger] c.profiles@[i]).params == spec_default_params(),
    {
        let p = default_params();
        let mut profiles: Vec<SensorProfile> = Vec::new();
        profiles.push(SensorProfile { sensor_type: SensorType::Lidar, params: p });
        profiles.push(SensorProfile { sensor_type: SensorType::Imu, params: p });
        profiles.push(SensorProfile { sensor_type: SensorType::Gps, params: p });
        profiles.push(SensorProfile { sensor_type: SensorType::Camera, params: p });
        profiles.push(SensorProfile { sensor_type: SensorType::Battery, params: p });
        ValidationConfig { profiles }
    }
}

} // verus!
