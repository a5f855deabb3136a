//! Sensor sample model.
//!
//! A [`SensorData`] value is one telemetry reading: identity, typed tag,
//! origin and arrival timestamps, a per-sensor sequence number, and a payload
//! of fixed-point readings. A payload field that the producer could not
//! supply (missing, or not finite in the producer's encoding) is `None`.

use vstd::prelude::*;

verus! {

/// Largest payload magnitude the pipeline represents, in fixed-point value
/// units. Values beyond it cannot be scored exactly and are rejected as
/// malformed input.
pub const VALUE_MAX: i64 = 1000000000;

/// The kind of sensor that produced a sample; selects the threshold profile.
#[derive(Debug, Clone)]
pub enum SensorType {
    Lidar,
    Imu,
    Gps,
    Camera,
    Battery,
    Custom(String),
}

impl SensorType {
    /// Equality of sensor types: same variant, and for `Custom` the same name.
    pub open spec fn type_eq(self, other: SensorType) -> bool {
        match (self, other) {
            (SensorType::Lidar, SensorType::Lidar) => true,
            (SensorType::Imu, SensorType::Imu) => true,
            (SensorType::Gps, SensorType::Gps) => true,
            (SensorType::Camera, SensorType::Camera) => true,
            (SensorType::Battery, SensorType::Battery) => true,
            (SensorType::Custom(a), SensorType::Custom(b)) => a@ == b@,
            _ => false,
        }
    }
}

impl PartialEq for SensorType {
    fn eq(&self, other: &SensorType) -> bool {
        match (self, other) {
            (SensorType::Lidar, SensorType::Lidar) => true,
            (SensorType::Imu, SensorType::Imu) => true,
            (SensorType::Gps, SensorType::Gps) => true,
            (SensorType::Camera, SensorType::Camera) => true,
            (SensorType::Battery, SensorType::Battery) => true,
            (SensorType::Custom(a), SensorType::Custom(b)) => *a == *b,
            _ => false,
        }
    }
}

impl vstd::std_specs::cmp::PartialEqSpecImpl for SensorType {
    open spec fn obeys_eq_spec() -> bool {
        true
    }

    open spec fn eq_spec(&self, other: &SensorType) -> bool {
        self.type_eq(*other)
    }
}

/// One telemetry reading as received from the ingestion path.
#[derive(Debug, Clone)]
pub struct SensorData {
    /// Identity of the producing sensor stream.
    pub sensor_id: String,
    /// Kind of sensor; selects the configuration profile.
    pub sensor_type: SensorType,
    /// Sample-origin time, in the deployment's time unit.
    pub timestamp: u64,
    /// Receipt time at the ingestion boundary, same unit as `timestamp`.
    pub arrival_time: u64,
    /// Per-sensor monotonic counter assigned by the source.
    pub sequence_number: u64,
    /// Fixed-point readings; `None` marks a missing or non-finite field.
    pub payload: Vec<Option<i64>>,
}

/// Number of present (non-missing) fields in `p` at index `i` or later.
pub open spec fn count_present_from(p: Seq<Option<i64>>, i: int) -> int
    decreases p.len() - i,
{
    if i < 0 || i >= p.len() {
        0
    } else {
        (if p[i] is Some {
            1int
        } else {
            0int
        }) + count_present_from(p, i + 1)
    }
}

/// Number of present (non-missing) fields in a payload.
pub open spec fn count_present(p: Seq<Option<i64>>) -> int {
    count_present_from(p, 0)
}

/// The first present field of `p` at index `i` or later, if any.
pub open spec fn first_present_from(p: Seq<Option<i64>>, i: int) -> Option<i64>
    decreases p.len() - i,
{
    if i < 0 || i >= p.len() {
        None
    } else if p[i] is Some {
        p[i]
    } else {
        first_present_from(p, i + 1)
    }
}

/// The first present field of a payload: the reading used for rate-of-change
/// and anomaly tracking.
pub open spec fn first_present(p: Seq<Option<i64>>) -> Option<i64> {
    first_present_from(p, 0)
}

/// True when every present field has magnitude at most [`VALUE_MAX`].
pub open spec fn payload_representable(p: Seq<Option<i64>>) -> bool {
    forall|i: int|
        0 <= i < p.len() ==> (#[trigger] p[i] matches Some(v) ==> -VALUE_MAX <= v <= VALUE_MAX)
}

impl SensorData {
    /// The reading this sample contributes to the sensor's rolling
    /// statistics: its first present payload field.
    pub open spec fn spec_value(&self) -> Option<i64> {
        first_present(self.payload@)
    }

    /// Returns the first present payload field, if any.
    pub fn value(&self) -> (r: Option<i64>)
        ensures
            r == self.spec_value(),
    {
        let mut i: usize = 0;
        while i < self.payload.len()
            invariant
                0 <= i <= self.payload.len(),
                first_present_from(self.payload@, i as int) == first_present(self.payload@),
                forall|j: int| 0 <= j < i ==> self.payload@[j] is None,
            decreases self.payload.len() - i,
        {
            if let Some(v) = self.payload[i] {
                return Some(v);
            }
            i = i + 1;
        }
        None
    }

    /// Counts the present payload fields.
    pub fn present_fields(&self) -> (r: usize)
        ensures
            r == count_present(self.payload@),
    {
        let ghost p = self.payload@;
        let mut n: usize = 0;
        let mut i: usize = 0;
        proof {
            lemma_count_present_bounds(p, 0);
        }
        while i < self.payload.len()
            invariant
                0 <= i <= p.len(),
                p == self.payload@,
                n + count_present_from(p, i as int) == count_present(p),
                count_present(p) <= p.len(),
                n <= i,
            decreases self.payload.len() - i,
        {
            proof {
                lemma_count_present_bounds(p, i + 1);
            }
            if self.payload[i].is_some() {
                n = n + 1;
            }
            i = i + 1;
        }
        n
    }
}

/// A payload has a first present field exactly when it has any present
/// field.
pub proof fn lemma_first_present_count(p: Seq<Option<i64>>, i: int)
    ensures
        (first_present_from(p, i) is None) <==> count_present_from(p, i) == 0,
    decreases p.len() - i,
{
    lemma_count_present_bounds(p, i + 1);
    if 0 <= i < p.len() {
        lemma_first_present_count(p, i + 1);
    }
}

/// The first present field of a representable payload is itself in range.
pub proof fn lemma_first_present_bounds(p: Seq<Option<i64>>, i: int)
    requires
        payload_representable(p),
    ensures
        first_present_from(p, i) matches Some(v) ==> -VALUE_MAX <= v <= VALUE_MAX,
    decreases p.len() - i,
{
    if 0 <= i < p.len() {
        lemma_first_present_bounds(p, i + 1);
    }
}

/// The count of present fields from `i` is between 0 and the number of
/// remaining fields.
pub proof fn lemma_count_present_bounds(p: Seq<Option<i64>>, i: int)
    ensures
        0 <= count_present_from(p, i),
        0 <= i <= p.len() ==> count_present_from(p, i) <= p.len() - i,
        count_present_from(p, i) <= p.len(),
    decreases p.len() - i,
{
    if 0 <= i < p.len() {
        lemma_count_present_bounds(p, i + 1);
    }
}

} // verus!
