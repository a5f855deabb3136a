//! Service-level metrics counters.
//!
//! Counters of processed samples, detected anomalies and violations by
//! kind. Counters saturate instead of wrapping, so a long-running service
//! cannot overflow them.

use vstd::prelude::*;

verus! {

/// Saturating increment of a counter.
pub open spec fn spec_bump(c: u64) -> u64 {
    if c == u64::MAX {
        c
    } else {
        (c + 1) as u64
    }
}

/// Adds `b` to a counter when `cond` holds, saturating.
pub open spec fn spec_bump_if(c: u64, cond: bool) -> u64 {
    if cond {
        spec_bump(c)
    } else {
        c
    }
}

/// Saturating counters over everything the service has processed.
#[derive(Debug, Clone, Copy, PartialEq, Eq, Structural)]
pub struct ServiceMetrics {
    /// Samples that produced a validation result.
    pub samples_processed: u64,
    /// Samples the anomaly detector classified as anomalous.
    pub anomalies_detected: u64,
    /// Out-of-range violations raised.
    pub out_of_range: u64,
    /// Incomplete-data violations raised.
    pub incomplete_data: u64,
    /// Excessive rate-of-change violations raised.
    pub excessive_rate: u64,
    /// Out-of-order violations raised.
    pub out_of_order: u64,
    /// Stale-or-dropped violations raised.
    pub stale_or_dropped: u64,
    /// Duplicate-sample violations raised.
    pub duplicate_sample: u64,
    /// Clock-skew violations raised.
    pub clock_skew: u64,
}

impl ServiceMetrics {
    /// Counters of a service that has processed nothing.
    pub open spec fn spec_zero() -> ServiceMetrics {
        ServiceMetrics {
            samples_processed: 0,
            anomalies_detected: 0,
            out_of_range: 0,
            incomplete_data: 0,
            excessive_rate: 0,
            out_of_order: 0,
            stale_or_dropped: 0,
            duplicate_sample: 0,
            clock_skew: 0,
        }
    }

    /// Fresh counters, all zero.
    pub fn zero() -> (r: ServiceMetrics)
        ensures
            r == ServiceMetrics::spec_zero(),
    {
        ServiceMetrics {
            samples_processed: 0,
            anomalies_detected: 0,
            out_of_range: 0,
            incomplete_data: 0,
            excessive_rate: 0,
            out_of_order: 0,
            stale_or_dropped: 0,
            duplicate_sample: 0,
            clock_skew: 0,
        }
    }
}

/// The counters after recording one processed sample with the given
/// violation and anomaly flags.
pub open spec fn spec_record(
    m: ServiceMetrics,
    anomalous: bool,
    out_of_range: bool,
    incomplete: bool,
    excessive_rate: bool,
    out_of_order: bool,
    stale: bool,
    duplicate: bool,
    clock_skew: bool,
) -> ServiceMetrics {
    ServiceMetrics {
        samples_processed: spec_bump(m.samples_processed),
        anomalies_detected: spec_bump_if(m.anomalies_detected, anomalous),
        out_of_range: spec_bump_if(m.out_of_range, out_of_range),
        incomplete_data: spec_bump_if(m.incomplete_data, incomplete),
        excessive_rate: spec_bump_if(m.excessive_rate, excessive_rate),
        out_of_order: spec_bump_if(m.out_of_order, out_of_order),
        stale_or_dropped: spec_bump_if(m.stale_or_dropped, stale),
        duplicate_sample: spec_bump_if(m.duplicate_sample, duplicate),
        clock_skew: spec_bump_if(m.clock_skew, clock_skew),
    }
}

/// Saturating increment.
pub fn bump(c: u64) -> (r: u64)
    ensures
        r == spec_bump(c),
{
    if c == u64::MAX {
        c
    } else {
        c + 1
    }
}

/// Saturating conditional increment.
pub fn bump_if(c: u64, cond: bool) -> (r: u64)
    ensures
        r == spec_bump_if(c, cond),
{
    if cond {
        bump(c)
    } else {
        c
    }
}

/// Records one processed sample in the counters.
pub fn record(
    m: &ServiceMetrics,
    anomalous: bool,
    out_of_range: bool,
    incomplete: bool,
    excessive_rate: bool,
    out_of_order: bool,
    stale: bool,
    duplicate: bool,
    clock_skew: bool,
) -> (r: ServiceMetrics)
    ensures
        r == spec_record(
            *m,
            anomalous,
            out_of_range,
            incomplete,
            excessive_rate,
            out_of_order,
            stale,
            duplicate,
            clock_skew,
        ),
{
    ServiceMetrics {
        samples_processed: bump(m.samples_processed),
        anomalies_detected: bump_if(m.anomalies_detected, anomalous),
        out_of_range: bump_if(m.out_of_range, out_of_range),
        incomplete_data: bump_if(m.incomplete_data, incomplete),
        excessive_rate: bump_if(m.excessive_rate, excessive_rate),
        out_of_order: bump_if(m.out_of_order, out_of_order),
        stale_or_dropped: bump_if(m.stale_or_dropped, stale),
        duplicate_sample: bump_if(m.duplicate_sample, duplicate),
        clock_skew: bump_if(m.clock_skew, clock_skew),
    }
}

} // verus!
