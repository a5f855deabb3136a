//! Result subscriptions with bounded fan-out queues.
//!
//! A subscriber registers a filter and receives every matching
//! [`ValidationResult`] in production order through its own bounded queue.
//! A slow subscriber never blocks ingestion: on overflow its queue either
//! drops its oldest entry or the subscriber is disconnected, per its policy.

use vstd::prelude::*;
use crate::validation::{result_like, severity_at_least, severity_rank, ValidationResult, Violation};

verus! {

/// What results a subscriber wants.
#[derive(Debug, Clone)]
pub struct SubscriptionFilter {
    /// Only results for this sensor; `None` matches every sensor.
    pub sensor_id: Option<String>,
    /// Only results with a violation at least this severe; `None` matches
    /// every result.
    pub min_severity: Option<crate::validation::Severity>,
}

/// What to do when a subscriber's queue is full.
#[derive(Debug, Clone, Copy, PartialEq, Eq, Structural)]
pub enum OverflowPolicy {
    /// Discard the oldest queued result to make room.
    DropOldest,
    /// Disconnect the subscriber; ingestion is never blocked.
    Disconnect,
}

/// One registered subscriber: its filter, its bounded delivery queue and
/// its overflow policy.
#[derive(Debug)]
pub struct Subscriber {
    /// Handle under which the subscriber was registered.
    pub id: u64,
    /// What results this subscriber wants.
    pub filter: SubscriptionFilter,
    /// Delivery queue, oldest first.
    pub queue: Vec<ValidationResult>,
    /// Largest number of queued results.
    pub capacity: usize,
    /// What happens when the queue is full.
    pub policy: OverflowPolicy,
    /// Set when the subscriber was disconnected by overflow.
    pub disconnected: bool,
}

impl Subscriber {
    /// The queue respects its bound.
    pub open spec fn wf(&self) -> bool {
        &&& 1 <= self.capacity
        &&& self.queue@.len() <= self.capacity
    }
}

/// Some violation in the list is at least `min` severe.
pub open spec fn spec_has_severity(violations: Seq<Violation>, min: crate::validation::Severity)
    -> bool {
    exists|i: int|
        0 <= i < violations.len() && severity_rank((#[trigger] violations[i]).severity)
            >= severity_rank(min)
}

/// Whether a filter accepts a result: the sensor matches (or no sensor was
/// named) and some violation reaches the minimum severity (or none was
/// named).
pub open spec fn spec_filter_accepts(f: SubscriptionFilter, r: ValidationResult) -> bool {
    &&& (f.sensor_id matches Some(id) ==> id@ == r.sensor_id@)
    &&& (f.min_severity matches Some(s) ==> spec_has_severity(r.violations@, s))
}

/// Tests a filter against a result.
pub fn filter_accepts(f: &SubscriptionFilter, r: &ValidationResult) -> (b: bool)
    ensures
        b == spec_filter_accepts(*f, *r),
{
    let id_ok: bool = match &f.sensor_id {
        None => true,
        Some(id) => *id == r.sensor_id,
    };
    if !id_ok {
        return false;
    }
    match f.min_severity {
        None => true,
        Some(s) => {
            let mut i: usize = 0;
            while i < r.violations.len()
                invariant
                    0 <= i <= r.violations@.len(),
                    f.sensor_id matches Some(id) ==> id@ == r.sensor_id@,
                    f.min_severity == Some(s),
                    forall|j: int|
                        0 <= j < i ==> severity_rank(#[trigger] r.violations@[j].severity)
                            < severity_rank(s),
                decreases r.violations@.len() - i,
            {
                if severity_at_least(r.violations[i].severity, s) {
                    proof {
                        let ghost w = i as int;
                        assert(0 <= w < r.violations@.len() && severity_rank(
                            r.violations@[w].severity,
                        ) >= severity_rank(s));
                        assert(spec_has_severity(r.violations@, s));
                    }
                    return true;
                }
                i = i + 1;
            }
            false
        },
    }
}

/// How one subscriber changes when a result is offered to it: unchanged
/// when disconnected or not matching; the result appended when there is
/// room; on overflow, the oldest entry dropped or the subscriber
/// disconnected, per its policy.
pub open spec fn spec_offered(old_s: Subscriber, new_s: Subscriber, r: ValidationResult) -> bool {
    &&& new_s.id == old_s.id
    &&& new_s.filter == old_s.filter
    &&& new_s.capacity == old_s.capacity
    &&& new_s.policy == old_s.policy
    &&& if old_s.disconnected || !spec_filter_accepts(old_s.filter, r) {
        new_s.queue@ == old_s.queue@ && new_s.disconnected == old_s.disconnected
    } else if old_s.queue@.len() < old_s.capacity {
        &&& new_s.queue@.len() == old_s.queue@.len() + 1
        &&& new_s.queue@.drop_last() == old_s.queue@
        &&& result_like(new_s.queue@.last(), r)
        &&& new_s.disconnected == old_s.disconnected
    } else if old_s.policy == OverflowPolicy::DropOldest {
        &&& new_s.queue@.len() == old_s.queue@.len()
        &&& new_s.queue@.drop_last() == old_s.queue@.remove(0)
        &&& result_like(new_s.queue@.last(), r)
        &&& new_s.disconnected == old_s.disconnected
    } else {
        new_s.queue@ == old_s.queue@ && new_s.disconnected
    }
}

/// Offers a result to one subscriber, applying its overflow policy.
pub fn offer_result(s: &mut Subscriber, r: &ValidationResult)
    requires
        old(s).wf(),
    ensures
        final(s).wf(),
        spec_offered(*old(s), *final(s), *r),
{
    if s.disconnected {
        return ;
    }
    if !filter_accepts(&s.filter, r) {
        return ;
    }
    if s.queue.len() < s.capacity {
        let c = crate::validation::duplicate_result(r);
        s.queue.push(c);
        proof {
            assert(s.queue@.drop_last() =~= old(s).queue@);
        }
    } else {
        match s.policy {
            OverflowPolicy::DropOldest => {
                s.queue.remove(0);
                let c = crate::validation::duplicate_result(r);
                s.queue.push(c);
                proof {
                    assert(s.queue@.drop_last() =~= old(s).queue@.remove(0));
                }
            },
            OverflowPolicy::Disconnect => {
                s.disconnected = true;
            },
        }
    }
}

} // verus!
