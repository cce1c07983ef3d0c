//! What a render pass cost.

use crate::decimal::decimal;
use crate::decimal::to_decimal;
use std::time::Duration;
use vstd::prelude::*;

verus! {

/// How many nanoseconds a span of time holds in all.
pub uninterp spec fn duration_nanos(d: Duration) -> nat;

/// `Duration::as_nanos` gives the span's total number of nanoseconds.
pub assume_specification[ Duration::as_nanos ](d: &Duration) -> (nanos: u128)
    ensures
        nanos == duration_nanos(*d),
;

/// `Duration::as_secs` gives the number of whole seconds that the span
/// holds: its nanoseconds divided by a thousand million, rounded down.
pub assume_specification[ Duration::as_secs ](d: &Duration) -> (secs: u64)
    ensures
        secs == duration_nanos(*d) / 1_000_000_000,
;

/// `Duration::from_millis` gives the span of that many milliseconds, each a
/// million nanoseconds.
pub assume_specification[ Duration::from_millis ](millis: u64) -> (d: Duration)
    ensures
        duration_nanos(d) == millis * 1_000_000,
;

/// What a render pass cost: how many rays it traced, and how long it took.
#[derive(Debug)]
pub struct Metrics {
    // How many rays were traced in total
    pub rays_traced_total: usize,
    pub time_spent: Duration,
}

/// The summary of a pass that took `nanos_per_ray` nanoseconds for each of
/// its `rays` rays, and `seconds` whole seconds in all.
pub open spec fn description(nanos_per_ray: nat, rays: nat, seconds: nat) -> Seq<char> {
    decimal(nanos_per_ray) + " ns per ray, "@ + decimal(rays) + " rays, "@ + decimal(seconds)
        + " seconds"@
}

impl Metrics {
    /// The metrics of a pass of `rays_traced_total` rays on which no time has
    /// been spent yet.
    pub fn new(rays_traced_total: usize) -> (metrics: Self)
        ensures
            metrics.rays_traced_total == rays_traced_total,
            duration_nanos(metrics.time_spent) == 0,
    {
        Metrics { rays_traced_total, time_spent: Duration::from_millis(0) }
    }

    /// A summary for a human reader: the time per ray, rounded down to whole
    /// nanoseconds, the number of rays, and the whole seconds spent.
    pub fn describe(&self) -> (text: String)
        requires
            self.rays_traced_total > 0,
        ensures
            text@ == description(
                duration_nanos(self.time_spent) / (self.rays_traced_total as nat),
                self.rays_traced_total as nat,
                duration_nanos(self.time_spent) / 1_000_000_000,
            ),
    {
        let nanos_per_ray = self.time_spent.as_nanos() / (self.rays_traced_total as u128);
        let mut text = to_decimal(nanos_per_ray);
        text.append(" ns per ray, ");
        text.append(to_decimal(self.rays_traced_total as u128).as_str());
        text.append(" rays, ");
        text.append(to_decimal(self.time_spent.as_secs() as u128).as_str());
        text.append(" seconds");
        text
    }
}

} // verus!
