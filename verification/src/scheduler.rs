//! The poll scheduler's decision step.
//!
//! The loop itself — sleeping, issuing the HTTP request — runs outside the
//! library; what it decides on each tick stands here.  Every tick applies
//! the poll outcome to the registry and schedules the next tick at the same
//! fixed interval, whatever the outcome was.

use vstd::prelude::*;
use crate::metrics::{Registry, registry_holds, registry_wf, set_stats};
use crate::reading::{Reading, reading_wf};

verus! {

/// One tick: apply the poll outcome, return the delay before the next tick.
/// A failed poll is only logged by the caller; the previously published
/// values stay visible, and the cadence never changes.
pub fn on_tick(registry: &mut Registry, interval_secs: u64, outcome: Option<Reading>) -> (next_delay: u64)
    requires
        outcome matches Some(r) ==> reading_wf(r),
    ensures
        next_delay == interval_secs,
        outcome matches Some(r) ==> registry_holds(*final(registry), r) && registry_wf(
            *final(registry),
        ),
        outcome is None ==> *final(registry) == *old(registry),
{
    set_stats(registry, outcome);
    interval_secs
}

} // verus!
