//! An in-process adaptive resource governor.
//!
//! The crate tracks the host process's memory footprint in a bounded
//! history, keeps a capacity-bounded cache of offloaded payloads with a
//! running byte counter, computes an urgency score that selects one of
//! three optimization tiers, models the lifecycle of the background
//! monitor, and dispatches units of work to a bounded worker pool with
//! full lifecycle tracking.
//!
//! All quantities are integers: memory sizes in bytes or megabytes,
//! durations and timestamps in milliseconds, and scores and percentage
//! gains in hundredths of a point (`6.25%` is `625`).

pub mod gpu;
pub mod history;
pub mod optimization;
pub mod worker;

use vstd::prelude::*;

verus! {

/// Hard ceiling on the process's memory footprint, in megabytes.
/// Usage at or below this bound needs no optimization.
pub const MAX_APP_MEMORY_MB: u64 = 100;

/// Soft ceiling, in megabytes, above the hard ceiling; crossing it puts
/// the urgency score in its upper half.
pub const GPU_OFFLOAD_THRESHOLD_MB: u64 = 160;

/// Interval between two polls of the background monitor, in milliseconds.
pub const MEMORY_CHECK_INTERVAL_MS: u64 = 1000;

} // verus!
