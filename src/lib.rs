//! Frame pacing and latency estimation for pipelined real-time rendering.
//!
//! The library observes per-stage GPU timing of a frame pipeline, keeps
//! estimates of per-stage durations and of queueing delay, and decides when the
//! producer may begin its next frame.
use vstd::prelude::*;

pub mod ewma;
pub mod fence_worker;
pub mod reflex;
pub mod stage;
pub mod task;
pub mod time;

pub use fence_worker::{FenceWorkerMessage, FenceWorkerResult};
pub use reflex::{ReflexId, ReflexMappingTracker};
pub use stage::{Config, ConfigError, FrameAggregator, FrameId, StageId};
pub use task::{FrameStageStats, TaskAccumulator, TaskStats};

verus! {

/// Nanoseconds since a process-wide monotonic origin.
pub type Timestamp = u64;

/// A length of time in nanoseconds.
pub type Interval = u64;

/// The value of `x` saturated to the range of `u64`.
pub open spec fn sat_u64(x: int) -> int {
    if x < 0 {
        0
    } else if x > u64::MAX {
        u64::MAX as int
    } else {
        x
    }
}

/// `a - b`, or zero where `b` exceeds `a`.
pub open spec fn diff_or_zero(a: int, b: int) -> int {
    if a >= b {
        a - b
    } else {
        0
    }
}

} // verus!
