//! The decisions of a per-queue fence worker.
//!
//! A worker takes requests in order. A submission is answered once the GPU has
//! signalled it, with its statistics on the host clock; a notification is
//! passed through so that the consumer sees it in order with the completions
//! around it. A submission whose GPU wait or readback failed is dropped.
use vstd::prelude::*;

use crate::task::TaskStats;
use crate::time::{gpu_to_host, timestamp_from_gpu, GpuCalibration};
use crate::Timestamp;

verus! {

/// A request to a fence worker.
pub enum FenceWorkerMessage<S, C> {
    Submission(S),
    Notification(C),
}

/// A reply of a fence worker.
pub enum FenceWorkerResult<C> {
    Submission(TaskStats),
    Notification(C),
}

/// What was read back for one submission once the GPU signalled it: when it
/// was queued on the host, the GPU counter at its start and end, and the
/// clock calibration in force.
#[derive(Clone, Copy, Debug, PartialEq, Eq, Structural)]
pub struct GpuReadback {
    pub queued: Timestamp,
    pub begin_ticks: u64,
    pub end_ticks: u64,
    pub calibration: GpuCalibration,
}

/// Whether GPU counter value `ticks` has a host time under `cal`.
pub open spec fn converts(ticks: u64, cal: GpuCalibration) -> bool {
    0 <= gpu_to_host(ticks, cal) <= u64::MAX
}

/// The statistics of a read-back submission on the host clock; `None` where a
/// counter value has no host time.
pub fn complete_submission(readback: &GpuReadback) -> (r: Option<TaskStats>)
    requires
        readback.calibration.wf(),
    ensures
        converts(readback.begin_ticks, readback.calibration) && converts(
            readback.end_ticks,
            readback.calibration,
        ) ==> r == Some(
            TaskStats {
                queued: readback.queued,
                start: gpu_to_host(readback.begin_ticks, readback.calibration) as u64,
                end: gpu_to_host(readback.end_ticks, readback.calibration) as u64,
            },
        ),
        !(converts(readback.begin_ticks, readback.calibration) && converts(
            readback.end_ticks,
            readback.calibration,
        )) ==> r is None,
{
    let start = match timestamp_from_gpu(readback.begin_ticks, &readback.calibration) {
        Some(t) => t,
        None => return None,
    };
    let end = match timestamp_from_gpu(readback.end_ticks, &readback.calibration) {
        Some(t) => t,
        None => return None,
    };
    Some(TaskStats { queued: readback.queued, start, end })
}

/// The reply to one request, given for a submission what completing it gave:
/// its statistics, or `None` where the GPU wait or readback failed, in which
/// case nothing is sent.
pub fn reply<C>(request: FenceWorkerMessage<Option<TaskStats>, C>) -> (r: Option<FenceWorkerResult<C>>)
    ensures
        match request {
            FenceWorkerMessage::Submission(Some(stats)) => r == Some(
                FenceWorkerResult::<C>::Submission(stats),
            ),
            FenceWorkerMessage::Submission(None) => r is None,
            FenceWorkerMessage::Notification(c) => r == Some(FenceWorkerResult::<C>::Notification(c)),
        },
{
    match request {
        FenceWorkerMessage::Submission(Some(stats)) => Some(FenceWorkerResult::Submission(stats)),
        FenceWorkerMessage::Submission(None) => None,
        FenceWorkerMessage::Notification(c) => Some(FenceWorkerResult::Notification(c)),
    }
}

} // verus!
