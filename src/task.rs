//! Per-stage bookkeeping that turns GPU submission records into per-frame
//! `(delay, duration)` statistics.
use vstd::prelude::*;

use crate::{diff_or_zero, sat_u64, Interval, Timestamp};

verus! {

/// One GPU submission: enqueued on the CPU at `queued`, began executing on the
/// GPU at `start` and finished at `end`, all on the host clock.
#[derive(Clone, Copy, Debug, PartialEq, Eq)]
pub struct TaskStats {
    pub queued: Timestamp,
    pub start: Timestamp,
    pub end: Timestamp,
}

impl TaskStats {
    /// A well-formed record: `queued <= start <= end`.
    pub open spec fn wf(self) -> bool {
        self.queued <= self.start <= self.end
    }

    /// Time from CPU enqueue to GPU start (zero for a malformed record).
    pub open spec fn spec_delay(self) -> int {
        diff_or_zero(self.start as int, self.queued as int)
    }

    pub fn delay(&self) -> (r: Interval)
        ensures
            r == self.spec_delay(),
    {
        if self.start >= self.queued {
            self.start - self.queued
        } else {
            0
        }
    }
}

/// One stage of one frame: the smallest queueing delay seen and the GPU busy
/// time attributed to the stage.
#[derive(Clone, Copy, Debug, PartialEq, Eq)]
pub struct FrameStageStats {
    pub delay: Interval,
    pub duration: Interval,
}

/// Accumulates the submissions of one queue during one frame-stage.
///
/// `last_finish` survives `reset`, so that a submission that straddles a frame
/// boundary is not counted twice.
#[derive(Clone, Copy, Debug, PartialEq, Eq)]
pub struct TaskAccumulator {
    pub delay: Option<Interval>,
    pub duration: Interval,
    pub last_finish: Timestamp,
}

/// The smaller of a running minimum and a new value.
pub open spec fn min_with(cur: Option<u64>, v: int) -> int {
    match cur {
        Some(c) => if c < v { c as int } else { v },
        None => v,
    }
}

impl TaskAccumulator {
    /// The busy time that `stats` adds: the part of `[queued, end]` after
    /// everything already counted.
    pub open spec fn added_duration(self, stats: TaskStats) -> int {
        diff_or_zero(
            stats.end as int,
            if stats.queued >= self.last_finish { stats.queued as int } else { self.last_finish as int },
        )
    }

    /// The accumulator after taking in `stats`.
    pub open spec fn accumulated(self, stats: TaskStats) -> TaskAccumulator {
        TaskAccumulator {
            delay: Some(min_with(self.delay, stats.spec_delay()) as u64),
            duration: sat_u64(self.duration + self.added_duration(stats)) as u64,
            last_finish: if stats.end >= self.last_finish { stats.end } else { self.last_finish },
        }
    }

    /// The accumulator after taking in every record of `s`, in order.
    pub open spec fn accumulated_all(self, s: Seq<TaskStats>) -> TaskAccumulator
        decreases s.len(),
    {
        if s.len() == 0 {
            self
        } else {
            self.accumulated(s[0]).accumulated_all(s.drop_first())
        }
    }

    /// The statistics of the current frame-stage.
    pub open spec fn spec_stats(self) -> FrameStageStats {
        FrameStageStats {
            delay: match self.delay {
                Some(d) => d,
                None => 0,
            },
            duration: self.duration,
        }
    }

    pub fn new() -> (r: TaskAccumulator)
        ensures
            r.delay.is_none(),
            r.duration == 0,
            r.last_finish == 0,
    {
        TaskAccumulator { delay: None, duration: 0, last_finish: 0 }
    }

    /// Takes in one submission record.
    pub fn accumulate(&mut self, stats: &TaskStats)
        ensures
            *final(self) == old(self).accumulated(*stats),
    {
        let task_delay = stats.delay();
        self.delay = match self.delay {
            Some(d) => if d < task_delay { Some(d) } else { Some(task_delay) },
            None => Some(task_delay),
        };
        let from = if stats.queued >= self.last_finish { stats.queued } else { self.last_finish };
        let task_duration = if stats.end >= from { stats.end - from } else { 0 };
        self.duration = self.duration.saturating_add(task_duration);
        if stats.end >= self.last_finish {
            self.last_finish = stats.end;
        }
    }

    pub fn stats(&self) -> (r: FrameStageStats)
        ensures
            r == self.spec_stats(),
    {
        FrameStageStats {
            delay: match self.delay {
                Some(d) => d,
                None => 0,
            },
            duration: self.duration,
        }
    }

    /// Starts a new frame-stage: clears delay and duration, keeps `last_finish`.
    pub fn reset(&mut self)
        ensures
            final(self).delay.is_none(),
            final(self).duration == 0,
            final(self).last_finish == old(self).last_finish,
    {
        self.delay = None;
        self.duration = 0;
    }
}

/// The latest `end` among the records of `s` (zero for none).
pub open spec fn latest_end(s: Seq<TaskStats>) -> int
    decreases s.len(),
{
    if s.len() == 0 {
        0
    } else {
        let rest = latest_end(s.drop_first());
        if s[0].end >= rest {
            s[0].end as int
        } else {
            rest
        }
    }
}

/// Each record of `s` is queued no later than the latest end seen before it,
/// starting from `horizon`: the submissions overlap or touch one another.
pub open spec fn overlapping_chain(horizon: int, s: Seq<TaskStats>) -> bool
    decreases s.len(),
{
    s.len() == 0 || (s[0].queued <= horizon && overlapping_chain(
        if s[0].end >= horizon { s[0].end as int } else { horizon },
        s.drop_first(),
    ))
}

/// The queueing delay kept by the accumulator is the minimum over the records,
/// so the order in which two records arrive does not matter to it.
pub proof fn lemma_delay_order_independent(acc: TaskAccumulator, a: TaskStats, b: TaskStats)
    ensures
        acc.accumulated(a).accumulated(b).delay == acc.accumulated(b).accumulated(a).delay,
{
}

/// Two submissions that do not overlap, taken in time order after everything
/// already counted, add exactly their two busy times.
pub proof fn lemma_disjoint_submissions_add(acc: TaskAccumulator, a: TaskStats, b: TaskStats)
    requires
        a.wf(),
        b.wf(),
        acc.last_finish <= a.queued,
        a.end <= b.queued,
        acc.duration + (a.end - a.queued) + (b.end - b.queued) <= u64::MAX,
    ensures
        acc.accumulated(a).accumulated(b).duration == acc.duration + (a.end - a.queued) + (
        b.end - b.queued),
{
}

proof fn lemma_chain_from_horizon(acc: TaskAccumulator, s: Seq<TaskStats>)
    requires
        forall|i: int| 0 <= i < s.len() ==> #[trigger] s[i].wf(),
        overlapping_chain(acc.last_finish as int, s),
        acc.duration + diff_or_zero(latest_end(s), acc.last_finish as int) <= u64::MAX,
    ensures
        acc.accumulated_all(s).duration == acc.duration + diff_or_zero(
            latest_end(s),
            acc.last_finish as int,
        ),
        acc.accumulated_all(s).last_finish == if latest_end(s) >= acc.last_finish {
            latest_end(s)
        } else {
            acc.last_finish as int
        },
    decreases s.len(),
{
    if s.len() > 0 {
        let next = acc.accumulated(s[0]);
        let rest = s.drop_first();
        assert forall|i: int| 0 <= i < rest.len() implies #[trigger] rest[i].wf() by {
            assert(rest[i] == s[i + 1]);
        }
        lemma_chain_from_horizon(next, rest);
    }
}

/// Submissions that each begin before everything earlier has finished are
/// counted once: the duration grows by the span from the first `queued` to the
/// latest `end`.
pub proof fn lemma_overlapping_submissions_span(acc: TaskAccumulator, s: Seq<TaskStats>)
    requires
        s.len() > 0,
        forall|i: int| 0 <= i < s.len() ==> #[trigger] s[i].wf(),
        acc.last_finish <= s[0].queued,
        overlapping_chain(s[0].end as int, s.drop_first()),
        acc.duration + latest_end(s) - s[0].queued <= u64::MAX,
    ensures
        acc.accumulated_all(s).duration == acc.duration + latest_end(s) - s[0].queued,
{
    let next = acc.accumulated(s[0]);
    let rest = s.drop_first();
    assert(s[0].wf());
    assert forall|i: int| 0 <= i < rest.len() implies #[trigger] rest[i].wf() by {
        assert(rest[i] == s[i + 1]);
    }
    lemma_chain_from_horizon(next, rest);
}

impl Default for TaskAccumulator {
    fn default() -> (r: TaskAccumulator)
        ensures
            r.delay.is_none(),
            r.duration == 0,
            r.last_finish == 0,
    {
        TaskAccumulator::new()
    }
}

} // verus!
