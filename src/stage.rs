//! The frame aggregator: the pacing control loop.
//!
//! Each frame is created by `new_frame`, receives per-stage statistics through
//! `mark`, is sealed by `finish_frame`, and retires at the head of the
//! in-flight list once every earlier frame has retired. Each stage keeps the
//! per-frame durations that have arrived and feeds them, in frame order, to its
//! duration estimator.
use vstd::prelude::*;

use crate::ewma::{next_estimate, next_weight, reported, EwmaEstimator, GAIN_ONE};
use crate::task::FrameStageStats;
use crate::time::now;
use crate::{sat_u64, Interval, Timestamp};

verus! {

/// Identifies a frame; issued in increasing order by `new_frame`.
#[derive(Copy, Clone, Debug, PartialEq, Eq, Structural, PartialOrd, Ord, Hash)]
pub struct FrameId(pub u64);

/// Index of a pipeline stage, below the stage count given at construction.
#[derive(Copy, Clone, Debug, PartialEq, Eq, Structural, PartialOrd, Ord, Hash)]
pub struct StageId(pub usize);

/// Tuning of the control loop. Gains are in millionths (`GAIN_ONE` is 1),
/// times in nanoseconds.
#[derive(Copy, Clone, Debug, PartialEq, Eq, Structural)]
pub struct Config {
    /// Fraction of the delay-from-target error corrected each frame.
    pub delay_gain: u64,
    /// Gain of the per-stage duration estimators.
    pub duration_gain: u64,
    /// Queueing delay the loop aims to keep.
    pub target_delay: u64,
    /// Largest credible delay; larger estimates are clipped.
    pub clamp_delay: u64,
    /// Largest per-frame stage duration fed to the estimators.
    pub clamp_frame_time: u64,
}

impl Config {
    /// Gains that construction accepts: a delay gain of at most one and a
    /// duration gain above zero and at most one.
    pub open spec fn valid(self) -> bool {
        self.delay_gain <= GAIN_ONE && 0 < self.duration_gain <= GAIN_ONE
    }
}

impl Default for Config {
    fn default() -> (r: Config)
        ensures
            r == (Config {
                delay_gain: 150_000,
                duration_gain: 300_000,
                target_delay: 2_000_000,
                clamp_delay: 50_000_000,
                clamp_frame_time: 50_000_000,
            }),
    {
        Config {
            delay_gain: 150_000,
            duration_gain: 300_000,
            target_delay: 2_000_000,
            clamp_delay: 50_000_000,
            clamp_frame_time: 50_000_000,
        }
    }
}

/// Why construction refused its arguments.
#[derive(Copy, Clone, Debug, PartialEq, Eq, Structural)]
pub enum ConfigError {
    /// The stage count was zero.
    NoStages,
    /// A gain was out of range (see `Config::valid`).
    InvalidGain,
}

/// A frame in flight, as the contracts see it.
pub struct FrameView {
    pub id: int,
    /// Queueing delay reported for each stage, if any.
    pub delay: Seq<Option<u64>>,
    /// Correction applied when the frame was scheduled.
    pub adjustment: int,
    pub complete: bool,
}

/// A stage, as the contracts see it.
pub struct StageView {
    /// Whether the last frame this stage retired carried a duration.
    pub active: bool,
    /// The frame whose duration the stage expects next.
    pub next_frame_id: int,
    /// Entry `i` is what arrived for frame `next_frame_id + i`: nothing yet,
    /// or the duration (`None` for a frame finished without a mark).
    pub pending: Seq<Option<Option<u64>>>,
    /// Gain, weight and mean of the duration estimator.
    pub alpha: int,
    pub weight: int,
    pub estimate: int,
}

/// The aggregator, as the contracts see it.
pub struct AggregatorView {
    pub config: Config,
    pub stages: Seq<StageView>,
    /// Frames in flight, oldest first, with consecutive ids.
    pub frames: Seq<FrameView>,
    pub next_frame_id: int,
    /// Total delay of the last retired frame.
    pub reference_delay: Option<u64>,
    pub last_frame_start: Option<u64>,
}

struct Frame {
    id: u64,
    delay: Vec<Option<Interval>>,
    adjustment: i64,
    complete: bool,
}

impl View for Frame {
    type V = FrameView;

    closed spec fn view(&self) -> FrameView {
        FrameView {
            id: self.id as int,
            delay: self.delay@,
            adjustment: self.adjustment as int,
            complete: self.complete,
        }
    }
}

struct Stage {
    active: bool,
    next_frame_id: u64,
    pending: Vec<Option<Option<Interval>>>,
    duration_estimator: EwmaEstimator,
}

impl View for Stage {
    type V = StageView;

    closed spec fn view(&self) -> StageView {
        StageView {
            active: self.active,
            next_frame_id: self.next_frame_id as int,
            pending: self.pending@,
            alpha: self.duration_estimator.alpha(),
            weight: self.duration_estimator.weight(),
            estimate: self.duration_estimator.estimate(),
        }
    }
}

pub struct FrameAggregator {
    config: Config,
    stages: Vec<Stage>,
    frames: Vec<Frame>,
    next_frame_id: u64,
    reference_delay: Option<u64>,
    last_frame_start: Option<Timestamp>,
}

impl View for FrameAggregator {
    type V = AggregatorView;

    closed spec fn view(&self) -> AggregatorView {
        AggregatorView {
            config: self.config,
            stages: self.stages@.map_values(|s: Stage| s@),
            frames: self.frames@.map_values(|f: Frame| f@),
            next_frame_id: self.next_frame_id as int,
            reference_delay: self.reference_delay,
            last_frame_start: self.last_frame_start,
        }
    }
}

impl StageView {
    /// A stage that has seen nothing, with estimator gain `alpha`.
    pub open spec fn fresh(alpha: int) -> StageView {
        StageView {
            active: false,
            next_frame_id: 0,
            pending: Seq::empty(),
            alpha,
            weight: 0,
            estimate: 0,
        }
    }

    pub open spec fn wf(self, alpha: int, next_frame_id: int) -> bool {
        &&& self.alpha == alpha
        &&& 0 < self.alpha <= GAIN_ONE
        &&& 0 <= self.weight <= GAIN_ONE
        &&& 0 <= self.estimate <= u64::MAX
        &&& 0 <= self.next_frame_id
        &&& self.next_frame_id + self.pending.len() <= next_frame_id
    }

    /// What the stage's estimator reports.
    pub open spec fn reported(self) -> int {
        reported(self.weight, self.estimate)
    }
}

impl AggregatorView {
    /// Id of the oldest frame in flight (the next one to issue if none is).
    pub open spec fn first_frame_id(self) -> int {
        self.next_frame_id - self.frames.len()
    }

    pub open spec fn wf(self) -> bool {
        &&& self.config.valid()
        &&& self.stages.len() >= 1
        &&& 0 <= self.next_frame_id <= u64::MAX
        &&& self.frames.len() <= self.next_frame_id
        &&& forall|i: int|
            0 <= i < self.frames.len() ==> {
                &&& (#[trigger] self.frames[i]).id == self.first_frame_id() + i
                &&& self.frames[i].delay.len() == self.stages.len()
                &&& i64::MIN <= self.frames[i].adjustment <= i64::MAX
            }
        &&& forall|s: int|
            0 <= s < self.stages.len() ==> (#[trigger] self.stages[s]).wf(
                self.config.duration_gain as int,
                self.next_frame_id,
            )
    }
}


/// Sum of the delays that were reported.
pub open spec fn delay_total(d: Seq<Option<u64>>) -> int
    decreases d.len(),
{
    if d.len() == 0 {
        0
    } else {
        delay_total(d.drop_last()) + match d.last() {
            Some(x) => x as int,
            None => 0,
        }
    }
}

/// Retires the complete frames at the head of `frames`: what stays in flight,
/// and the reference delay, which is the total delay of the last one retired.
pub open spec fn retired(frames: Seq<FrameView>, reference: Option<u64>) -> (
    Seq<FrameView>,
    Option<u64>,
)
    decreases frames.len(),
{
    if frames.len() > 0 && frames[0].complete {
        retired(frames.drop_first(), Some(sat_u64(delay_total(frames[0].delay)) as u64))
    } else {
        (frames, reference)
    }
}

/// Feeds the durations that arrived for a stage to its estimator, in frame
/// order, up to the first frame still missing.
pub open spec fn drained(st: StageView) -> StageView
    decreases st.pending.len(),
{
    if st.pending.len() > 0 && st.pending[0] is Some {
        let entry = st.pending[0]->Some_0;
        let w1 = next_weight(st.weight, st.alpha);
        drained(
            StageView {
                active: entry is Some,
                next_frame_id: st.next_frame_id + 1,
                pending: st.pending.drop_first(),
                alpha: st.alpha,
                weight: match entry {
                    Some(_) => w1,
                    None => st.weight,
                },
                estimate: match entry {
                    Some(d) => next_estimate(st.estimate, d as int, st.alpha, w1),
                    None => st.estimate,
                },
            },
        )
    } else {
        st
    }
}

/// Retires complete frames and feeds every stage what has arrived for it.
pub open spec fn updated_estimates(s: AggregatorView) -> AggregatorView {
    AggregatorView {
        config: s.config,
        stages: s.stages.map_values(|st: StageView| drained(st)),
        frames: retired(s.frames, s.reference_delay).0,
        next_frame_id: s.next_frame_id,
        reference_delay: retired(s.frames, s.reference_delay).1,
        last_frame_start: s.last_frame_start,
    }
}

/// `x` clamped to `[lo, hi]`.
pub open spec fn clamped(x: int, lo: int, hi: int) -> int {
    if x < lo {
        lo
    } else if x > hi {
        hi
    } else {
        x
    }
}

/// Carries the reference delay through the frames in flight: each frame's
/// adjustment is taken off, never going below zero.
pub open spec fn propagated(reference: int, frames: Seq<FrameView>) -> int
    decreases frames.len(),
{
    if frames.len() == 0 {
        reference
    } else {
        clamped(
            propagated(reference, frames.drop_last()) - frames.last().adjustment,
            0,
            i64::MAX as int,
        )
    }
}

/// The queueing delay that the next frame is expected to meet, clipped to
/// `clamp_delay`; none before any frame has retired.
pub open spec fn estimated_delay(s: AggregatorView) -> Option<int> {
    match s.reference_delay {
        None => None,
        Some(r) => {
            let p = propagated(clamped(r as int, 0, i64::MAX as int), s.frames);
            Some(
                if p > s.config.clamp_delay {
                    s.config.clamp_delay as int
                } else {
                    p
                },
            )
        },
    }
}

/// Sum of the estimated durations of the active stages.
pub open spec fn active_total(stages: Seq<StageView>) -> int
    decreases stages.len(),
{
    if stages.len() == 0 {
        0
    } else {
        active_total(stages.drop_last()) + if stages.last().active {
            stages.last().reported()
        } else {
            0
        }
    }
}

proof fn lemma_active_total_nonneg(stages: Seq<StageView>)
    requires
        forall|i: int| 0 <= i < stages.len() ==> 0 <= (#[trigger] stages[i]).estimate,
    ensures
        active_total(stages) >= 0,
    decreases stages.len(),
{
    if stages.len() > 0 {
        lemma_active_total_nonneg(stages.drop_last());
    }
}

/// The predicted time between two frame starts.
pub open spec fn frame_time(s: AggregatorView) -> int {
    sat_u64(active_total(s.stages))
}

/// `err * gain` with the gain in millionths, truncated toward zero.
pub open spec fn scaled(err: int, gain: int) -> int {
    if err >= 0 {
        err * gain / (GAIN_ONE as int)
    } else {
        -((-err) * gain / (GAIN_ONE as int))
    }
}

/// Start time and effective adjustment of a frame begun at `now`.
pub open spec fn schedule(s: AggregatorView, now: int) -> (int, int) {
    match s.last_frame_start {
        None => (now, 0),
        Some(last) => {
            let err = match estimated_delay(s) {
                Some(d) => d - s.config.target_delay,
                None => 0,
            };
            let adjustment = scaled(err, s.config.delay_gain as int);
            let ft = frame_time(s);
            let planned = sat_u64(sat_u64(last + ft) + adjustment);
            let target = if now >= planned {
                now
            } else {
                planned
            };
            (target, clamped(target - last - ft, i64::MIN as int, i64::MAX as int))
        },
    }
}

/// The aggregator after a frame begun at `now`, with the new frame's id and
/// start time.
pub open spec fn after_new_frame(s: AggregatorView, now: int) -> (AggregatorView, int, int) {
    let s1 = updated_estimates(s);
    let (target, adjustment) = schedule(s1, now);
    (
        AggregatorView {
            config: s1.config,
            stages: s1.stages,
            frames: s1.frames.push(
                FrameView {
                    id: s1.next_frame_id,
                    delay: Seq::new(s1.stages.len(), |i: int| None),
                    adjustment,
                    complete: false,
                },
            ),
            next_frame_id: s1.next_frame_id + 1,
            reference_delay: s1.reference_delay,
            last_frame_start: Some(target as u64),
        },
        s1.next_frame_id,
        target,
    )
}

/// The stage after `entry` arrived for frame `k`. An entry for a frame the
/// stage has passed, or already holds, or lies further ahead than a vector can
/// index, is ignored.
pub open spec fn with_entry(st: StageView, k: int, entry: Option<u64>) -> StageView {
    if k < st.next_frame_id || k - st.next_frame_id >= usize::MAX {
        st
    } else {
        let i = k - st.next_frame_id;
        let pending = if i < st.pending.len() {
            if st.pending[i] is None {
                st.pending.update(i, Some(entry))
            } else {
                st.pending
            }
        } else {
            (st.pending + Seq::new((i - st.pending.len()) as nat, |j: int| None)).push(Some(entry))
        };
        StageView {
            active: st.active,
            next_frame_id: st.next_frame_id,
            pending,
            alpha: st.alpha,
            weight: st.weight,
            estimate: st.estimate,
        }
    }
}

impl AggregatorView {
    /// Whether frame `id` is in flight.
    pub open spec fn in_flight(self, id: int) -> bool {
        self.first_frame_id() <= id < self.next_frame_id
    }

    /// Position of frame `id` among the frames in flight.
    pub open spec fn frame_index(self, id: int) -> int {
        id - self.first_frame_id()
    }

    /// Whether a mark of `stage` on frame `id` is taken: the frame is in
    /// flight and not finished, and the stage exists and has no mark yet.
    pub open spec fn accepts_mark(self, id: int, stage: int) -> bool {
        &&& self.in_flight(id)
        &&& 0 <= stage < self.stages.len()
        &&& !self.frames[self.frame_index(id)].complete
        &&& self.frames[self.frame_index(id)].delay[stage] is None
    }
}

/// The aggregator after statistics for one stage of one frame.
pub open spec fn after_mark(s: AggregatorView, id: int, stage: int, stats: FrameStageStats) -> AggregatorView {
    if s.accepts_mark(id, stage) {
        let f = s.frames[s.frame_index(id)];
        let duration = if stats.duration <= s.config.clamp_frame_time {
            stats.duration
        } else {
            s.config.clamp_frame_time
        };
        AggregatorView {
            config: s.config,
            stages: s.stages.update(stage, with_entry(s.stages[stage], id, Some(duration))),
            frames: s.frames.update(
                s.frame_index(id),
                FrameView {
                    id: f.id,
                    delay: f.delay.update(stage, Some(stats.delay)),
                    adjustment: f.adjustment,
                    complete: f.complete,
                },
            ),
            next_frame_id: s.next_frame_id,
            reference_delay: s.reference_delay,
            last_frame_start: s.last_frame_start,
        }
    } else {
        s
    }
}

/// The aggregator after frame `id` was sealed: every stage without a mark on
/// it is told that none will come.
pub open spec fn after_finish(s: AggregatorView, id: int) -> AggregatorView {
    if s.in_flight(id) && !s.frames[s.frame_index(id)].complete {
        let f = s.frames[s.frame_index(id)];
        AggregatorView {
            config: s.config,
            stages: Seq::new(
                s.stages.len(),
                |j: int|
                    if f.delay[j] is None {
                        with_entry(s.stages[j], id, None)
                    } else {
                        s.stages[j]
                    },
            ),
            frames: s.frames.update(
                s.frame_index(id),
                FrameView { id: f.id, delay: f.delay, adjustment: f.adjustment, complete: true },
            ),
            next_frame_id: s.next_frame_id,
            reference_delay: s.reference_delay,
            last_frame_start: s.last_frame_start,
        }
    } else {
        s
    }
}

proof fn lemma_retired_prefix(frames: Seq<FrameView>, reference: Option<u64>)
    ensures
        ({
            let (rest, r) = retired(frames, reference);
            let k = frames.len() - rest.len();
            &&& 0 <= k <= frames.len()
            &&& rest == frames.skip(k)
            &&& forall|i: int| 0 <= i < k ==> (#[trigger] frames[i]).complete
            &&& k > 0 ==> r == Some(sat_u64(delay_total(frames[k - 1].delay)) as u64)
            &&& k == 0 ==> r == reference
        }),
    decreases frames.len(),
{
    if frames.len() > 0 && frames[0].complete {
        let tail = frames.drop_first();
        lemma_retired_prefix(tail, Some(sat_u64(delay_total(frames[0].delay)) as u64));
        let (rest, r) = retired(tail, Some(sat_u64(delay_total(frames[0].delay)) as u64));
        let k1 = tail.len() - rest.len();
        assert(tail.skip(k1) =~= frames.skip(k1 + 1));
        assert forall|i: int| 0 <= i < k1 + 1 implies (#[trigger] frames[i]).complete by {
            if i > 0 {
                assert(frames[i] == tail[i - 1]);
            }
        }
        if k1 > 0 {
            assert(frames[k1] == tail[k1 - 1]);
        }
    } else {
        assert(frames.skip(0) =~= frames);
    }
}

/// Frames retire from the head, complete ones only; the reference delay is
/// then the total delay over the stages of the last frame retired.
pub proof fn lemma_reference_delay_is_retired_total(s: AggregatorView)
    ensures
        ({
            let u = updated_estimates(s);
            let k = s.frames.len() - u.frames.len();
            &&& 0 <= k <= s.frames.len()
            &&& u.frames == s.frames.skip(k)
            &&& forall|i: int| 0 <= i < k ==> (#[trigger] s.frames[i]).complete
            &&& k > 0 && delay_total(s.frames[k - 1].delay) <= u64::MAX ==> u.reference_delay
                == Some(delay_total(s.frames[k - 1].delay) as u64)
            &&& k == 0 ==> u.reference_delay == s.reference_delay
        }),
{
    lemma_retired_prefix(s.frames, s.reference_delay);
    let k = s.frames.len() - updated_estimates(s).frames.len();
    if k > 0 {
        lemma_delay_total_nonneg(s.frames[k - 1].delay);
    }
}

/// Frame ids come out of `new_frame` one after another, without gaps; marks
/// and seals in between do not move the counter.
pub proof fn lemma_frame_ids_consecutive(
    s: AggregatorView,
    now1: int,
    now2: int,
    id: int,
    stage: int,
    stats: FrameStageStats,
)
    ensures
        after_new_frame(s, now1).1 == s.next_frame_id,
        after_new_frame(after_new_frame(s, now1).0, now2).1 == after_new_frame(s, now1).1 + 1,
        after_mark(s, id, stage, stats).next_frame_id == s.next_frame_id,
        after_finish(s, id).next_frame_id == s.next_frame_id,
{
}

impl Stage {
    fn add_entry(&mut self, k: u64, entry: Option<Interval>, alpha: Ghost<int>, bound: Ghost<int>)
        requires
            old(self)@.wf(alpha@, bound@),
            k < bound@,
        ensures
            final(self)@ == with_entry(old(self)@, k as int, entry),
            final(self)@.wf(alpha@, bound@),
    {
        if k < self.next_frame_id || k - self.next_frame_id >= usize::MAX as u64 {
            return;
        }
        let i = (k - self.next_frame_id) as usize;
        if i < self.pending.len() {
            if self.pending[i].is_none() {
                self.pending.set(i, Some(entry));
            }
        } else {
            let ghost before = self@;
            let ghost old_pending = self.pending@;
            while self.pending.len() < i
                invariant
                    before.pending == old_pending,
                    self@.active == before.active,
                    self@.next_frame_id == before.next_frame_id,
                    self@.alpha == before.alpha,
                    self@.weight == before.weight,
                    self@.estimate == before.estimate,
                    old_pending.len() <= self.pending@.len() <= i,
                    self.pending@ =~= old_pending + Seq::new(
                        (self.pending@.len() - old_pending.len()) as nat,
                        |j: int| None,
                    ),
                decreases i - self.pending@.len(),
            {
                self.pending.push(None);
            }
            self.pending.push(Some(entry));
        }
    }

    fn drain(&mut self, alpha: Ghost<int>, bound: Ghost<int>)
        requires
            old(self)@.wf(alpha@, bound@),
            bound@ <= u64::MAX,
        ensures
            final(self)@ == drained(old(self)@),
            final(self)@.wf(alpha@, bound@),
    {
        let ghost target = drained(self@);
        while self.pending.len() > 0 && self.pending[0].is_some()
            invariant
                drained(self@) == target,
                self@.wf(alpha@, bound@),
                bound@ <= u64::MAX,
            decreases self.pending.len(),
        {
            let ghost before = self@;
            let entry = self.pending.remove(0);
            match entry {
                Some(Some(d)) => {
                    self.duration_estimator.update(d);
                    self.active = true;
                },
                _ => {
                    self.active = false;
                },
            }
            self.next_frame_id = self.next_frame_id + 1;
            assert(self@.pending =~= before.pending.drop_first());
        }
    }
}


proof fn lemma_delay_total_nonneg(d: Seq<Option<u64>>)
    ensures
        delay_total(d) >= 0,
    decreases d.len(),
{
    if d.len() > 0 {
        lemma_delay_total_nonneg(d.drop_last());
    }
}

/// Sum of the reported delays, saturated to `u64`.
fn frame_delay_total(delay: &Vec<Option<Interval>>) -> (r: u64)
    ensures
        r == sat_u64(delay_total(delay@)),
{
    let mut total: u64 = 0;
    let mut i: usize = 0;
    while i < delay.len()
        invariant
            i <= delay@.len(),
            total == sat_u64(delay_total(delay@.take(i as int))),
        decreases delay@.len() - i,
    {
        proof {
            lemma_delay_total_nonneg(delay@.take(i as int));
            assert(delay@.take(i as int + 1).drop_last() =~= delay@.take(i as int));
        }
        match delay[i] {
            Some(x) => {
                total = total.saturating_add(x);
            },
            None => {},
        }
        i = i + 1;
    }
    assert(delay@.take(delay@.len() as int) =~= delay@);
    total
}

impl FrameAggregator {
    pub open spec fn wf(&self) -> bool {
        self@.wf()
    }

    /// A new aggregator for `num_stages` stages, refused where there is no
    /// stage or a gain is out of range.
    pub fn new(config: Config, num_stages: usize) -> (r: Result<FrameAggregator, ConfigError>)
        ensures
            num_stages == 0 ==> r == Err::<FrameAggregator, ConfigError>(ConfigError::NoStages),
            num_stages > 0 && !config.valid() ==> r == Err::<FrameAggregator, ConfigError>(
                ConfigError::InvalidGain,
            ),
            num_stages > 0 && config.valid() ==> r is Ok && r->Ok_0.wf() && r->Ok_0@ == (
            AggregatorView {
                config,
                stages: Seq::new(num_stages as nat, |i: int| StageView::fresh(config.duration_gain as int)),
                frames: Seq::empty(),
                next_frame_id: 0,
                reference_delay: None,
                last_frame_start: None,
            }),
    {
        if num_stages == 0 {
            return Err(ConfigError::NoStages);
        }
        if !(config.delay_gain <= GAIN_ONE && 0 < config.duration_gain
            && config.duration_gain <= GAIN_ONE) {
            return Err(ConfigError::InvalidGain);
        }
        let ghost fresh = StageView::fresh(config.duration_gain as int);
        let mut stages: Vec<Stage> = Vec::new();
        let mut i: usize = 0;
        while i < num_stages
            invariant
                i <= num_stages,
                stages@.len() == i,
                fresh == StageView::fresh(config.duration_gain as int),
                0 < config.duration_gain <= GAIN_ONE,
                forall|j: int| 0 <= j < i ==> (#[trigger] stages@[j])@ == fresh,
                forall|j: int| 0 <= j < i ==> (#[trigger] stages@[j]).duration_estimator.wf(),
            decreases num_stages - i,
        {
            let stage = Stage {
                active: false,
                next_frame_id: 0,
                pending: Vec::new(),
                duration_estimator: EwmaEstimator::new(config.duration_gain),
            };
            assert(stage@.pending =~= fresh.pending);
            stages.push(stage);
            i = i + 1;
        }
        let r = FrameAggregator {
            config,
            stages,
            frames: Vec::new(),
            next_frame_id: 0,
            reference_delay: None,
            last_frame_start: None,
        };
        assert(r@.stages =~= Seq::new(num_stages as nat, |i: int| fresh));
        assert(r@.frames =~= Seq::empty());
        Ok(r)
    }

    /// The id the next frame will get.
    pub fn next_frame_id(&self) -> (r: FrameId)
        ensures
            r.0 == self@.next_frame_id,
    {
        FrameId(self.next_frame_id)
    }

    /// Begins a frame now, on the monotonic clock: see `new_frame_at`.
    pub fn new_frame(&mut self) -> (r: (FrameId, Timestamp))
        requires
            old(self).wf(),
            old(self)@.next_frame_id < u64::MAX,
        ensures
            final(self).wf(),
            exists|now: u64|
                (final(self)@, r.0.0 as int, r.1 as int) == #[trigger] after_new_frame(
                    old(self)@,
                    now as int,
                ),
    {
        let now = now();
        self.new_frame_at(now)
    }

    /// Begins a frame at time `now`: retires what can be retired, then returns
    /// the new frame's id and the time at which it should start.
    pub fn new_frame_at(&mut self, now: Timestamp) -> (r: (FrameId, Timestamp))
        requires
            old(self).wf(),
            old(self)@.next_frame_id < u64::MAX,
        ensures
            final(self).wf(),
            (final(self)@, r.0.0 as int, r.1 as int) == after_new_frame(old(self)@, now as int),
    {
        self.update_estimates();
        let ghost s1 = self@;
        let id = self.next_frame_id;
        let (target, adjustment): (u64, i64) = match self.last_frame_start {
            None => (now, 0),
            Some(last) => {
                let err: i128 = match self.estimate_delay() {
                    Some(d) => (d as i128) - (self.config.target_delay as i128),
                    None => 0,
                };
                let gain = self.config.delay_gain;
                let adj: i128 = if err >= 0 {
                    assert((err as int) * (gain as int) <= (u64::MAX as int) * (GAIN_ONE as int))
                        by (nonlinear_arith)
                        requires
                            0 <= err <= u64::MAX,
                            0 <= gain <= GAIN_ONE,
                    ;
                    err * (gain as i128) / (GAIN_ONE as i128)
                } else {
                    let m = -err;
                    assert((m as int) * (gain as int) <= (u64::MAX as int) * (GAIN_ONE as int))
                        by (nonlinear_arith)
                        requires
                            0 <= m <= u64::MAX,
                            0 <= gain <= GAIN_ONE,
                    ;
                    -(m * (gain as i128) / (GAIN_ONE as i128))
                };
                assert(-(u64::MAX as int) <= adj <= u64::MAX) by (nonlinear_arith)
                    requires
                        -(u64::MAX as int) <= err <= u64::MAX,
                        0 <= gain <= GAIN_ONE,
                        adj == scaled(err as int, gain as int),
                ;
                let ft = self.estimate_frame_time();
                let base = last.saturating_add(ft);
                let raw = (base as i128) + adj;
                let planned: u64 = if raw < 0 {
                    0
                } else if raw > 18_446_744_073_709_551_615i128 {
                    18_446_744_073_709_551_615u64
                } else {
                    raw as u64
                };
                let target = if now >= planned {
                    now
                } else {
                    planned
                };
                let eff = (target as i128) - (last as i128) - (ft as i128);
                let adjustment: i64 = if eff < -9_223_372_036_854_775_808i128 {
                    -9_223_372_036_854_775_808i64
                } else if eff > 9_223_372_036_854_775_807i128 {
                    9_223_372_036_854_775_807i64
                } else {
                    eff as i64
                };
                (target, adjustment)
            },
        };
        assert((target as int, adjustment as int) == schedule(s1, now as int));
        let n = self.stages.len();
        let mut delay: Vec<Option<Interval>> = Vec::new();
        let mut i: usize = 0;
        while i < n
            invariant
                i <= n,
                delay@ =~= Seq::new(i as nat, |j: int| None::<u64>),
            decreases n - i,
        {
            delay.push(None);
            i = i + 1;
        }
        self.frames.push(Frame { id, delay, adjustment, complete: false });
        self.next_frame_id = id + 1;
        self.last_frame_start = Some(target);
        assert(self@.frames =~= s1.frames.push(
            FrameView {
                id: s1.next_frame_id,
                delay: Seq::new(s1.stages.len(), |i: int| None),
                adjustment: adjustment as int,
                complete: false,
            },
        ));
        (FrameId(id), target)
    }


    /// Records the statistics of one stage of one frame. A mark on a frame
    /// that is not in flight or already finished, on a stage out of range, or
    /// on a stage already marked for that frame, is ignored.
    pub fn mark(&mut self, frame: FrameId, stage: StageId, stats: FrameStageStats)
        requires
            old(self).wf(),
        ensures
            final(self).wf(),
            final(self)@ == after_mark(old(self)@, frame.0 as int, stage.0 as int, stats),
    {
        let ghost s = self@;
        let first = self.next_frame_id - self.frames.len() as u64;
        if frame.0 < first || frame.0 >= self.next_frame_id || stage.0 >= self.stages.len() {
            return;
        }
        let idx = (frame.0 - first) as usize;
        assert(s.frames[idx as int] == self.frames@[idx as int]@);
        if self.frames[idx].complete || self.frames[idx].delay[stage.0].is_some() {
            return;
        }
        let duration = if stats.duration <= self.config.clamp_frame_time {
            stats.duration
        } else {
            self.config.clamp_frame_time
        };
        self.frames[idx].delay.set(stage.0, Some(stats.delay));
        assert(s.stages[stage.0 as int] == self.stages@[stage.0 as int]@);
        let ghost alpha = self.config.duration_gain as int;
        let ghost n = self.next_frame_id as int;
        self.stages[stage.0].add_entry(frame.0, Some(duration), Ghost(alpha), Ghost(n));
        assert(self@.frames =~= after_mark(s, frame.0 as int, stage.0 as int, stats).frames);
        assert(self@.stages =~= after_mark(s, frame.0 as int, stage.0 as int, stats).stages);
    }

    /// Seals a frame. Stages that received no mark for it retire it without a
    /// sample. Sealing a frame that is not in flight, or twice, does nothing.
    pub fn finish_frame(&mut self, frame: FrameId)
        requires
            old(self).wf(),
        ensures
            final(self).wf(),
            final(self)@ == after_finish(old(self)@, frame.0 as int),
    {
        let ghost s = self@;
        let first = self.next_frame_id - self.frames.len() as u64;
        if frame.0 < first || frame.0 >= self.next_frame_id {
            return;
        }
        let idx = (frame.0 - first) as usize;
        assert(s.frames[idx as int] == self.frames@[idx as int]@);
        if self.frames[idx].complete {
            return;
        }
        self.frames[idx].complete = true;
        let ghost alpha = self.config.duration_gain as int;
        let ghost n = self.next_frame_id as int;
        let ghost f = s.frames[idx as int];
        let ghost expected = after_finish(s, frame.0 as int);
        assert(self@.frames =~= expected.frames);
        assert forall|k: int| 0 <= k < self.stages@.len() implies (#[trigger] self.stages@[k])@.wf(
            alpha,
            n,
        ) by {
            assert(s.stages[k] == self.stages@[k]@);
        }
        let mut j: usize = 0;
        while j < self.stages.len()
            invariant
                j <= self.stages@.len(),
                self.stages@.len() == s.stages.len(),
                idx < self.frames@.len(),
                f == s.frames[idx as int],
                f.delay.len() == s.stages.len(),
                self.frames@[idx as int].delay@ == f.delay,
                self@.frames == expected.frames,
                self@.config == s.config,
                self.next_frame_id == s.next_frame_id,
                self.reference_delay == s.reference_delay,
                self.last_frame_start == s.last_frame_start,
                alpha == s.config.duration_gain,
                n == s.next_frame_id,
                expected == after_finish(s, frame.0 as int),
                s.in_flight(frame.0 as int),
                !f.complete,
                s.frame_index(frame.0 as int) == idx,
                frame.0 < n,
                forall|k: int| 0 <= k < j ==> (#[trigger] self.stages@[k])@ == expected.stages[k],
                forall|k: int| j <= k < self.stages@.len() ==> (#[trigger] self.stages@[k])@ == s.stages[k],
                forall|k: int| 0 <= k < self.stages@.len() ==> (#[trigger] self.stages@[k])@.wf(alpha, n),
            decreases self.stages@.len() - j,
        {
            if self.frames[idx].delay[j].is_none() {
                self.stages[j].add_entry(frame.0, None, Ghost(alpha), Ghost(n));
            }
            j = j + 1;
        }
        assert(self@.stages =~= expected.stages);
    }

    /// The queueing delay the next frame is expected to meet: the last retired
    /// frame's total delay carried through the frames in flight, clipped to
    /// `clamp_delay`; `None` before any frame has retired.
    pub fn estimate_delay(&self) -> (r: Option<u64>)
        requires
            self.wf(),
        ensures
            match estimated_delay(self@) {
                Some(d) => r == Some(d as u64) && 0 <= d <= i64::MAX,
                None => r.is_none(),
            },
    {
        match self.reference_delay {
            None => None,
            Some(reference) => {
                let ghost frames = self@.frames;
                let ghost start = clamped(reference as int, 0, i64::MAX as int);
                let mut acc: i64 = if reference > 9_223_372_036_854_775_807u64 {
                    9_223_372_036_854_775_807i64
                } else {
                    reference as i64
                };
                let mut i: usize = 0;
                while i < self.frames.len()
                    invariant
                        i <= self.frames@.len(),
                        frames == self@.frames,
                        self.wf(),
                        acc >= 0,
                        acc == propagated(start, frames.take(i as int)),
                    decreases self.frames@.len() - i,
                {
                    assert(frames.take(i as int + 1).drop_last() =~= frames.take(i as int));
                    assert(frames[i as int] == self.frames@[i as int]@);
                    let x = (acc as i128) - (self.frames[i].adjustment as i128);
                    acc = if x < 0 {
                        0
                    } else if x > 9_223_372_036_854_775_807i128 {
                        9_223_372_036_854_775_807i64
                    } else {
                        x as i64
                    };
                    i = i + 1;
                }
                assert(frames.take(frames.len() as int) =~= frames);
                let p = acc as u64;
                Some(
                    if p > self.config.clamp_delay {
                        self.config.clamp_delay
                    } else {
                        p
                    },
                )
            },
        }
    }

    /// The predicted time between frame starts: the sum of the active stages'
    /// duration estimates.
    pub fn estimate_frame_time(&self) -> (r: u64)
        requires
            self.wf(),
        ensures
            r == frame_time(self@),
    {
        let ghost stages = self@.stages;
        let mut total: u64 = 0;
        let mut i: usize = 0;
        while i < self.stages.len()
            invariant
                i <= self.stages@.len(),
                stages == self@.stages,
                self.wf(),
                total == sat_u64(active_total(stages.take(i as int))),
            decreases self.stages@.len() - i,
        {
            proof {
                lemma_active_total_nonneg(stages.take(i as int));
                assert(stages.take(i as int + 1).drop_last() =~= stages.take(i as int));
                assert(stages[i as int] == self.stages@[i as int]@);
                assert(stages[i as int].wf(self.config.duration_gain as int, self.next_frame_id as int));
            }
            if self.stages[i].active {
                total = total.saturating_add(self.stages[i].duration_estimator.get());
            }
            i = i + 1;
        }
        assert(stages.take(stages.len() as int) =~= stages);
        total
    }

    fn update_estimates(&mut self)
        requires
            old(self).wf(),
        ensures
            final(self).wf(),
            final(self)@ == updated_estimates(old(self)@),
    {
        let ghost old_view = self@;
        let ghost n = self.next_frame_id as int;
        let ghost alpha = self.config.duration_gain as int;
        assert forall|j: int| 0 <= j < self.stages@.len() implies (#[trigger] self.stages@[j])@.wf(
            alpha,
            n,
        ) by {
            assert(old_view.stages[j] == self.stages@[j]@);
        }
        let mut i: usize = 0;
        while i < self.stages.len()
            invariant
                self@.config == old_view.config,
                self@.frames == old_view.frames,
                self.next_frame_id == old_view.next_frame_id,
                self.reference_delay == old_view.reference_delay,
                self.last_frame_start == old_view.last_frame_start,
                n == old_view.next_frame_id,
                alpha == old_view.config.duration_gain,
                n <= u64::MAX,
                i <= self.stages@.len(),
                self.stages@.len() == old_view.stages.len(),
                forall|j: int| 0 <= j < i ==> (#[trigger] self.stages@[j])@ == drained(old_view.stages[j]),
                forall|j: int| i <= j < self.stages@.len() ==> (#[trigger] self.stages@[j])@ == old_view.stages[j],
                forall|j: int| 0 <= j < self.stages@.len() ==> (#[trigger] self.stages@[j])@.wf(alpha, n),
            decreases self.stages@.len() - i,
        {
            assert(self.stages@[i as int]@.wf(alpha, n));
            self.stages[i].drain(Ghost(alpha), Ghost(n));
            i = i + 1;
        }
        assert(self@.stages =~= old_view.stages.map_values(|st: StageView| drained(st)));
        let ghost target = retired(old_view.frames, old_view.reference_delay);
        while self.frames.len() > 0 && self.frames[0].complete
            invariant
                retired(self@.frames, self.reference_delay) == target,
                self@.config == old_view.config,
                self@.stages == old_view.stages.map_values(|st: StageView| drained(st)),
                self.next_frame_id == old_view.next_frame_id,
                self.last_frame_start == old_view.last_frame_start,
                self@.wf(),
            decreases self.frames@.len(),
        {
            let ghost before = self@;
            let frame = self.frames.remove(0);
            let total = frame_delay_total(&frame.delay);
            self.reference_delay = Some(total);
            assert(self@.frames =~= before.frames.drop_first());
            assert forall|i: int| 0 <= i < self@.frames.len() implies (#[trigger] self@.frames[i]).id
                == self@.first_frame_id() + i by {
                assert(self@.frames[i] == before.frames[i + 1]);
            }
        }
    }
}

} // verus!
