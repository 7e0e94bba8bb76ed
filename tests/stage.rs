use latencyflex2_core::{Config, ConfigError, FrameAggregator, FrameId, FrameStageStats, StageId};

const MS: u64 = 1_000_000;
const T0: u64 = 1_000_000_000;

fn stats(delay: u64, duration: u64) -> FrameStageStats {
    FrameStageStats { delay, duration }
}

fn aggregator(stages: usize) -> FrameAggregator {
    FrameAggregator::new(Config::default(), stages).unwrap()
}

#[test]
fn default_config() {
    let c = Config::default();
    assert_eq!(c.delay_gain, 150_000);
    assert_eq!(c.duration_gain, 300_000);
    assert_eq!(c.target_delay, 2 * MS);
    assert_eq!(c.clamp_delay, 50 * MS);
    assert_eq!(c.clamp_frame_time, 50 * MS);
}

#[test]
fn construction_refuses_zero_stages() {
    assert!(matches!(FrameAggregator::new(Config::default(), 0), Err(ConfigError::NoStages)));
}

#[test]
fn construction_refuses_bad_gains() {
    let mut c = Config::default();
    c.duration_gain = 0;
    assert!(matches!(FrameAggregator::new(c, 1), Err(ConfigError::InvalidGain)));
    let mut c = Config::default();
    c.delay_gain = 1_000_001;
    assert!(matches!(FrameAggregator::new(c, 1), Err(ConfigError::InvalidGain)));
}

#[test]
fn first_frame_starts_now() {
    let mut agg = aggregator(1);
    let (id0, t0) = agg.new_frame_at(T0);
    assert_eq!(id0, FrameId(0));
    assert_eq!(t0, T0);
    assert_eq!(agg.estimate_delay(), None);
    assert_eq!(agg.estimate_frame_time(), 0);
}

#[test]
fn warm_up_without_queueing_delay() {
    // t1 = t0 + 8 ms + 0.15 * (0 - 2 ms)
    let mut agg = aggregator(1);
    let (id0, t0) = agg.new_frame_at(T0);
    agg.mark(id0, StageId(0), stats(0, 8 * MS));
    agg.finish_frame(id0);
    let (id1, t1) = agg.new_frame_at(T0 + MS);
    assert_eq!(id1, FrameId(id0.0 + 1));
    assert_eq!(t1, t0 + 8 * MS - 300_000);
}

#[test]
fn warm_up_with_delay_on_target() {
    // a delay equal to the target leaves nothing to correct
    let mut agg = aggregator(1);
    let (id0, t0) = agg.new_frame_at(T0);
    agg.mark(id0, StageId(0), stats(2 * MS, 8 * MS));
    agg.finish_frame(id0);
    let (id1, t1) = agg.new_frame_at(T0 + MS);
    assert_eq!(id1, FrameId(id0.0 + 1));
    assert_eq!(t1, t0 + 8 * MS);
    assert_eq!(agg.estimate_frame_time(), 8 * MS);
}

#[test]
fn late_frame_starts_now() {
    let mut agg = aggregator(1);
    let (id0, t0) = agg.new_frame_at(T0);
    agg.mark(id0, StageId(0), stats(0, 8 * MS));
    agg.finish_frame(id0);
    let (_, t1) = agg.new_frame_at(t0 + 20 * MS);
    assert_eq!(t1, t0 + 20 * MS);
}

#[test]
fn steady_state() {
    let mut agg = aggregator(1);
    let mut now = T0;
    let mut starts = Vec::new();
    for _ in 0..100 {
        let (id, t) = agg.new_frame_at(now);
        starts.push(t);
        agg.mark(id, StageId(0), stats(2 * MS, 10 * MS));
        agg.finish_frame(id);
        now = t;
    }
    for w in starts.windows(2).skip(1) {
        let gap = w[1] - w[0];
        assert!(gap >= 10 * MS - 200_000 && gap <= 10 * MS + 200_000);
    }
    let d = agg.estimate_delay().unwrap();
    assert!(d >= 2 * MS - 300_000 && d <= 2 * MS + 300_000);
}

#[test]
fn backlog_slows_the_producer_then_recovers() {
    // frames finish one frame late; ten frames report a 20 ms queueing delay
    let mut agg = aggregator(1);
    let mut now = T0;
    let mut starts = Vec::new();
    let mut previous: Option<(FrameId, u64)> = None;
    for k in 0..60 {
        let delay = if (20..30).contains(&k) { 20 * MS } else { 2 * MS };
        let (id, t) = agg.new_frame_at(now);
        starts.push(t);
        if let Some((p, d)) = previous {
            agg.mark(p, StageId(0), stats(d, 10 * MS));
            agg.finish_frame(p);
        }
        previous = Some((id, delay));
        now = t;
    }
    let gaps: Vec<u64> = starts.windows(2).map(|w| w[1] - w[0]).collect();
    // while the backlog is seen, frames start later than the frame time
    assert!(gaps[21..31].iter().all(|g| *g > 10 * MS));
    // the correction carried by the frames in flight is then taken back
    assert!(gaps[31..35].iter().any(|g| *g < 10 * MS));
    // and the pace settles again
    assert!(gaps[50..].iter().all(|g| *g >= 10 * MS - 200_000 && *g <= 10 * MS + 200_000));
}

#[test]
fn missing_stage_mark() {
    let mut agg = aggregator(2);
    let (a, _) = agg.new_frame_at(T0);
    agg.mark(a, StageId(0), stats(MS, 8 * MS));
    agg.mark(a, StageId(1), stats(MS, 4 * MS));
    agg.finish_frame(a);
    let (b, _) = agg.new_frame_at(T0 + MS);
    assert_eq!(agg.estimate_frame_time(), 12 * MS);
    // stage 1 gets no mark for this frame
    agg.mark(b, StageId(0), stats(MS, 8 * MS));
    agg.finish_frame(b);
    let (_, _) = agg.new_frame_at(T0 + 2 * MS);
    assert_eq!(agg.estimate_frame_time(), 8 * MS);
}

#[test]
fn frame_without_any_mark() {
    let mut agg = aggregator(1);
    let (a, _) = agg.new_frame_at(T0);
    agg.finish_frame(a);
    let (_, t) = agg.new_frame_at(T0 + MS);
    assert_eq!(agg.estimate_frame_time(), 0);
    // no delay was reported: 0.15 * (0 - 2 ms) is taken off, and now wins
    assert_eq!(t, T0 + MS);
}

#[test]
fn ids_are_consecutive() {
    let mut agg = aggregator(1);
    let mut last: Option<FrameId> = None;
    for k in 0..20u64 {
        let (id, _) = agg.new_frame_at(T0 + k * MS);
        if k % 3 == 0 {
            agg.finish_frame(id);
        }
        if let Some(p) = last {
            assert_eq!(id.0, p.0 + 1);
        }
        last = Some(id);
    }
}

#[test]
fn reference_delay_sums_the_stages() {
    let mut agg = aggregator(2);
    let (a, t0) = agg.new_frame_at(T0);
    agg.mark(a, StageId(0), stats(MS, 5 * MS));
    agg.mark(a, StageId(1), stats(3 * MS, 5 * MS));
    agg.finish_frame(a);
    let (_, t1) = agg.new_frame_at(T0);
    // reference 4 ms: the controller adds 0.15 * (4 ms - 2 ms)
    assert_eq!(t1, t0 + 10 * MS + 300_000);
    // the new frame carries that adjustment, which the estimate takes off
    assert_eq!(agg.estimate_delay(), Some(4 * MS - 300_000));
}

#[test]
fn incomplete_frame_blocks_retirement() {
    let mut agg = aggregator(1);
    let (a, _) = agg.new_frame_at(T0);
    let (b, _) = agg.new_frame_at(T0);
    agg.mark(b, StageId(0), stats(7 * MS, 5 * MS));
    agg.finish_frame(b);
    agg.new_frame_at(T0);
    assert_eq!(agg.estimate_delay(), None);
    agg.mark(a, StageId(0), stats(MS, 5 * MS));
    agg.finish_frame(a);
    agg.new_frame_at(T0);
    assert!(agg.estimate_delay().is_some());
    assert_eq!(agg.estimate_frame_time(), 5 * MS);
}

#[test]
fn pairing_errors_are_tolerated() {
    let mut agg = aggregator(1);
    let (a, _) = agg.new_frame_at(T0);
    // unknown frame, stage out of range, duplicate mark, mark after seal
    agg.mark(FrameId(99), StageId(0), stats(MS, MS));
    agg.mark(a, StageId(5), stats(MS, MS));
    agg.mark(a, StageId(0), stats(MS, 6 * MS));
    agg.mark(a, StageId(0), stats(MS, 9 * MS));
    agg.finish_frame(a);
    agg.finish_frame(a);
    agg.finish_frame(FrameId(99));
    agg.new_frame_at(T0);
    assert_eq!(agg.estimate_frame_time(), 6 * MS);
}

#[test]
fn durations_are_clipped() {
    let mut agg = aggregator(1);
    let (a, _) = agg.new_frame_at(T0);
    agg.mark(a, StageId(0), stats(0, 500 * MS));
    agg.finish_frame(a);
    agg.new_frame_at(T0);
    assert_eq!(agg.estimate_frame_time(), 50 * MS);
}

#[test]
fn new_frame_reads_the_clock() {
    let mut agg = aggregator(1);
    let before = latencyflex2_core::time::now();
    let (id, t) = agg.new_frame();
    assert_eq!(id, FrameId(0));
    assert!(t >= before);
}

#[test]
fn next_frame_id_counts_frames() {
    let mut agg = aggregator(3);
    assert_eq!(agg.next_frame_id(), FrameId(0));
    agg.new_frame_at(T0);
    agg.new_frame_at(T0);
    assert_eq!(agg.next_frame_id(), FrameId(2));
}
