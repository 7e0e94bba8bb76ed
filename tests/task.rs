use latencyflex2_core::{FrameStageStats, TaskAccumulator, TaskStats};

const MS: u64 = 1_000_000;

fn rec(queued: u64, start: u64, end: u64) -> TaskStats {
    TaskStats { queued, start, end }
}

#[test]
fn task_delay_is_start_minus_queued() {
    assert_eq!(rec(5, 12, 20).delay(), 7);
    assert_eq!(rec(12, 5, 20).delay(), 0);
}

#[test]
fn fresh_accumulator_reports_zero() {
    let acc = TaskAccumulator::new();
    assert_eq!(acc.stats(), FrameStageStats { delay: 0, duration: 0 });
    assert_eq!(TaskAccumulator::default(), acc);
}

#[test]
fn single_submission() {
    let mut acc = TaskAccumulator::new();
    acc.accumulate(&rec(0, MS, 3 * MS));
    assert_eq!(acc.stats(), FrameStageStats { delay: MS, duration: 3 * MS });
    assert_eq!(acc.last_finish, 3 * MS);
}

#[test]
fn delay_is_the_minimum() {
    let mut acc = TaskAccumulator::new();
    acc.accumulate(&rec(0, 5, 10));
    acc.accumulate(&rec(20, 22, 30));
    acc.accumulate(&rec(40, 47, 50));
    assert_eq!(acc.stats().delay, 2);
}

#[test]
fn delay_order_independent() {
    let a = rec(0, 5, 10);
    let b = rec(20, 22, 30);
    let mut x = TaskAccumulator::new();
    x.accumulate(&a);
    x.accumulate(&b);
    let mut y = TaskAccumulator::new();
    y.accumulate(&b);
    y.accumulate(&a);
    assert_eq!(x.stats().delay, y.stats().delay);
}

#[test]
fn disjoint_submissions_add_their_busy_times() {
    let mut acc = TaskAccumulator::new();
    acc.accumulate(&rec(10, 12, 20));
    acc.accumulate(&rec(30, 31, 35));
    assert_eq!(acc.stats().duration, 10 + 5);
}

#[test]
fn overlapping_submissions_are_counted_once() {
    let mut acc = TaskAccumulator::new();
    acc.accumulate(&rec(0, 1, 10));
    acc.accumulate(&rec(5, 10, 15));
    acc.accumulate(&rec(12, 15, 18));
    // span from the first queued to the latest end
    assert_eq!(acc.stats().duration, 18);
}

#[test]
fn contained_submission_adds_nothing() {
    let mut acc = TaskAccumulator::new();
    acc.accumulate(&rec(0, 1, 10));
    acc.accumulate(&rec(2, 3, 5));
    acc.accumulate(&rec(6, 10, 12));
    assert_eq!(acc.stats().duration, 12);
    assert_eq!(acc.last_finish, 12);
}

#[test]
fn reset_keeps_last_finish() {
    let mut acc = TaskAccumulator::new();
    acc.accumulate(&rec(0, 1, 10));
    acc.reset();
    assert_eq!(acc.stats(), FrameStageStats { delay: 0, duration: 0 });
    assert_eq!(acc.last_finish, 10);
    // a submission that straddles the frame boundary counts only from there
    acc.accumulate(&rec(8, 10, 14));
    assert_eq!(acc.stats(), FrameStageStats { delay: 2, duration: 4 });
}

#[test]
fn duration_saturates() {
    let mut acc = TaskAccumulator::new();
    acc.duration = u64::MAX - 1;
    acc.accumulate(&rec(0, 0, 10));
    assert_eq!(acc.stats().duration, u64::MAX);
}
