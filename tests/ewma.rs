use latencyflex2_core::ewma::{EwmaEstimator, GAIN_ONE};

#[test]
fn fresh_estimator_reports_zero() {
    let e = EwmaEstimator::new(300_000);
    assert_eq!(e.get(), 0);
}

#[test]
fn first_sample_is_returned_verbatim() {
    let mut e = EwmaEstimator::new(300_000);
    e.update(8_000_000);
    assert_eq!(e.get(), 8_000_000);
}

#[test]
fn second_sample_is_weighted() {
    // weight 0.3 then 0.51; the mean moves by 0.3 / 0.51 of the gap
    let mut e = EwmaEstimator::new(300_000);
    e.update(0);
    e.update(510);
    assert_eq!(e.get(), 300);
}

#[test]
fn constant_stream_converges() {
    let d: u64 = 10_000_000;
    let mut e = EwmaEstimator::new(300_000);
    for _ in 0..30 {
        e.update(d);
    }
    let got = e.get();
    let diff = if got > d { got - d } else { d - got };
    assert!(diff * 20 <= d);
    assert_eq!(got, d);
}

#[test]
fn converges_after_a_step() {
    let mut e = EwmaEstimator::new(300_000);
    e.update(1_000_000);
    for _ in 0..30 {
        e.update(2_000_000);
    }
    let got = e.get();
    assert!(got <= 2_000_000 && got >= 1_900_000);
}

#[test]
fn full_gain_follows_the_last_sample() {
    let mut e = EwmaEstimator::new(GAIN_ONE);
    e.update(5);
    e.update(9);
    assert_eq!(e.get(), 9);
}
