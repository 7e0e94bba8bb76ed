use latencyflex2_core::time::{
    next_sleep_step, now, timestamp_from_counter, timestamp_from_gpu, timestamp_from_vulkan,
    GpuCalibration, SleepStep, MIN_SPIN,
};

#[test]
fn clock_does_not_go_back() {
    let a = now();
    let b = now();
    assert!(a > 0);
    assert!(b >= a);
}

#[test]
fn sleep_steps() {
    assert_eq!(next_sleep_step(100, 100), SleepStep::Done);
    assert_eq!(next_sleep_step(200, 100), SleepStep::Done);
    assert_eq!(next_sleep_step(0, 2 * MIN_SPIN), SleepStep::Wait(MIN_SPIN));
    assert_eq!(next_sleep_step(0, MIN_SPIN), SleepStep::Spin);
    assert_eq!(next_sleep_step(0, 1), SleepStep::Spin);
}

#[test]
fn stepping_to_a_deadline_never_returns_early() {
    // walk the steps with a clock that advances by what each step takes
    let start: u64 = 1_000;
    let target = start + 3 * MIN_SPIN + 17;
    let mut t = start;
    loop {
        match next_sleep_step(t, target) {
            SleepStep::Done => break,
            SleepStep::Wait(d) => t += d,
            SleepStep::Spin => t += 7,
        }
    }
    assert!(t >= target);
    assert!(t < target + 7);
}

#[test]
fn counter_conversion() {
    assert_eq!(timestamp_from_counter(10_000_000, 10_000_000), 1_000_000_000);
    assert_eq!(timestamp_from_counter(3, 10_000_000), 300);
    assert_eq!(timestamp_from_counter(1, 3), 333_333_333);
    assert_eq!(timestamp_from_counter(25_000_001, 10_000_000), 2_500_000_100);
}

#[test]
fn vulkan_domain_is_the_monotonic_clock() {
    assert_eq!(timestamp_from_vulkan(123_456), 123_456);
}

#[test]
fn gpu_counter_wraps_within_its_width() {
    // a 36-bit counter that wrapped after calibration
    let cal = GpuCalibration {
        gpu_raw: (1u64 << 36) - 10,
        cpu_raw: 1_000,
        valid_bits: 36,
        period_num: 1,
        period_den: 1,
    };
    assert_eq!(timestamp_from_gpu(5, &cal), Some(1_015));
    // a reading before the calibration point
    assert_eq!(timestamp_from_gpu((1u64 << 36) - 20, &cal), Some(990));
}

#[test]
fn gpu_ticks_are_scaled_toward_zero() {
    let cal = GpuCalibration { gpu_raw: 100, cpu_raw: 1_000, valid_bits: 64, period_num: 10, period_den: 3 };
    assert_eq!(timestamp_from_gpu(110, &cal), Some(1_033));
    assert_eq!(timestamp_from_gpu(90, &cal), Some(967));
}
