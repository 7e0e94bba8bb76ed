//! Monotonic timestamps, the decisions of the hybrid sleep, and conversion of
//! platform and GPU counters to host time.
use vstd::arithmetic::div_mod::{
    lemma_fundamental_div_mod, lemma_fundamental_div_mod_converse, lemma_mod_pos_bound,
};
use vstd::arithmetic::power2::{
    lemma2_to64, lemma_pow2_pos, lemma_pow2_strictly_increases, lemma_pow2_unfold, pow2,
};
use vstd::prelude::*;

use nix::sys::time::TimeValLike;
use nix::sys::time::TimeSpec;
use nix::time::{clock_gettime, clock_nanosleep, ClockId, ClockNanosleepFlags};

use crate::{Interval, Timestamp};

verus! {

/// Below this distance to the deadline, a sleeper spins instead of waiting on
/// a timer.
pub const MIN_SPIN: Interval = 500_000;

/// Nanoseconds in a second.
pub const NANOS_PER_SECOND: u64 = 1_000_000_000;

/// Relies on nix::time::clock_gettime on CLOCK_MONOTONIC: the clock's reading
/// in nanoseconds, or `None` where the call fails.
#[verifier::external_body]
fn monotonic_clock() -> (r: Option<u64>) {
    match clock_gettime(ClockId::CLOCK_MONOTONIC) {
        Ok(ts) => Some(ts.num_nanoseconds() as u64),
        Err(_) => None,
    }
}

/// Relies on nix::time::clock_nanosleep with relative time on CLOCK_MONOTONIC:
/// blocks the calling thread for about `ns` nanoseconds.
#[verifier::external_body]
pub(crate) fn pause(ns: u64) {
    let _ = clock_nanosleep(
        ClockId::CLOCK_MONOTONIC,
        ClockNanosleepFlags::empty(),
        &TimeSpec::from_duration(std::time::Duration::from_nanos(ns)),
    );
}

/// The current monotonic time in nanoseconds; zero where the clock cannot be
/// read.
pub fn now() -> (r: Timestamp) {
    match monotonic_clock() {
        Some(t) => t,
        None => 0,
    }
}

/// What a sleeper does next on its way to a deadline.
#[derive(Clone, Copy, Debug, PartialEq, Eq, Structural)]
pub enum SleepStep {
    /// The deadline has passed: return.
    Done,
    /// Wait on a timer for this long, then look again.
    Wait(Interval),
    /// Busy-wait with a pause hint, then look again.
    Spin,
}

/// The step a sleeper takes at time `now` toward `target`: a timer wait that
/// ends `MIN_SPIN` before the deadline while it is further away than that,
/// then spinning, and done once the deadline is reached.
pub open spec fn sleep_step(now: int, target: int) -> SleepStep {
    if now >= target {
        SleepStep::Done
    } else if now + MIN_SPIN < target {
        SleepStep::Wait((target - now - MIN_SPIN) as u64)
    } else {
        SleepStep::Spin
    }
}

/// Decides the next step of `sleep_until(target)` at time `now`. A sleeper
/// that returns only on `Done` never returns before its deadline, and no timer
/// wait reaches past `target - MIN_SPIN`.
pub fn next_sleep_step(now: Timestamp, target: Timestamp) -> (r: SleepStep)
    ensures
        r == sleep_step(now as int, target as int),
        r == SleepStep::Done <==> now >= target,
        r is Wait ==> now + r->Wait_0 + MIN_SPIN == target,
{
    if now >= target {
        SleepStep::Done
    } else if target - now > MIN_SPIN {
        SleepStep::Wait(target - now - MIN_SPIN)
    } else {
        SleepStep::Spin
    }
}

/// Converts a reading `raw` of a counter that ticks `frequency` times per
/// second to nanoseconds, rounding down.
pub fn timestamp_from_counter(raw: u64, frequency: u64) -> (r: Timestamp)
    requires
        frequency > 0,
        (raw as int) * (NANOS_PER_SECOND as int) / (frequency as int) <= u64::MAX,
    ensures
        r == (raw as int) * (NANOS_PER_SECOND as int) / (frequency as int),
{
    let whole = raw / frequency;
    let rest = raw % frequency;
    proof {
        lemma_fundamental_div_mod(raw as int, frequency as int);
        lemma_mod_pos_bound(raw as int, frequency as int);
        assert((rest as int) * (NANOS_PER_SECOND as int) <= (u64::MAX as int) * (
        NANOS_PER_SECOND as int)) by (nonlinear_arith)
            requires
                0 <= rest <= u64::MAX,
        ;
    }
    let part = (rest as u128) * (NANOS_PER_SECOND as u128) / (frequency as u128);
    proof {
        let d = NANOS_PER_SECOND as int;
        let f = frequency as int;
        let q = whole as int;
        let r = rest as int;
        let q2 = (r * d) / f;
        let r2 = (r * d) % f;
        assert(raw as int == q * f + r) by (nonlinear_arith)
            requires
                raw as int == f * q + r,
        ;
        assert(r * d == q2 * f + r2 && 0 <= r2 < f) by {
            lemma_fundamental_div_mod(r * d, f);
            lemma_mod_pos_bound(r * d, f);
        }
        assert((raw as int) * d == (q * d + q2) * f + r2) by (nonlinear_arith)
            requires
                raw as int == q * f + r,
                r * d == q2 * f + r2,
        ;
        lemma_fundamental_div_mod_converse((raw as int) * d, f, q * d + q2, r2);
        assert(0 <= q2 <= d) by (nonlinear_arith)
            requires
                0 <= r < f,
                q2 == (r * d) / f,
                d > 0,
        ;
    }
    assert((whole as int) * (NANOS_PER_SECOND as int) <= u64::MAX);
    whole * NANOS_PER_SECOND + part as u64
}

/// Converts a host timestamp read through Vulkan's calibrated-timestamp query
/// to this library's clock. On this platform both are the monotonic clock.
pub fn timestamp_from_vulkan(calibration: u64) -> (r: Timestamp)
    ensures
        r == calibration,
{
    calibration
}

/// A GPU/host clock pair sampled together by the driver, with the GPU tick
/// length and the number of valid bits of the GPU counter.
#[derive(Clone, Copy, Debug, PartialEq, Eq, Structural)]
pub struct GpuCalibration {
    /// GPU counter at the moment of calibration.
    pub gpu_raw: u64,
    /// Host time at the same moment.
    pub cpu_raw: Timestamp,
    /// Width of the GPU counter, from 1 to 64 bits.
    pub valid_bits: u32,
    /// Nanoseconds per GPU tick, as the ratio `period_num / period_den`.
    pub period_num: u64,
    pub period_den: u64,
}

impl GpuCalibration {
    pub open spec fn wf(self) -> bool {
        1 <= self.valid_bits <= 64 && self.period_den > 0
    }
}

/// `x` read as a two's-complement number of `bits` bits.
pub open spec fn sign_extended(x: int, bits: nat) -> int {
    let m = x % (pow2(bits) as int);
    if m >= pow2(bits) / 2 {
        m - pow2(bits)
    } else {
        m
    }
}

/// `a / b` rounded toward zero.
pub open spec fn div_toward_zero(a: int, b: int) -> int {
    if a >= 0 {
        a / b
    } else {
        -((-a) / b)
    }
}

/// `a - b` on 64-bit counters that wrap around.
pub open spec fn wrapping_distance(a: u64, b: u64) -> int {
    if a >= b {
        a - b
    } else {
        a - b + pow2(64)
    }
}

/// Host time of GPU counter value `ticks`: the tick distance from the
/// calibration point (modulo the counter width, signed) scaled by the tick
/// length and added to the host side of the calibration.
pub open spec fn gpu_to_host(ticks: u64, cal: GpuCalibration) -> int {
    let delta = sign_extended(wrapping_distance(ticks, cal.gpu_raw), cal.valid_bits as nat);
    cal.cpu_raw + div_toward_zero(delta * cal.period_num, cal.period_den as int)
}

/// Converts GPU counter value `ticks` to host time; `None` where the result
/// falls outside the range of a timestamp.
pub fn timestamp_from_gpu(ticks: u64, cal: &GpuCalibration) -> (r: Option<Timestamp>)
    requires
        cal.wf(),
    ensures
        0 <= gpu_to_host(ticks, *cal) <= u64::MAX ==> r == Some(gpu_to_host(ticks, *cal) as u64),
        !(0 <= gpu_to_host(ticks, *cal) <= u64::MAX) ==> r is None,
{
    proof {
        lemma2_to64();
    }
    let mut modulus: u128 = 1;
    let mut i: u32 = 0;
    while i < cal.valid_bits
        invariant
            i <= cal.valid_bits <= 64,
            modulus == pow2(i as nat),
            pow2(64) == 0x10000000000000000,
        decreases cal.valid_bits - i,
    {
        proof {
            lemma_pow2_unfold((i + 1) as nat);
            if i + 1 < 64 {
                lemma_pow2_strictly_increases((i + 1) as nat, 64);
            }
        }
        modulus = modulus * 2;
        i = i + 1;
    }
    proof {
        lemma_pow2_unfold(cal.valid_bits as nat);
        lemma_pow2_pos((cal.valid_bits - 1) as nat);
        if cal.valid_bits < 64 {
            lemma_pow2_strictly_increases(cal.valid_bits as nat, 64);
        }
    }
    let distance: u128 = if ticks >= cal.gpu_raw {
        (ticks - cal.gpu_raw) as u128
    } else {
        (ticks as u128) + 0x10000000000000000u128 - (cal.gpu_raw as u128)
    };
    let m: u128 = distance % modulus;
    let half: u128 = modulus / 2;
    let delta: i128 = if m >= half {
        (m as i128) - (modulus as i128)
    } else {
        m as i128
    };
    let bound: i128 = 0x8000000000000000i128;
    assert(-bound <= delta <= bound);
    let num = cal.period_num as i128;
    let den = cal.period_den as i128;
    let scaled: i128 = if delta >= 0 {
        assert((delta as int) * (num as int) <= (bound as int) * (u64::MAX as int)) by (nonlinear_arith)
            requires
                0 <= delta <= bound,
                0 <= num <= u64::MAX,
        ;
        delta * num / den
    } else {
        let magnitude = -delta;
        assert((magnitude as int) * (num as int) <= (bound as int) * (u64::MAX as int)) by (nonlinear_arith)
            requires
                0 <= magnitude <= bound,
                0 <= num <= u64::MAX,
        ;
        assert((-delta) * num == -(delta * num)) by (nonlinear_arith);
        -(magnitude * num / den)
    };
    if scaled > 0xFFFFFFFFFFFFFFFFi128 || scaled < -0xFFFFFFFFFFFFFFFFi128 {
        return None;
    }
    let host = (cal.cpu_raw as i128) + scaled;
    if host < 0 || host > 0xFFFFFFFFFFFFFFFFi128 {
        None
    } else {
        Some(host as u64)
    }
}

} // verus!
