//! Bias-corrected exponentially weighted moving average over nanosecond
//! samples, in fixed point.
//!
//! Gains are given in millionths (`GAIN_ONE` stands for 1). The estimator keeps
//! the accumulated weight `w` of its samples and the bias-corrected mean `e`
//! itself: a sample `v` first brings the weight to `w' = (1 - α)·w + α` and then
//! moves the mean by `α/w'` of the gap `v - e`. This is the same average as
//! `value / weight` with `value = (1 - α)·value + α·v`, and the first sample is
//! returned verbatim instead of being biased toward zero.
use vstd::prelude::*;

verus! {

/// A gain of one, in millionths.
pub const GAIN_ONE: u64 = 1_000_000;

/// The weight after one more sample, with gain `a` in millionths.
pub open spec fn next_weight(w: int, a: int) -> int {
    w - w * a / (GAIN_ONE as int) + a
}

/// The mean after sample `v` moved it by `a / w1` of the gap, rounding toward `e`.
pub open spec fn next_estimate(e: int, v: int, a: int, w1: int) -> int {
    if v >= e {
        e + a * (v - e) / w1
    } else {
        e - a * (e - v) / w1
    }
}

/// Weight and mean after feeding the samples of `s` in order.
pub open spec fn fed(a: int, w: int, e: int, s: Seq<u64>) -> (int, int)
    decreases s.len(),
{
    if s.len() == 0 {
        (w, e)
    } else {
        let w1 = next_weight(w, a);
        fed(a, w1, next_estimate(e, s[0] as int, a, w1), s.drop_first())
    }
}

/// What the estimator reports for weight `w` and mean `e`.
pub open spec fn reported(w: int, e: int) -> int {
    if w == 0 {
        0
    } else {
        e
    }
}

pub struct EwmaEstimator {
    current: u64,
    current_weight: u64,
    alpha: u64,
}

impl EwmaEstimator {
    /// The gain, in millionths.
    pub closed spec fn alpha(&self) -> int {
        self.alpha as int
    }

    /// The accumulated weight, in millionths.
    pub closed spec fn weight(&self) -> int {
        self.current_weight as int
    }

    /// The bias-corrected mean.
    pub closed spec fn estimate(&self) -> int {
        self.current as int
    }

    pub open spec fn wf(&self) -> bool {
        0 < self.alpha() <= GAIN_ONE && 0 <= self.weight() <= GAIN_ONE && 0 <= self.estimate()
            <= u64::MAX
    }

    pub open spec fn spec_get(&self) -> int {
        reported(self.weight(), self.estimate())
    }

    pub fn new(alpha: u64) -> (r: EwmaEstimator)
        requires
            0 < alpha <= GAIN_ONE,
        ensures
            r.wf(),
            r.alpha() == alpha,
            r.weight() == 0,
            r.estimate() == 0,
    {
        EwmaEstimator { current: 0, current_weight: 0, alpha }
    }

    pub fn update(&mut self, v: u64)
        requires
            old(self).wf(),
        ensures
            final(self).wf(),
            final(self).alpha() == old(self).alpha(),
            final(self).weight() == next_weight(old(self).weight(), old(self).alpha()),
            final(self).estimate() == next_estimate(
                old(self).estimate(),
                v as int,
                old(self).alpha(),
                final(self).weight(),
            ),
    {
        let a = self.alpha;
        let w = self.current_weight;
        assert(w * a <= GAIN_ONE * GAIN_ONE) by (nonlinear_arith)
            requires
                w <= GAIN_ONE,
                a <= GAIN_ONE,
        ;
        let decay = w * a / GAIN_ONE;
        proof {
            lemma_weight_step(w as int, a as int);
        }
        let w1 = w - decay + a;
        let e = self.current;
        let e1 = if v >= e {
            let gap = (v - e);
            assert((a as int) * (gap as int) <= (GAIN_ONE as int) * (u64::MAX as int)) by (nonlinear_arith)
                requires
                    0 <= a <= GAIN_ONE,
                    0 <= gap <= u64::MAX,
            ;
            let step = (a as u128) * ((v - e) as u128) / (w1 as u128);
            proof {
                lemma_step_within_gap(a as int, (v - e) as int, w1 as int);
            }
            e + step as u64
        } else {
            let gap = (e - v);
            assert((a as int) * (gap as int) <= (GAIN_ONE as int) * (u64::MAX as int)) by (nonlinear_arith)
                requires
                    0 <= a <= GAIN_ONE,
                    0 <= gap <= u64::MAX,
            ;
            let step = (a as u128) * ((e - v) as u128) / (w1 as u128);
            proof {
                lemma_step_within_gap(a as int, (e - v) as int, w1 as int);
            }
            e - step as u64
        };
        self.current_weight = w1;
        self.current = e1;
    }

    pub fn get(&self) -> (r: u64)
        ensures
            r == self.spec_get(),
    {
        if self.current_weight == 0 {
            0
        } else {
            self.current
        }
    }
}

proof fn lemma_weight_step(w: int, a: int)
    requires
        0 <= w <= GAIN_ONE,
        0 < a <= GAIN_ONE,
    ensures
        0 <= w * a / (GAIN_ONE as int) <= w,
        a <= next_weight(w, a) <= GAIN_ONE,
{
    let one = GAIN_ONE as int;
    assert(0 <= w * a <= w * one) by (nonlinear_arith)
        requires
            0 <= w,
            0 < a <= one,
    ;
    assert(w * a / one <= w) by (nonlinear_arith)
        requires
            0 <= w * a <= w * one,
            one > 0,
    ;
    assert(w * a / one >= 0) by (nonlinear_arith)
        requires
            0 <= w * a,
            one > 0,
    ;
    assert((one - w) * (one - a) >= 0) by (nonlinear_arith)
        requires
            w <= one,
            a <= one,
    ;
    assert(w * a >= (w - one + a) * one) by (nonlinear_arith)
        requires
            (one - w) * (one - a) >= 0,
    ;
    assert(w * a / one >= w - one + a) by (nonlinear_arith)
        requires
            w * a >= (w - one + a) * one,
            one > 0,
    ;
}

proof fn lemma_step_within_gap(a: int, gap: int, w1: int)
    requires
        0 < a <= w1,
        0 <= gap,
    ensures
        0 <= a * gap / w1 <= gap,
{
    assert(0 <= a * gap <= w1 * gap) by (nonlinear_arith)
        requires
            0 < a <= w1,
            0 <= gap,
    ;
    assert(a * gap / w1 <= gap) by (nonlinear_arith)
        requires
            a * gap <= w1 * gap,
            w1 > 0,
    ;
    assert(a * gap / w1 >= 0) by (nonlinear_arith)
        requires
            a * gap >= 0,
            w1 > 0,
    ;
}

proof fn lemma_steady_at_sample(a: int, w: int, d: int, s: Seq<u64>)
    requires
        0 < a <= GAIN_ONE,
        0 <= w <= GAIN_ONE,
        forall|i: int| 0 <= i < s.len() ==> s[i] == d,
    ensures
        fed(a, w, d, s).1 == d,
        s.len() > 0 ==> fed(a, w, d, s).0 > 0,
        w > 0 ==> fed(a, w, d, s).0 > 0,
    decreases s.len(),
{
    if s.len() > 0 {
        lemma_weight_step(w, a);
        let w1 = next_weight(w, a);
        assert(a * 0 / w1 == 0) by (nonlinear_arith)
            requires
                w1 > 0,
        ;
        let rest = s.drop_first();
        assert forall|i: int| 0 <= i < rest.len() implies rest[i] == d by {
            assert(rest[i] == s[i + 1]);
        }
        lemma_steady_at_sample(a, w1, d, rest);
    }
}

/// A stream of identical samples `d` fed to a fresh estimator is reported as
/// exactly `d` from the first sample on.
pub proof fn lemma_constant_stream_is_exact(alpha: int, s: Seq<u64>, d: u64)
    requires
        0 < alpha <= GAIN_ONE,
        s.len() > 0,
        forall|i: int| 0 <= i < s.len() ==> s[i] == d,
    ensures
        reported(fed(alpha, 0, 0, s).0, fed(alpha, 0, 0, s).1) == d,
{
    let w1 = next_weight(0, alpha);
    assert(w1 == alpha);
    lemma_step_within_gap(alpha, d as int, alpha);
    assert(alpha * (d as int) / alpha == d) by (nonlinear_arith)
        requires
            alpha > 0,
    ;
    let rest = s.drop_first();
    assert forall|i: int| 0 <= i < rest.len() implies rest[i] == d by {
        assert(rest[i] == s[i + 1]);
    }
    lemma_steady_at_sample(alpha, w1, d as int, rest);
}

} // verus!
