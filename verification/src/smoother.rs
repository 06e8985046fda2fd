//! Exponential-moving-average smoothing of the raw temperature samples.
//!
//! The filter keeps one value of state: the previous smoothed output. The
//! weight of the newest sample is the coefficient `alpha / ALPHA_SCALE`,
//! derived once at startup from the update interval and the configured
//! smoothing time constant.

use vstd::arithmetic::div_mod::{
    lemma_div_is_ordered, lemma_div_multiples_vanish, lemma_fundamental_div_mod,
};
use vstd::prelude::*;

use crate::numeric::{floor_div, in_range};

verus! {

/// Scale of the smoothing coefficient: an `alpha` equal to `ALPHA_SCALE`
/// weights the newest sample fully.
pub const ALPHA_SCALE: i64 = 1_000_000;

/// One exponential-moving-average step: the new sample weighted by
/// `alpha / ALPHA_SCALE`, the previous output by the remaining weight, the
/// result rounded toward negative infinity.
pub open spec fn ema_step(alpha: int, prev: int, sample: int) -> int {
    (alpha * sample + (ALPHA_SCALE - alpha) * prev) / (ALPHA_SCALE as int)
}

/// EMA filter state: the smoothing coefficient and the previous smoothed
/// output, absent before the first sample.
pub struct Smoother {
    pub alpha: i64,
    pub prev: Option<i64>,
}

impl Smoother {
    /// A usable filter: coefficient within scale, retained state in range.
    pub open spec fn wf(&self) -> bool {
        &&& 0 <= self.alpha <= ALPHA_SCALE
        &&& match self.prev {
            Some(p) => in_range(p as int),
            None => true,
        }
    }

    /// The output the next sample will produce: the sample itself on the
    /// first update, one EMA step from the previous output afterwards.
    pub open spec fn next_output(&self, sample: int) -> int {
        match self.prev {
            None => sample,
            Some(p) => ema_step(self.alpha as int, p as int, sample),
        }
    }

    /// A fresh filter with no retained state.
    pub fn new(alpha: i64) -> (s: Smoother)
        requires
            0 <= alpha <= ALPHA_SCALE,
        ensures
            s.wf(),
            s.alpha == alpha,
            s.prev is None,
    {
        Smoother { alpha, prev: None }
    }

    /// Feed one raw sample and return the smoothed output. The first output
    /// equals the first sample exactly; every later output is one EMA step
    /// from the previous output, and the new output becomes the state.
    pub fn update(&mut self, sample: i64) -> (out: i64)
        requires
            old(self).wf(),
            in_range(sample as int),
        ensures
            final(self).wf(),
            final(self).alpha == old(self).alpha,
            final(self).prev == Some(out),
            out as int == old(self).next_output(sample as int),
            in_range(out as int),
    {
        let out: i64 = match self.prev {
            None => sample,
            Some(p) => {
                proof {
                    lemma_ema_step_bounds(self.alpha as int, p as int, sample as int);
                    assert(-2_000_000_000_000_000 <= self.alpha * sample
                        <= 2_000_000_000_000_000 && -2_000_000_000_000_000 <= (ALPHA_SCALE
                        - self.alpha) * p <= 2_000_000_000_000_000) by (nonlinear_arith)
                        requires
                            0 <= self.alpha <= 1_000_000,
                            ALPHA_SCALE == 1_000_000i64,
                            -1_000_000_000 <= sample <= 1_000_000_000,
                            -1_000_000_000 <= p <= 1_000_000_000,
                    ;
                }
                let num = self.alpha * sample + (ALPHA_SCALE - self.alpha) * p;
                floor_div(num, ALPHA_SCALE)
            },
        };
        self.prev = Some(out);
        out
    }
}

/// An EMA step lands between its two inputs.
pub proof fn lemma_ema_step_bounds(alpha: int, prev: int, sample: int)
    requires
        0 <= alpha <= ALPHA_SCALE,
    ensures
        prev <= sample ==> prev <= ema_step(alpha, prev, sample) <= sample,
        sample <= prev ==> sample <= ema_step(alpha, prev, sample) <= prev,
{
    let k = ALPHA_SCALE as int;
    let num = alpha * sample + (k - alpha) * prev;
    lemma_div_multiples_vanish(prev, k);
    lemma_div_multiples_vanish(sample, k);
    if prev <= sample {
        assert(k * prev <= num && num <= k * sample) by (nonlinear_arith)
            requires
                0 <= alpha <= k,
                prev <= sample,
                num == alpha * sample + (k - alpha) * prev,
        ;
        lemma_div_is_ordered(k * prev, num, k);
        lemma_div_is_ordered(num, k * sample, k);
    } else {
        assert(k * sample <= num && num <= k * prev) by (nonlinear_arith)
            requires
                0 <= alpha <= k,
                sample <= prev,
                num == alpha * sample + (k - alpha) * prev,
        ;
        lemma_div_is_ordered(k * sample, num, k);
        lemma_div_is_ordered(num, k * prev, k);
    }
}

/// Convergence toward a constant sample: an output already equal to the
/// sample is reproduced exactly; otherwise the new output stays between the
/// previous output and the sample, and its distance to the sample shrinks by
/// the factor `1 - alpha / ALPHA_SCALE`, up to one unit of rounding.
pub proof fn lemma_ema_converges_to_constant(alpha: int, prev: int, sample: int)
    requires
        0 <= alpha <= ALPHA_SCALE,
    ensures
        prev == sample ==> ema_step(alpha, prev, sample) == sample,
        prev <= sample ==> prev <= ema_step(alpha, prev, sample) <= sample,
        sample <= prev ==> sample <= ema_step(alpha, prev, sample) <= prev,
        prev >= sample ==> ALPHA_SCALE * (ema_step(alpha, prev, sample) - sample) <= (
        ALPHA_SCALE - alpha) * (prev - sample),
        prev <= sample ==> ALPHA_SCALE * (sample - ema_step(alpha, prev, sample)) <= (
        ALPHA_SCALE - alpha) * (sample - prev) + ALPHA_SCALE - 1,
{
    let k = ALPHA_SCALE as int;
    let c = k - alpha;
    let num = alpha * sample + c * prev;
    let e = ema_step(alpha, prev, sample);
    lemma_ema_step_bounds(alpha, prev, sample);
    lemma_fundamental_div_mod(num, k);
    let r = num % k;
    assert((prev >= sample ==> k * (e - sample) <= c * (prev - sample)) && (prev <= sample
        ==> k * (sample - e) <= c * (sample - prev) + k - 1)) by (nonlinear_arith)
        requires
            num == alpha * sample + c * prev,
            num == k * e + r,
            0 <= r < k,
            c == k - alpha,
            0 <= alpha <= k,
            k == 1_000_000,
    ;
    if prev == sample {
        lemma_div_multiples_vanish(sample, k);
        assert(num == k * sample) by (nonlinear_arith)
            requires
                num == alpha * sample + (k - alpha) * prev,
                prev == sample,
        ;
    }
}

} // verus!
