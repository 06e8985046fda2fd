//! Temperature-to-duty control profiles and piecewise-linear interpolation.
//!
//! A profile is an ordered, non-empty list of breakpoints. Interpolation
//! scans the breakpoints in order, keeping the last breakpoint at or below
//! the current temperature and stopping at the first one above it, then
//! interpolates linearly between the two; temperatures outside the profile's
//! range are clamped to the nearest endpoint's duty, never extrapolated.

use vstd::arithmetic::div_mod::{
    lemma_div_is_ordered, lemma_div_multiples_vanish, lemma_div_pos_is_pos,
};
use vstd::arithmetic::mul::lemma_mul_inequality;
use vstd::prelude::*;

use crate::numeric::{floor_div, in_range};

verus! {

/// One breakpoint of a control profile: a temperature and the duty the
/// actuator should run at, both in thousandths of a unit.
#[derive(Clone, Copy, PartialEq, Eq, Structural, Debug)]
pub struct Step {
    pub temp: i64,
    pub speed: i64,
}

/// An ordered sequence of breakpoints defining a piecewise-linear curve.
pub struct Profile {
    pub steps: Vec<Step>,
}

/// Both coordinates of a breakpoint lie in the fixed-point working range.
pub open spec fn step_in_range(s: Step) -> bool {
    in_range(s.temp as int) && in_range(s.speed as int)
}

impl Profile {
    /// A usable profile: at least one breakpoint, every coordinate in range.
    pub open spec fn wf(&self) -> bool {
        &&& self.steps@.len() >= 1
        &&& forall|i: int| 0 <= i < self.steps@.len() ==> step_in_range(#[trigger] self.steps@[i])
    }
}

/// Index of the first breakpoint at position `i` or later whose temperature
/// exceeds `t`; the sequence's length when none does.
pub open spec fn first_above_from(s: Seq<Step>, t: int, i: int) -> int
    decreases s.len() - i,
{
    if i >= s.len() {
        s.len() as int
    } else if s[i].temp > t {
        i
    } else {
        first_above_from(s, t, i + 1)
    }
}

/// Index of the first breakpoint whose temperature exceeds `t`.
pub open spec fn first_above(s: Seq<Step>, t: int) -> int {
    first_above_from(s, t, 0)
}

/// Exact linear interpolation between two breakpoints at temperature `t`,
/// with the quotient rounded toward negative infinity.
pub open spec fn seg_interp(lo: Step, hi: Step, t: int) -> int {
    lo.speed + (t - lo.temp) * (hi.speed - lo.speed) / (hi.temp - lo.temp)
}

/// The duty the interpolation algorithm yields for temperature `t`: the
/// breakpoint scan tracks the last breakpoint at or below `t` and the first
/// one above it; when both ends of the bracket coincide (temperature at or
/// beyond the profile's range) the bracketing breakpoint's duty is returned
/// unchanged, otherwise the two breakpoints are interpolated linearly.
pub open spec fn interp_at(s: Seq<Step>, t: int) -> int
    recommends
        s.len() >= 1,
{
    let k = first_above(s, t);
    if k == s.len() {
        s[s.len() - 1].speed as int
    } else if k == 0 {
        s[0].speed as int
    } else {
        seg_interp(s[k - 1], s[k], t)
    }
}

proof fn lemma_first_above_from_props(s: Seq<Step>, t: int, i: int)
    requires
        0 <= i <= s.len(),
    ensures
        i <= first_above_from(s, t, i) <= s.len(),
        forall|j: int| i <= j < first_above_from(s, t, i) ==> #[trigger] s[j].temp <= t,
        first_above_from(s, t, i) < s.len() ==> s[first_above_from(s, t, i)].temp > t,
    decreases s.len() - i,
{
    if i < s.len() && !(s[i].temp > t) {
        lemma_first_above_from_props(s, t, i + 1);
    }
}

/// The defining properties of `first_above`: every earlier breakpoint's
/// temperature is at most `t`, and the indexed breakpoint (when any) is the
/// first one strictly above `t`.
pub proof fn lemma_first_above_props(s: Seq<Step>, t: int)
    ensures
        0 <= first_above(s, t) <= s.len(),
        forall|j: int| 0 <= j < first_above(s, t) ==> #[trigger] s[j].temp <= t,
        first_above(s, t) < s.len() ==> s[first_above(s, t)].temp > t,
{
    lemma_first_above_from_props(s, t, 0);
}

/// Scaling a quantity `n` by a proper fraction `x / d` keeps the result
/// between zero and `n`, whatever the sign of `n`.
proof fn lemma_scale_fraction_bounds(x: int, n: int, d: int)
    requires
        0 <= x < d,
    ensures
        n >= 0 ==> 0 <= x * n / d <= n,
        n <= 0 ==> n <= x * n / d <= 0,
{
    lemma_div_multiples_vanish(n, d);
    if n >= 0 {
        assert(0 <= x * n) by (nonlinear_arith)
            requires
                0 <= x,
                0 <= n,
        ;
        lemma_div_pos_is_pos(x * n, d);
        lemma_mul_inequality(x, d, n);
        lemma_div_is_ordered(x * n, d * n, d);
    } else {
        lemma_mul_inequality(x, d, -n);
        assert(d * n <= x * n && x * n <= 0) by (nonlinear_arith)
            requires
                0 <= x < d,
                n <= 0,
                x * (-n) <= d * (-n),
        ;
        lemma_div_is_ordered(d * n, x * n, d);
        lemma_div_is_ordered(x * n, 0, d);
        assert(0int / d == 0) by {
            lemma_div_multiples_vanish(0, d);
        }
    }
}

/// A bracketed interpolation stays between its two breakpoints' duties.
pub proof fn lemma_seg_interp_bounds(lo: Step, hi: Step, t: int)
    requires
        lo.temp <= t < hi.temp,
    ensures
        lo.speed <= hi.speed ==> lo.speed <= seg_interp(lo, hi, t) <= hi.speed,
        hi.speed <= lo.speed ==> hi.speed <= seg_interp(lo, hi, t) <= lo.speed,
{
    lemma_scale_fraction_bounds(t - lo.temp, hi.speed - lo.speed, hi.temp - lo.temp);
}

/// Whatever the temperature, the interpolated duty lies between the duties
/// of the two breakpoints that bracket it, so it stays in range whenever the
/// profile's breakpoints do.
pub proof fn lemma_interp_at_in_range(s: Seq<Step>, t: int)
    requires
        s.len() >= 1,
        forall|i: int| 0 <= i < s.len() ==> step_in_range(#[trigger] s[i]),
    ensures
        in_range(interp_at(s, t)),
{
    lemma_first_above_props(s, t);
    let k = first_above(s, t);
    if 0 < k < s.len() {
        lemma_seg_interp_bounds(s[k - 1], s[k], t);
    }
}

/// Degenerate profile: with a single breakpoint the interpolator returns
/// that breakpoint's duty for every input temperature.
pub proof fn lemma_interp_single_step(s: Seq<Step>, t: int)
    requires
        s.len() == 1,
    ensures
        interp_at(s, t) == s[0].speed,
{
    assert(first_above_from(s, t, 1) == 1);
}

/// Clamping at the profile's edges: a temperature at or below the first
/// breakpoint gets the first breakpoint's duty, one at or above the last
/// breakpoint gets the last breakpoint's duty; neither is extrapolated.
pub proof fn lemma_interp_clamps(s: Seq<Step>, t: int)
    requires
        s.len() >= 1,
    ensures
        t < s[0].temp ==> interp_at(s, t) == s[0].speed,
        t >= s[s.len() - 1].temp && (forall|i: int|
            0 <= i < s.len() ==> #[trigger] s[i].temp <= s[s.len() - 1].temp) ==> interp_at(s, t)
            == s[s.len() - 1].speed,
{
    lemma_first_above_props(s, t);
    let k = first_above(s, t);
    if t >= s[s.len() - 1].temp && (forall|i: int|
        0 <= i < s.len() ==> #[trigger] s[i].temp <= s[s.len() - 1].temp) {
        if k < s.len() {
            assert(s[k].temp <= s[s.len() - 1].temp);
        }
    }
}

/// Every duty value strictly rises along the breakpoint order.
pub open spec fn speeds_strictly_ascending(s: Seq<Step>) -> bool {
    forall|i: int, j: int| 0 <= i < j < s.len() ==> s[i].speed < s[j].speed
}

proof fn lemma_first_above_monotonic(s: Seq<Step>, t1: int, t2: int)
    requires
        t1 <= t2,
    ensures
        first_above(s, t1) <= first_above(s, t2),
{
    lemma_first_above_props(s, t1);
    lemma_first_above_props(s, t2);
    let k1 = first_above(s, t1);
    let k2 = first_above(s, t2);
    if k2 < k1 {
        assert(s[k2].temp > t2);
        assert(s[k2].temp <= t1);
    }
}

proof fn lemma_seg_interp_monotonic(lo: Step, hi: Step, t1: int, t2: int)
    requires
        lo.temp <= t1 <= t2 < hi.temp,
        lo.speed <= hi.speed,
    ensures
        seg_interp(lo, hi, t1) <= seg_interp(lo, hi, t2),
{
    let n = hi.speed - lo.speed;
    let d = hi.temp - lo.temp;
    lemma_mul_inequality(t1 - lo.temp, t2 - lo.temp, n);
    lemma_div_is_ordered((t1 - lo.temp) * n, (t2 - lo.temp) * n, d);
}

/// Monotonicity of the interpolator: over a profile whose duty values
/// strictly increase along the breakpoint order, a hotter temperature is
/// never mapped to a lower duty.
pub proof fn lemma_interp_monotonic(s: Seq<Step>, t1: int, t2: int)
    requires
        s.len() >= 1,
        speeds_strictly_ascending(s),
        t1 <= t2,
    ensures
        interp_at(s, t1) <= interp_at(s, t2),
{
    lemma_first_above_props(s, t1);
    lemma_first_above_props(s, t2);
    lemma_first_above_monotonic(s, t1, t2);
    let k1 = first_above(s, t1);
    let k2 = first_above(s, t2);
    if k1 == k2 {
        if 0 < k1 < s.len() {
            lemma_seg_interp_monotonic(s[k1 - 1], s[k1], t1, t2);
        }
    } else {
        // k1 < k2: chain through the breakpoint duties between the brackets.
        if 0 < k1 {
            lemma_seg_interp_bounds(s[k1 - 1], s[k1], t1);
        }
        assert(interp_at(s, t1) <= s[k1].speed);
        if k2 < s.len() {
            lemma_seg_interp_bounds(s[k2 - 1], s[k2], t2);
        }
        assert(s[k2 - 1].speed <= interp_at(s, t2));
        assert(s[k1].speed <= s[k2 - 1].speed);
    }
}

/// Map a temperature to a target duty through the profile: track the last
/// breakpoint at or below the current temperature and the first breakpoint
/// above it, stopping the scan there; when the two ends coincide return that
/// duty unchanged, otherwise interpolate linearly between them. Temperatures
/// outside the profile's range are clamped to the nearest endpoint's duty.
pub fn interpolate_profile(profile: &Profile, current_temp: i64) -> (r: i64)
    requires
        profile.wf(),
        in_range(current_temp as int),
    ensures
        r == interp_at(profile.steps@, current_temp as int),
        in_range(r as int),
{
    let steps = &profile.steps;
    let n = steps.len();
    let ghost t = current_temp as int;
    let ghost k = first_above(steps@, t);
    proof {
        lemma_first_above_props(steps@, t);
    }

    let mut min_i: usize = 0;
    let mut max_i: usize = n - 1;
    let mut i: usize = 0;
    let mut bracketed: bool = false;

    while i < n && !bracketed
        invariant
            profile.wf(),
            n == steps@.len(),
            t == current_temp as int,
            k == first_above(steps@, t),
            0 <= k <= n,
            forall|j: int| 0 <= j < k ==> #[trigger] steps@[j].temp <= t,
            k < n ==> steps@[k as int].temp > t,
            0 <= i <= n,
            !bracketed ==> i <= k,
            !bracketed ==> min_i == if i == 0 { 0int } else { i - 1 },
            !bracketed ==> max_i == n - 1,
            bracketed ==> k < n && i == k && max_i == k && min_i == if k == 0 {
                0int
            } else {
                k - 1
            },
        decreases n - i + (if bracketed { 0int } else { 1int }),
    {
        if steps[i].temp <= current_temp {
            min_i = i;
            i = i + 1;
        } else {
            max_i = i;
            bracketed = true;
        }
    }

    let lo = steps[min_i];
    let hi = steps[max_i];

    proof {
        if !bracketed {
            assert(k == n);
        }
    }

    if lo.temp == hi.temp {
        return lo.speed;
    }

    proof {
        assert(0 < k < n);
        assert(lo == steps@[k - 1] && hi == steps@[k as int]);
        lemma_seg_interp_bounds(lo, hi, t);
        assert((t - lo.temp) * (hi.speed - lo.speed) <= 4_000_000_000_000_000_000
            && -4_000_000_000_000_000_000 <= (t - lo.temp) * (hi.speed - lo.speed))
            by (nonlinear_arith)
            requires
                -2_000_000_000 <= t - lo.temp <= 2_000_000_000,
                -2_000_000_000 <= hi.speed - lo.speed <= 2_000_000_000,
        ;
    }
    let num = (current_temp - lo.temp) * (hi.speed - lo.speed);
    let den = hi.temp - lo.temp;
    lo.speed + floor_div(num, den)
}

} // verus!
