//! The per-tick control algorithm: smooth the raw temperature sample, map
//! the smoothed value through the profile, and quantize the target duty to
//! the actuator's granularity. The host layer around it reads the sample,
//! transmits the encoded command and sleeps for the update interval.

use vstd::prelude::*;

use crate::numeric::in_range;
use crate::profile::{interp_at, lemma_interp_at_in_range, Profile, Step};
use crate::quantize::{quantized, round_to_interval, to_u8_sat};
use crate::smoother::Smoother;

verus! {

/// The duty one tick commands for a raw sample: the sample smoothed by one
/// filter update, the smoothed value interpolated through the profile, the
/// result rounded to the nearest multiple of `step` and saturated to 8 bits.
pub open spec fn tick_duty(sm: Smoother, steps: Seq<Step>, sample: int, step: int) -> u8 {
    to_u8_sat(quantized(interp_at(steps, sm.next_output(sample)), step))
}

/// Run one control tick: feed the raw sample to the smoother, interpolate
/// the profile at the smoothed temperature, and quantize the target duty to
/// multiples of `step`. Returns the duty to command; the smoother retains
/// the smoothed value as the state for the next tick.
pub fn control_tick(smoother: &mut Smoother, profile: &Profile, sample: i64, step: i64) -> (duty:
    u8)
    requires
        old(smoother).wf(),
        profile.wf(),
        in_range(sample as int),
        1 <= step <= 1000,
    ensures
        final(smoother).wf(),
        final(smoother).alpha == old(smoother).alpha,
        final(smoother).prev == Some((old(smoother).next_output(sample as int)) as i64),
        duty == tick_duty(*old(smoother), profile.steps@, sample as int, step as int),
{
    let average = smoother.update(sample);
    proof {
        lemma_interp_at_in_range(profile.steps@, average as int);
    }
    let target = crate::profile::interpolate_profile(profile, average);
    round_to_interval(target, step)
}

} // verus!
