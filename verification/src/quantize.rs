//! Duty quantization: rounding a continuous target duty to the actuator's
//! supported granularity before encoding.

use vstd::arithmetic::div_mod::lemma_mod_multiples_basic;
use vstd::math::abs;
use vstd::prelude::*;

use crate::numeric::{in_range, lemma_round_div_close, round_div, round_div_spec};

verus! {

/// The nearest multiple of `step` (ties away from zero) to the fixed-point
/// value `v` carried in thousandths, expressed in whole units.
pub open spec fn quantized(v: int, step: int) -> int {
    step * round_div_spec(v, step * 1000)
}

/// Saturating conversion of a whole-unit value into an 8-bit duty, as a
/// narrowing numeric cast behaves: values below zero give 0, values above
/// 255 give 255.
pub open spec fn to_u8_sat(v: int) -> u8 {
    if v < 0 {
        0u8
    } else if v > 255 {
        255u8
    } else {
        v as u8
    }
}

/// Round a fixed-point duty (`value`, in thousandths of a percent) to the
/// nearest multiple of `step` whole percent points, ties away from zero,
/// then saturate into the 8-bit duty range. No clamping to the channel's
/// duty bounds happens here; that is the codec's job downstream.
pub fn round_to_interval(value: i64, step: i64) -> (r: u8)
    requires
        in_range(value as int),
        1 <= step <= 1000,
    ensures
        r == to_u8_sat(quantized(value as int, step as int)),
{
    let d = step * 1000;
    let q = round_div(value, d);
    proof {
        lemma_round_div_close(value as int, d as int);
        vstd::arithmetic::div_mod::lemma_fundamental_div_mod(d as int, 2);
        assert(-3_000_000 <= q <= 3_000_000 && -2_000_000_000_000 <= step * q
            <= 2_000_000_000_000 && step * q * 1000 == q * d) by (nonlinear_arith)
            requires
                1 <= step <= 1000,
                d == step * 1000,
                value - d / 2 <= q * d <= value + d / 2,
                -1_000_000_000 <= value <= 1_000_000_000,
        ;
    }
    let units = step * q;
    if units < 0 {
        0
    } else if units > 255 {
        255
    } else {
        units as u8
    }
}

/// The quantizer returns a multiple of `step` nearest the value: it divides
/// evenly by `step`, and no other multiple of `step` lies closer to the
/// value (distances measured in the value's thousandths scale).
pub proof fn lemma_quantized_nearest(v: int, step: int)
    requires
        1 <= step,
    ensures
        quantized(v, step) % step == 0,
        forall|m: int|
            abs(quantized(v, step) * 1000 - v) <= #[trigger] abs(m * (step * 1000) - v),
{
    let d = step * 1000;
    let q = round_div_spec(v, d);
    lemma_round_div_close(v, d);
    vstd::arithmetic::div_mod::lemma_fundamental_div_mod(d, 2);
    lemma_mod_multiples_basic(q, step);
    assert(step * q == q * step) by (nonlinear_arith);
    assert(quantized(v, step) * 1000 == q * d) by (nonlinear_arith)
        requires
            d == step * 1000,
            quantized(v, step) == step * q,
    ;
    assert forall|m: int|
        abs(quantized(v, step) * 1000 - v) <= #[trigger] abs(m * (step * 1000) - v) by {
        if m != q {
            assert(abs(q * d - v) <= abs(m * d - v)) by (nonlinear_arith)
                requires
                    d == step * 1000,
                    1 <= step,
                    m != q,
                    v - d / 2 <= q * d <= v + d / 2,
                    2 * (d / 2) <= d,
            ;
        }
    }
}

} // verus!
