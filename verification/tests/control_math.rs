//! Tests of the control arithmetic: quantizer, interpolator and smoother.
//! Temperatures and duties are fixed-point values in thousandths.

use krakenusb::control::control_tick;
use krakenusb::profile::{interpolate_profile, Profile, Step};
use krakenusb::quantize::round_to_interval;
use krakenusb::smoother::Smoother;

fn step(temp: i64, speed: i64) -> Step {
    Step { temp: temp * 1000, speed: speed * 1000 }
}

#[test]
fn quantizer_rounds_down_to_multiple_of_five() {
    assert_eq!(round_to_interval(52_000, 5), 50);
}

#[test]
fn quantizer_rounds_up_to_multiple_of_five() {
    assert_eq!(round_to_interval(53_000, 5), 55);
}

#[test]
fn quantizer_tie_rounds_away_from_zero() {
    assert_eq!(round_to_interval(52_500, 5), 55);
}

#[test]
fn quantizer_exact_multiple_is_kept() {
    assert_eq!(round_to_interval(60_000, 5), 60);
}

#[test]
fn quantizer_saturates_below_zero() {
    assert_eq!(round_to_interval(-7_000, 5), 0);
}

#[test]
fn quantizer_saturates_above_u8_range() {
    assert_eq!(round_to_interval(300_000, 5), 255);
}

#[test]
fn quantizer_step_one_rounds_to_nearest_unit() {
    assert_eq!(round_to_interval(41_400, 1), 41);
    assert_eq!(round_to_interval(41_600, 1), 42);
}

#[test]
fn interpolator_clamps_below_range() {
    let profile = Profile { steps: vec![step(20, 20), step(40, 50), step(60, 100)] };
    assert_eq!(interpolate_profile(&profile, 10_000), 20_000);
}

#[test]
fn interpolator_clamps_above_range() {
    let profile = Profile { steps: vec![step(20, 20), step(40, 50), step(60, 100)] };
    assert_eq!(interpolate_profile(&profile, 70_000), 100_000);
}

#[test]
fn interpolator_midpoint_is_linear() {
    let profile = Profile { steps: vec![step(20, 20), step(40, 50), step(60, 100)] };
    assert_eq!(interpolate_profile(&profile, 30_000), 35_000);
}

#[test]
fn interpolator_hits_breakpoints_exactly() {
    let profile = Profile { steps: vec![step(20, 20), step(40, 50), step(60, 100)] };
    assert_eq!(interpolate_profile(&profile, 20_000), 20_000);
    assert_eq!(interpolate_profile(&profile, 40_000), 50_000);
    assert_eq!(interpolate_profile(&profile, 60_000), 100_000);
}

#[test]
fn interpolator_single_step_returns_its_duty_everywhere() {
    let profile = Profile { steps: vec![step(25, 40)] };
    assert_eq!(interpolate_profile(&profile, -100_000), 40_000);
    assert_eq!(interpolate_profile(&profile, 25_000), 40_000);
    assert_eq!(interpolate_profile(&profile, 900_000), 40_000);
}

#[test]
fn interpolator_is_monotone_for_ascending_duties() {
    let profile = Profile { steps: vec![step(20, 20), step(40, 50), step(60, 100)] };
    let mut prev = interpolate_profile(&profile, 0);
    let mut t: i64 = 0;
    while t <= 80_000 {
        let cur = interpolate_profile(&profile, t);
        assert!(prev <= cur);
        prev = cur;
        t += 500;
    }
}

#[test]
fn smoother_first_output_is_first_sample() {
    let mut sm = Smoother::new(466_512);
    assert_eq!(sm.update(37_250), 37_250);
}

#[test]
fn smoother_constant_input_is_a_fixed_point() {
    let mut sm = Smoother::new(466_512);
    sm.update(40_000);
    for _ in 0..10 {
        assert_eq!(sm.update(40_000), 40_000);
    }
}

#[test]
fn smoother_converges_to_constant_sample_from_any_start() {
    // alpha for update_interval 1.0 and smoothing 10.0: 1 - exp(-2*pi/10),
    // scaled by a million.
    let mut sm = Smoother::new(466_512);
    sm.update(20_000);
    let mut dist = (40_000i64 - 20_000i64).abs();
    for _ in 0..40 {
        let out = sm.update(40_000);
        let d = (40_000i64 - out).abs();
        assert!(d <= dist);
        dist = d;
    }
    // Convergence to within rounding: the distance bound is
    // (ALPHA_SCALE - 1) / alpha, about two thousandths here.
    assert!(dist <= 2);

    // Approaching from above, the floor rounding lands on the sample exactly.
    let mut sm = Smoother::new(466_512);
    sm.update(90_000);
    let mut out = 90_000i64;
    for _ in 0..40 {
        out = sm.update(40_000);
    }
    assert_eq!(out, 40_000);
}

#[test]
fn smoother_single_update_matches_ema_formula() {
    let mut sm = Smoother::new(500_000);
    sm.update(20_000);
    // 0.5 * 30_000 + 0.5 * 20_000 = 25_000
    assert_eq!(sm.update(30_000), 25_000);
}

#[test]
fn tick_pipeline_end_to_end_steady_state() {
    // update_interval 1.0 s, smoothing 10.0 -> alpha = 1 - exp(-2*pi/10),
    // curve (30,20),(50,60),(70,100); constant raw samples of 40 degrees.
    let profile = Profile { steps: vec![step(30, 20), step(50, 60), step(70, 100)] };
    let mut sm = Smoother::new(466_512);
    let mut duty = 0u8;
    for _ in 0..30 {
        duty = control_tick(&mut sm, &profile, 40_000, 5);
    }
    // Smoothed value sits exactly at 40 degrees; the curve maps 40 degrees
    // to duty 40, which is already a multiple of 5.
    assert_eq!(duty, 40);

    // At a smoothed 50 degrees the curve's breakpoint gives duty 60.
    let mut sm = Smoother::new(466_512);
    let mut duty = 0u8;
    for _ in 0..30 {
        duty = control_tick(&mut sm, &profile, 50_000, 5);
    }
    assert_eq!(duty, 60);
}
