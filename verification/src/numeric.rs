//! Fixed-point arithmetic helpers shared by the control-loop math.
//!
//! Temperatures and duty percentages are carried as signed integers counting
//! thousandths of a unit, so every quantity the control loop touches stays in
//! a range far inside `i64`.

use vstd::prelude::*;

verus! {

/// Bound (in thousandths of a unit) on every value the control loop carries.
pub const VALUE_BOUND: i64 = 1_000_000_000;

/// A fixed-point value the control loop may carry: at most a million whole
/// units in magnitude.
pub open spec fn in_range(v: int) -> bool {
    -(VALUE_BOUND as int) <= v <= VALUE_BOUND as int
}

/// Floor division (quotient rounded toward negative infinity), which for a
/// positive divisor agrees with the mathematical `/` of specifications.
pub fn floor_div(n: i64, d: i64) -> (q: i64)
    requires
        1 <= d,
        -4_000_000_000_000_000_000 <= n <= 4_000_000_000_000_000_000,
    ensures
        q == n as int / d as int,
{
    if n >= 0 {
        n / d
    } else {
        let m: i64 = -n;
        let t: i64 = m / d;
        let r: i64 = m % d;
        proof {
            vstd::arithmetic::div_mod::lemma_div_pos_is_pos(m as int, d as int);
            vstd::arithmetic::div_mod::lemma_fundamental_div_mod(m as int, d as int);
            vstd::arithmetic::div_mod::lemma_fundamental_div_mod(n as int, d as int);
            let q = n as int / d as int;
            let rr = n as int % d as int;
            assert((r == 0 ==> q == -t) && (r != 0 ==> q == -t - 1)) by (nonlinear_arith)
                requires
                    d >= 1,
                    m == -(n as int),
                    m == d * t + r,
                    0 <= r < d,
                    0 <= t,
                    n == d * q + rr,
                    0 <= rr < d,
            ;
        }
        if r == 0 {
            -t
        } else {
            -t - 1
        }
    }
}

/// Division rounded to the nearest integer, ties away from zero.
pub fn round_div(n: i64, d: i64) -> (q: i64)
    requires
        1 <= d <= 2_000_000_000,
        -2_000_000_000_000_000_000 <= n <= 2_000_000_000_000_000_000,
    ensures
        q == round_div_spec(n as int, d as int),
{
    if n >= 0 {
        (n + d / 2) / d
    } else {
        let m: i64 = -n;
        -((m + d / 2) / d)
    }
}

/// Nearest-integer division, ties rounded away from zero.
pub open spec fn round_div_spec(n: int, d: int) -> int {
    if n >= 0 {
        (n + d / 2) / d
    } else {
        -((-n + d / 2) / d)
    }
}

/// The rounded quotient lands within half a divisor of the exact ratio:
/// `round_div_spec(n, d) * d` differs from `n` by at most `d / 2` and by
/// strictly less than `d` on the other side.
pub proof fn lemma_round_div_close(n: int, d: int)
    requires
        1 <= d,
    ensures
        n - d / 2 <= round_div_spec(n, d) * d <= n + d / 2,
{
    let h = d / 2;
    vstd::arithmetic::div_mod::lemma_fundamental_div_mod(d, 2);
    if n >= 0 {
        let q = (n + h) / d;
        vstd::arithmetic::div_mod::lemma_fundamental_div_mod(n + h, d);
        assert(n - h <= q * d <= n + h) by (nonlinear_arith)
            requires
                d >= 1,
                h == d / 2,
                2 * h <= d,
                d <= 2 * h + 1,
                n + h == d * q + (n + h) % d,
                0 <= (n + h) % d < d,
        ;
    } else {
        let q = (-n + h) / d;
        vstd::arithmetic::div_mod::lemma_fundamental_div_mod(-n + h, d);
        assert(n - h <= -q * d <= n + h) by (nonlinear_arith)
            requires
                d >= 1,
                h == d / 2,
                2 * h <= d,
                d <= 2 * h + 1,
                -n + h == d * q + (-n + h) % d,
                0 <= (-n + h) % d < d,
        ;
    }
}

} // verus!
