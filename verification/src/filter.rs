//! A single-pole low-pass filter applied sample by sample.
//!
//! The analog prototype uses `rc = 1 / (2*pi*cutoff)` and the smoothing
//! coefficient `alpha = sample_rate / (sample_rate + rc)`. This coefficient
//! formula is deliberate: it differs from the textbook bilinear-transform
//! one-pole form (`alpha = dt / (rc + dt)`), the tone depends on it, and it
//! must not be "corrected" analytically.
//! Multiplying numerator and denominator by `2*pi*cutoff` gives the exact
//! rational `alpha = n / (n + 1)` with `n = 2*pi*cutoff*sample_rate`; with
//! `2*pi` held in millionths that becomes `alpha = num / (num + UNIT)` with
//! `num = TWO_PI_MICRO * cutoff * sample_rate`.
//!
//! Each step moves the previous output toward the input by
//! `floor(num * |input - prev| / (num + UNIT))`, which never overshoots the
//! input because `alpha < 1`.

use vstd::prelude::*;
use vstd::arithmetic::div_mod::{lemma_div_is_ordered, lemma_div_multiples_vanish, lemma_div_pos_is_pos};
use vstd::arithmetic::mul::lemma_mul_inequality;
use crate::UNIT;

verus! {

/// `2 * pi` scaled by one million, rounded to the nearest integer.
pub const TWO_PI_MICRO: u64 = 6_283_185;

/// Numerator of the smoothing coefficient `alpha`; its denominator is
/// `spec_alpha_num + UNIT`, so `0 < alpha < 1` whenever the cutoff and the
/// sample rate are positive.
pub open spec fn spec_alpha_num(cutoff_hz: u32, sample_rate_hz: u32) -> int {
    (TWO_PI_MICRO as int) * cutoff_hz * sample_rate_hz
}

/// One filter step: the previous output moved toward the input by the
/// fraction `alpha` of their distance, rounded toward the previous output.
pub open spec fn spec_filter_step(input: int, prev: int, cutoff_hz: u32, sample_rate_hz: u32) -> int {
    let num = spec_alpha_num(cutoff_hz, sample_rate_hz);
    let den = num + UNIT;
    if input >= prev {
        prev + (num * (input - prev)) / den
    } else {
        prev - (num * (prev - input)) / den
    }
}

/// A fraction `num / (num + UNIT)` of a non-negative distance `d` is between
/// `0` and `d`.
proof fn lemma_alpha_fraction_bounds(num: int, d: int)
    requires
        0 <= num,
        0 <= d,
    ensures
        0 <= (num * d) / (num + UNIT) <= d,
{
    let den = num + UNIT;
    lemma_mul_inequality(num, den, d);
    lemma_div_is_ordered(num * d, den * d, den);
    lemma_div_multiples_vanish(d, den);
    assert(den * d == d * den) by (nonlinear_arith);
    if num * d > 0 {
        lemma_div_pos_is_pos(num * d, den);
    }
    if num * d == 0 {
        assert((num * d) / den == 0);
    }
    assert(num * d >= 0) by (nonlinear_arith)
        requires 0 <= num, 0 <= d;
}

/// The filter is a contraction: each step lands between the previous output
/// and the input, so with a constant input the output approaches the input
/// monotonically and never overshoots it.
pub proof fn lemma_filter_contraction(input: int, prev: int, cutoff_hz: u32, sample_rate_hz: u32)
    ensures
        prev <= input ==> prev <= spec_filter_step(input, prev, cutoff_hz, sample_rate_hz) <= input,
        input <= prev ==> input <= spec_filter_step(input, prev, cutoff_hz, sample_rate_hz) <= prev,
{
    let num = spec_alpha_num(cutoff_hz, sample_rate_hz);
    assert((TWO_PI_MICRO as int) * (cutoff_hz as int) * (sample_rate_hz as int) >= 0) by (nonlinear_arith)
        requires 0 <= cutoff_hz as int, 0 <= sample_rate_hz as int;
    if input >= prev {
        lemma_alpha_fraction_bounds(num, input - prev);
    } else {
        lemma_alpha_fraction_bounds(num, prev - input);
    }
}

/// Repeated filtering of the same constant input, starting from `prev`.
pub open spec fn spec_filter_iterate(input: int, prev: int, cutoff_hz: u32, sample_rate_hz: u32, n: nat) -> int
    decreases n,
{
    if n == 0 {
        prev
    } else {
        spec_filter_step(input, spec_filter_iterate(input, prev, cutoff_hz, sample_rate_hz, (n - 1) as nat), cutoff_hz, sample_rate_hz)
    }
}

/// Fed a constant input, the filter output stays between the starting value
/// and the input, and its distance to the input never grows from one step to
/// the next.
pub proof fn lemma_filter_monotone_approach(input: int, prev: int, cutoff_hz: u32, sample_rate_hz: u32, n: nat)
    ensures
        prev <= input ==> prev <= spec_filter_iterate(input, prev, cutoff_hz, sample_rate_hz, n)
            <= spec_filter_iterate(input, prev, cutoff_hz, sample_rate_hz, n + 1) <= input,
        input <= prev ==> input <= spec_filter_iterate(input, prev, cutoff_hz, sample_rate_hz, n + 1)
            <= spec_filter_iterate(input, prev, cutoff_hz, sample_rate_hz, n) <= prev,
    decreases n,
{
    if n == 0 {
        lemma_filter_contraction(input, prev, cutoff_hz, sample_rate_hz);
    } else {
        lemma_filter_monotone_approach(input, prev, cutoff_hz, sample_rate_hz, (n - 1) as nat);
        let cur = spec_filter_iterate(input, prev, cutoff_hz, sample_rate_hz, n);
        lemma_filter_contraction(input, cur, cutoff_hz, sample_rate_hz);
    }
}

/// One step of the low-pass filter on fixed-point amplitudes.
///
/// `prev` is the output of the previous step of the same run (zero at the
/// start of a run); the caller threads it through, so each run's state stays
/// its own.
pub fn filter_step(input: i32, prev: i32, cutoff_hz: u32, sample_rate_hz: u32) -> (out: i32)
    requires
        1 <= cutoff_hz,
        1 <= sample_rate_hz,
        -(UNIT as int) <= input <= UNIT as int,
        -(UNIT as int) <= prev <= UNIT as int,
    ensures
        out == spec_filter_step(input as int, prev as int, cutoff_hz, sample_rate_hz),
        -(UNIT as int) <= out <= UNIT as int,
{
    proof {
        assert((TWO_PI_MICRO as int) * (cutoff_hz as int) * (sample_rate_hz as int)
            <= 6_283_185 * 0xffffffff * 0xffffffff) by (nonlinear_arith)
            requires
                0 <= cutoff_hz as int <= 0xffffffff,
                0 <= sample_rate_hz as int <= 0xffffffff;
        assert((TWO_PI_MICRO as int) * (cutoff_hz as int) * (sample_rate_hz as int) >= 0) by (nonlinear_arith)
            requires 0 <= cutoff_hz as int, 0 <= sample_rate_hz as int;
    }
    let num: u128 = (TWO_PI_MICRO as u128) * (cutoff_hz as u128) * (sample_rate_hz as u128);
    let den: u128 = num + (UNIT as u128);
    if input >= prev {
        let d: u64 = (input - prev) as u64;
        proof {
            lemma_alpha_fraction_bounds(num as int, d as int);
            assert((num as int) * (d as int) <= 6_283_185 * 0xffffffff * 0xffffffff * 0x1e8480)
                by (nonlinear_arith)
                requires
                    0 <= num as int <= 6_283_185 * 0xffffffff * 0xffffffff,
                    0 <= d as int <= 0x1e8480;
        }
        let step: u64 = ((num * (d as u128)) / den) as u64;
        prev + step as i32
    } else {
        let d: u64 = (prev - input) as u64;
        proof {
            lemma_alpha_fraction_bounds(num as int, d as int);
            assert((num as int) * (d as int) <= 6_283_185 * 0xffffffff * 0xffffffff * 0x1e8480)
                by (nonlinear_arith)
                requires
                    0 <= num as int <= 6_283_185 * 0xffffffff * 0xffffffff,
                    0 <= d as int <= 0x1e8480;
        }
        let step: u64 = ((num * (d as u128)) / den) as u64;
        prev - step as i32
    }
}

} // verus!
