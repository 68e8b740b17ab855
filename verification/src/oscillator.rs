//! Waveform generation: a pure function from time and frequency to a raw
//! amplitude in `[-UNIT, UNIT]`.
//!
//! Phase is tracked as an exact rational: with frequency in millihertz and
//! time in microseconds, the product `freq_mhz * t_us` counts billionths of a
//! cycle, so the phase position within one cycle is that product modulo
//! [`PHASE_STEPS`].

use vstd::prelude::*;
use crate::UNIT;

verus! {

/// Number of phase steps per full cycle (millihertz times microseconds).
pub const PHASE_STEPS: u64 = 1_000_000_000;

/// `PHASE_STEPS * PHASE_STEPS`, the denominator of the sine arch.
pub const PHASE_STEPS_SQUARED: u128 = 1_000_000_000_000_000_000;

/// The shape of the generated tone.
#[derive(Clone, Copy, PartialEq, Eq, Structural, Debug)]
pub enum WaveformKind {
    Sine,
    Square,
    Triangle,
    Sawtooth,
}

/// Position within the current cycle, in billionths of a cycle.
pub open spec fn spec_phase(freq_mhz: u64, t_us: u64) -> int {
    (freq_mhz * t_us) % (PHASE_STEPS as int)
}

/// One half-wave of the sine approximation: a parabolic arch through 0 at
/// `u == 0` and `u == PHASE_STEPS`, peaking at `UNIT` in the middle.
pub open spec fn spec_sine_arch(u: int) -> int {
    (4 * u * (PHASE_STEPS - u) * UNIT) / (PHASE_STEPS_SQUARED as int)
}

/// The raw oscillator value for each waveform, scaled by `UNIT`.
///
/// - Sine: a parabolic approximation of `sin(2*pi*f*t)`, positive on the
///   first half of the cycle and negative on the second.
/// - Square: `UNIT` while the sine half-wave is non-negative, `-UNIT` after.
/// - Triangle: `2 * frac(2*f*t) - 1`, scaled by `UNIT`; since the fractional
///   part of a doubled quantity depends only on the fractional part of the
///   quantity itself, the doubled phase is computed from `spec_phase`.
/// - Sawtooth: `2 * frac(f*t) - 1`, scaled by `UNIT`.
///
/// Zero frequency is degenerate but well defined: the phase stays at zero and
/// every waveform returns its value at phase zero, constant over time.
pub open spec fn spec_generate(kind: WaveformKind, freq_mhz: u64, t_us: u64) -> int {
    let r = spec_phase(freq_mhz, t_us);
    match kind {
        WaveformKind::Sine => if 2 * r <= PHASE_STEPS {
            spec_sine_arch(2 * r)
        } else {
            -spec_sine_arch(2 * r - PHASE_STEPS)
        },
        WaveformKind::Square => if 2 * r <= PHASE_STEPS {
            UNIT as int
        } else {
            -(UNIT as int)
        },
        WaveformKind::Triangle => {
            let r2 = (2 * r) % (PHASE_STEPS as int);
            (2 * r2 * UNIT) / (PHASE_STEPS as int) - UNIT
        },
        WaveformKind::Sawtooth => (2 * r * UNIT) / (PHASE_STEPS as int) - UNIT,
    }
}

/// The sine arch stays within `[0, UNIT]` on its half-cycle domain.
pub proof fn lemma_sine_arch_in_range(u: int)
    requires
        0 <= u <= PHASE_STEPS,
    ensures
        0 <= spec_sine_arch(u) <= UNIT,
{
    assert(4 * u * (PHASE_STEPS - u) <= PHASE_STEPS_SQUARED) by (nonlinear_arith)
        requires 0 <= u <= PHASE_STEPS;
    assert(4 * u * (PHASE_STEPS - u) * UNIT <= PHASE_STEPS_SQUARED * UNIT) by (nonlinear_arith)
        requires 4 * u * (PHASE_STEPS - u) <= PHASE_STEPS_SQUARED;
    assert(0 <= 4 * u * (PHASE_STEPS - u) * UNIT) by (nonlinear_arith)
        requires 0 <= u <= PHASE_STEPS;
}

/// Every waveform value is within `[-UNIT, UNIT]`, for every time and every
/// frequency, zero included.
pub proof fn lemma_generate_in_range(kind: WaveformKind, freq_mhz: u64, t_us: u64)
    ensures
        -(UNIT as int) <= spec_generate(kind, freq_mhz, t_us) <= UNIT as int,
{
    let r = spec_phase(freq_mhz, t_us);
    assert(0 <= r < PHASE_STEPS);
    match kind {
        WaveformKind::Sine => {
            if 2 * r <= PHASE_STEPS {
                lemma_sine_arch_in_range(2 * r);
            } else {
                lemma_sine_arch_in_range(2 * r - PHASE_STEPS);
            }
        },
        WaveformKind::Square => {},
        WaveformKind::Triangle => {
            let r2 = (2 * r) % (PHASE_STEPS as int);
            assert(0 <= r2 < PHASE_STEPS);
            assert(2 * r2 * UNIT < 2 * (PHASE_STEPS as int) * (UNIT as int)) by (nonlinear_arith)
                requires 0 <= r2 < PHASE_STEPS;
        },
        WaveformKind::Sawtooth => {
            assert(2 * r * UNIT < 2 * (PHASE_STEPS as int) * (UNIT as int)) by (nonlinear_arith)
                requires 0 <= r < PHASE_STEPS;
        },
    }
}

/// The raw waveform value at time `t_us` (microseconds) for a tone of
/// `freq_mhz` (millihertz), scaled by `UNIT`.
pub fn generate(kind: WaveformKind, freq_mhz: u64, t_us: u64) -> (s: i32)
    ensures
        s == spec_generate(kind, freq_mhz, t_us),
        -(UNIT as int) <= s <= UNIT as int,
{
    proof {
        lemma_generate_in_range(kind, freq_mhz, t_us);
        assert((freq_mhz as int) * (t_us as int) <= 0xfffffffffffffffe0000000000000001int)
            by (nonlinear_arith)
            requires
                0 <= freq_mhz as int <= 0xffffffffffffffffint,
                0 <= t_us as int <= 0xffffffffffffffffint;
    }
    let r: u64 = (((freq_mhz as u128) * (t_us as u128)) % (PHASE_STEPS as u128)) as u64;
    assert(r == spec_phase(freq_mhz, t_us));
    match kind {
        WaveformKind::Sine => {
            let (u, positive): (u64, bool) = if 2 * r <= PHASE_STEPS {
                (2 * r, true)
            } else {
                (2 * r - PHASE_STEPS, false)
            };
            proof {
                lemma_sine_arch_in_range(u as int);
            }
            let num: u128 = 4 * (u as u128) * ((PHASE_STEPS - u) as u128) * (UNIT as u128);
            let mag: u128 = num / PHASE_STEPS_SQUARED;
            assert(mag == spec_sine_arch(u as int));
            if positive {
                mag as i32
            } else {
                -(mag as i32)
            }
        },
        WaveformKind::Square => {
            if 2 * r <= PHASE_STEPS {
                UNIT as i32
            } else {
                -(UNIT as i32)
            }
        },
        WaveformKind::Triangle => {
            let r2: u64 = (2 * r) % PHASE_STEPS;
            let scaled: u64 = (2 * r2 * (UNIT as u64)) / PHASE_STEPS;
            scaled as i32 - UNIT as i32
        },
        WaveformKind::Sawtooth => {
            let scaled: u64 = (2 * r * (UNIT as u64)) / PHASE_STEPS;
            scaled as i32 - UNIT as i32
        },
    }
}

} // verus!
