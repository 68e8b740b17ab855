//! An offline monophonic tone synthesizer with a verified core.
//!
//! The signal path works in fixed-point arithmetic throughout: amplitudes are
//! integers scaled by [`UNIT`] (one million steps per unit), times and
//! durations are whole microseconds, and frequencies are whole millihertz.
//! Every sample of a synthesis run is therefore an exact function of the
//! request, and the contracts below pin each one down.

use vstd::prelude::*;

pub mod envelope;
pub mod filter;
pub mod oscillator;
pub mod pipeline;
pub mod wav;

verus! {

/// Amplitude scale: the fixed-point value `UNIT` stands for 1.0.
pub const UNIT: u32 = 1_000_000;

/// Longest supported note, in microseconds (ten minutes). A cap keeps every
/// intermediate product of the sample loop inside its integer type.
pub const MAX_DURATION_US: u64 = 600_000_000;

} // verus!
