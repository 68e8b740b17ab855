//! ADSR amplitude envelope: a pure, piecewise-linear multiplier over time.
//!
//! All durations are whole microseconds and the multiplier is scaled by
//! [`UNIT`]. The four segments are checked in order with strict upper bounds,
//! so a boundary instant belongs to the first matching segment; a segment of
//! zero length is simply skipped, and no division by zero can arise, because
//! each ramp divides by its own segment's length and a zero-length segment's
//! branch can never be taken.

use vstd::prelude::*;
use vstd::arithmetic::div_mod::{lemma_div_is_ordered, lemma_div_multiples_vanish, lemma_div_pos_is_pos, lemma_div_of0};
use vstd::arithmetic::mul::lemma_mul_inequality;
use crate::{UNIT, MAX_DURATION_US};

verus! {

/// The four envelope parameters: segment lengths in microseconds and the
/// sustain level in `UNIT`-ths.
#[derive(Clone, Copy, PartialEq, Eq, Structural, Debug)]
pub struct EnvelopeParams {
    pub attack_us: u64,
    pub decay_us: u64,
    /// Sustain level scaled by `UNIT`; must not exceed `UNIT`.
    pub sustain: u32,
    pub release_us: u64,
}

/// A well-formed envelope for a note of `duration_us`: the sustain level is a
/// true level (at most one), and the three timed segments fit inside the note.
pub open spec fn spec_envelope_wf(p: EnvelopeParams, duration_us: u64) -> bool {
    &&& p.sustain <= UNIT
    &&& p.attack_us + p.decay_us + p.release_us <= duration_us
}

/// The envelope multiplier at time `t_us`, scaled by `UNIT`:
/// a linear ramp from 0 to 1 over the attack, a linear ramp from 1 down to
/// the sustain level over the decay, the sustain plateau, a linear ramp from
/// the sustain level to 0 over the release, and 0 from the end of the note on.
pub open spec fn spec_amplitude(t_us: u64, duration_us: u64, p: EnvelopeParams) -> int {
    if t_us < p.attack_us {
        (t_us * UNIT) / (p.attack_us as int)
    } else if t_us < p.attack_us + p.decay_us {
        UNIT - ((t_us - p.attack_us) * (UNIT - p.sustain)) / (p.decay_us as int)
    } else if t_us < duration_us - p.release_us {
        p.sustain as int
    } else if t_us < duration_us {
        (p.sustain * (duration_us - t_us)) / (p.release_us as int)
    } else {
        0
    }
}

/// A quotient `x / d` with `0 <= x <= d * q` lies between `0` and `q`.
proof fn lemma_div_frac_le(x: int, d: int, q: int)
    requires
        0 < d,
        0 <= q,
        0 <= x <= d * q,
    ensures
        0 <= x / d <= q,
{
    lemma_div_is_ordered(x, d * q, d);
    lemma_div_multiples_vanish(q, d);
    assert(d * q == q * d) by (nonlinear_arith);
    if x > 0 {
        lemma_div_pos_is_pos(x, d);
    } else {
        lemma_div_of0(d);
    }
}

/// The envelope multiplier always lies between 0 and `UNIT`.
pub proof fn lemma_amplitude_in_range(t_us: u64, duration_us: u64, p: EnvelopeParams)
    requires
        spec_envelope_wf(p, duration_us),
    ensures
        0 <= spec_amplitude(t_us, duration_us, p) <= UNIT,
{
    if t_us < p.attack_us {
        lemma_mul_inequality(t_us as int, p.attack_us as int, UNIT as int);
        assert((p.attack_us as int) * (UNIT as int) == (UNIT as int) * (p.attack_us as int))
            by (nonlinear_arith);
        lemma_div_frac_le(t_us * UNIT, p.attack_us as int, UNIT as int);
    } else if t_us < p.attack_us + p.decay_us {
        let diff = t_us - p.attack_us;
        let drop = UNIT - p.sustain;
        assert(0 <= diff * drop <= (p.decay_us as int) * (UNIT as int)) by (nonlinear_arith)
            requires
                0 <= diff <= p.decay_us as int,
                0 <= drop <= UNIT as int;
        lemma_div_frac_le(diff * drop, p.decay_us as int, UNIT as int);
    } else if t_us < duration_us - p.release_us {
    } else if t_us < duration_us {
        let rem = duration_us - t_us;
        assert(0 <= (p.sustain as int) * rem <= (p.release_us as int) * (UNIT as int)) by (nonlinear_arith)
            requires
                0 <= rem <= p.release_us as int,
                0 <= p.sustain as int <= UNIT as int;
        lemma_div_frac_le(p.sustain * rem, p.release_us as int, UNIT as int);
    }
}

/// The boundary values of the envelope: it starts at 0, reaches exactly 1 at
/// the end of the attack, holds exactly the sustain level over the plateau,
/// and is 0 at the end of the note. The first two clauses ask for a segment of
/// positive length, since a zero-length segment is skipped and the boundary
/// instant then belongs to the next segment.
pub proof fn lemma_envelope_boundaries(duration_us: u64, p: EnvelopeParams)
    requires
        spec_envelope_wf(p, duration_us),
    ensures
        p.attack_us > 0 ==> spec_amplitude(0, duration_us, p) == 0,
        p.decay_us > 0 ==> spec_amplitude(p.attack_us, duration_us, p) == UNIT,
        forall|t_us: u64| p.attack_us + p.decay_us <= t_us < duration_us - p.release_us
            ==> spec_amplitude(t_us, duration_us, p) == p.sustain,
        spec_amplitude(duration_us, duration_us, p) == 0,
{
    if p.attack_us > 0 {
        lemma_div_of0(p.attack_us as int);
        assert(0 * UNIT == 0) by (nonlinear_arith);
    }
    if p.decay_us > 0 {
        lemma_div_of0(p.decay_us as int);
        assert(spec_amplitude(p.attack_us, duration_us, p) == UNIT - (0 * (UNIT - p.sustain)) / (p.decay_us as int));
        assert(0 * (UNIT - p.sustain) == 0) by (nonlinear_arith);
    }
}

/// The envelope multiplier at `t_us` microseconds into a note of
/// `duration_us` microseconds, scaled by `UNIT`.
pub fn amplitude(t_us: u64, duration_us: u64, p: &EnvelopeParams) -> (a: u32)
    requires
        spec_envelope_wf(*p, duration_us),
        duration_us <= MAX_DURATION_US,
    ensures
        a == spec_amplitude(t_us, duration_us, *p),
        a <= UNIT,
{
    proof {
        lemma_amplitude_in_range(t_us, duration_us, *p);
    }
    if t_us < p.attack_us {
        ((t_us * (UNIT as u64)) / p.attack_us) as u32
    } else if t_us < p.attack_us + p.decay_us {
        let diff: u64 = t_us - p.attack_us;
        let drop: u64 = (UNIT - p.sustain) as u64;
        proof {
            assert(0 <= diff * drop <= (p.decay_us as int) * (UNIT as int)) by (nonlinear_arith)
                requires
                    0 <= diff <= p.decay_us as int,
                    0 <= drop <= UNIT as int;
            lemma_div_frac_le(diff * drop, p.decay_us as int, UNIT as int);
        }
        UNIT - ((diff * drop) / p.decay_us) as u32
    } else if t_us < duration_us - p.release_us {
        p.sustain
    } else if t_us < duration_us {
        let rem: u64 = duration_us - t_us;
        proof {
            assert(0 <= (p.sustain as int) * rem <= (p.release_us as int) * (UNIT as int)) by (nonlinear_arith)
                requires
                    0 <= rem <= p.release_us as int,
                    0 <= p.sustain as int <= UNIT as int;
            lemma_div_frac_le(p.sustain * rem, p.release_us as int, UNIT as int);
        }
        (((p.sustain as u64) * rem) / p.release_us) as u32
    } else {
        0
    }
}

} // verus!
