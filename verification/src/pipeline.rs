//! The synthesis pipeline: oscillator, filter, envelope and quantization
//! composed over discrete time into a finite buffer of 16-bit samples.
//!
//! Sample `i` of a run is taken at `floor(i * 1_000_000 / sample_rate)`
//! microseconds. The filter state starts at zero and is threaded from one
//! sample to the next, so the whole buffer is a pure function of the request;
//! [`spec_samples`] is that function, and [`synthesize`] returns exactly it.

use vstd::prelude::*;
use vstd::arithmetic::div_mod::{lemma_div_is_ordered, lemma_div_multiples_vanish_fancy, lemma_div_pos_is_pos, lemma_div_of0};
use crate::{UNIT, MAX_DURATION_US};
use crate::envelope::{EnvelopeParams, spec_envelope_wf, spec_amplitude, amplitude};
use crate::filter::{spec_filter_step, filter_step};
use crate::oscillator::{WaveformKind, spec_generate, generate};

verus! {

/// Largest supported sample rate, in hertz.
pub const MAX_SAMPLE_RATE_HZ: u32 = 1_000_000;

/// `UNIT` cubed: the scale of a product of three fixed-point factors.
pub const UNIT_CUBED: u64 = 1_000_000_000_000_000_000;

/// Half of `UNIT_CUBED`, used to round a quantized sample to nearest.
pub const HALF_UNIT_CUBED: u64 = 500_000_000_000_000_000;

/// Microseconds in half a second, used to round the sample count to nearest.
pub const HALF_SECOND_US: u64 = 500_000;

/// Why a request or a collaborator failed.
///
/// The synthesis core itself only ever reports `InvalidParameter`; the I/O
/// collaborators around it (encoder output, playback device) report the other
/// two.
#[derive(Clone, Copy, PartialEq, Eq, Structural, Debug)]
pub enum SynthError {
    InvalidParameter,
    IoFailure,
    DeviceFailure,
}

/// Everything one synthesis run needs, fixed before the run starts.
#[derive(Clone, Copy, PartialEq, Eq, Structural, Debug)]
pub struct SynthesisRequest {
    /// Tone frequency in millihertz; must be positive.
    pub freq_mhz: u64,
    /// Note length in microseconds; must be positive and at most
    /// `MAX_DURATION_US`.
    pub duration_us: u64,
    pub waveform: WaveformKind,
    pub envelope: EnvelopeParams,
    /// Sample rate in hertz; must be positive and at most
    /// `MAX_SAMPLE_RATE_HZ`.
    pub sample_rate_hz: u32,
    /// Low-pass cutoff in hertz; must be positive.
    pub cutoff_hz: u32,
    /// Peak amplitude scaled by `UNIT`; must be at most `UNIT`.
    pub peak_amplitude: u32,
}

/// The requests synthesis accepts: positive frequency, duration, sample rate
/// and cutoff, levels at most one, a well-formed envelope, and duration and
/// sample rate within the machine limits that keep the sample arithmetic
/// exact. Zero frequency is rejected here rather than left degenerate.
pub open spec fn spec_request_valid(req: SynthesisRequest) -> bool {
    &&& 1 <= req.freq_mhz
    &&& 1 <= req.duration_us <= MAX_DURATION_US
    &&& 1 <= req.sample_rate_hz <= MAX_SAMPLE_RATE_HZ
    &&& 1 <= req.cutoff_hz
    &&& req.peak_amplitude <= UNIT
    &&& spec_envelope_wf(req.envelope, req.duration_us)
}

/// Number of samples of a run: `sample_rate * duration` in seconds, rounded
/// to the nearest whole sample (half rounds up).
pub open spec fn spec_num_samples(req: SynthesisRequest) -> int {
    ((req.sample_rate_hz as int) * (req.duration_us as int) + HALF_SECOND_US) / (UNIT as int)
}

/// The time of sample `i`, in whole microseconds.
pub open spec fn spec_sample_time_us(i: int, sample_rate_hz: u32) -> int {
    (i * 1_000_000) / (sample_rate_hz as int)
}

/// The raw oscillator value of sample `i`.
pub open spec fn spec_raw(req: SynthesisRequest, i: int) -> int {
    spec_generate(req.waveform, req.freq_mhz, spec_sample_time_us(i, req.sample_rate_hz) as u64)
}

/// The filter output at sample `i`: the filter starts the run at zero and is
/// stepped once per sample.
pub open spec fn spec_filtered(req: SynthesisRequest, i: int) -> int
    decreases i,
{
    let prev = if i <= 0 { 0 } else { spec_filtered(req, i - 1) };
    spec_filter_step(spec_raw(req, i), prev, req.cutoff_hz, req.sample_rate_hz)
}

/// The envelope multiplier at sample `i`.
pub open spec fn spec_envelope_at(req: SynthesisRequest, i: int) -> int {
    spec_amplitude(spec_sample_time_us(i, req.sample_rate_hz) as u64, req.duration_us, req.envelope)
}

/// Rounding of `prod * i16::MAX / UNIT^3` to the nearest integer, halves away
/// from zero; `prod` is a product of three `UNIT`-scaled factors.
pub open spec fn spec_round_scaled(prod: int) -> int {
    if prod >= 0 {
        (prod * 32767 + HALF_UNIT_CUBED) / (UNIT_CUBED as int)
    } else {
        -(((-prod) * 32767 + HALF_UNIT_CUBED) / (UNIT_CUBED as int))
    }
}

/// One quantized sample: peak amplitude, envelope and filtered value (each
/// scaled by `UNIT`) multiplied, mapped onto the 16-bit sample range by
/// rounding to nearest, and clamped to that range.
pub open spec fn spec_quantize(peak: int, env: int, filtered: int) -> int {
    let q = spec_round_scaled(peak * env * filtered);
    if q > 32767 {
        32767
    } else if q < -32768 {
        -32768
    } else {
        q
    }
}

/// Sample `i` of the run, before the cast to `i16`.
pub open spec fn spec_sample(req: SynthesisRequest, i: int) -> int {
    spec_quantize(req.peak_amplitude as int, spec_envelope_at(req, i), spec_filtered(req, i))
}

/// The whole buffer of a run: `spec_num_samples` quantized samples, in time
/// order. `synthesize` returns exactly this sequence.
pub open spec fn spec_samples(req: SynthesisRequest) -> Seq<i16> {
    Seq::new(spec_num_samples(req) as nat, |i: int| spec_sample(req, i) as i16)
}

/// A quotient `x / d` with `0 <= x < d * (q + 1)` lies between `0` and `q`.
proof fn lemma_div_le(x: int, d: int, q: int)
    requires
        0 < d,
        0 <= q,
        0 <= x <= d * q + (d - 1),
    ensures
        0 <= x / d <= q,
{
    lemma_div_is_ordered(x, d * q + (d - 1), d);
    lemma_div_multiples_vanish_fancy(q, d - 1, d);
    if x > 0 {
        lemma_div_pos_is_pos(x, d);
    } else {
        lemma_div_of0(d);
    }
}

/// A valid request never asks for more samples than the longest note at the
/// highest sample rate holds.
pub proof fn lemma_num_samples_bound(req: SynthesisRequest)
    requires
        spec_request_valid(req),
    ensures
        0 <= spec_num_samples(req) <= 600_000_000,
{
    assert((req.sample_rate_hz as int) * (req.duration_us as int)
        <= (MAX_SAMPLE_RATE_HZ as int) * (MAX_DURATION_US as int)) by (nonlinear_arith)
        requires
            0 <= req.sample_rate_hz as int <= MAX_SAMPLE_RATE_HZ as int,
            0 <= req.duration_us as int <= MAX_DURATION_US as int;
    assert((req.sample_rate_hz as int) * (req.duration_us as int) >= 0) by (nonlinear_arith)
        requires
            0 <= req.sample_rate_hz as int,
            0 <= req.duration_us as int;
    lemma_div_le(
        (req.sample_rate_hz as int) * (req.duration_us as int) + HALF_SECOND_US,
        UNIT as int,
        600_000_000,
    );
}

/// Two synthesis runs over the very same request produce the very same
/// buffer: the buffer is a pure function of the request, and `synthesize`
/// pins its result to that function.
pub proof fn lemma_synthesis_deterministic(req: SynthesisRequest, a: Seq<i16>, b: Seq<i16>)
    requires
        a == spec_samples(req),
        b == spec_samples(req),
    ensures
        a == b,
{
}

/// Whether `synthesize` will accept the request.
pub fn request_valid(req: &SynthesisRequest) -> (b: bool)
    ensures
        b == spec_request_valid(*req),
{
    if req.freq_mhz < 1 {
        return false;
    }
    if req.duration_us < 1 || req.duration_us > MAX_DURATION_US {
        return false;
    }
    if req.sample_rate_hz < 1 || req.sample_rate_hz > MAX_SAMPLE_RATE_HZ {
        return false;
    }
    if req.cutoff_hz < 1 {
        return false;
    }
    if req.peak_amplitude > UNIT {
        return false;
    }
    if req.envelope.sustain > UNIT {
        return false;
    }
    if req.envelope.attack_us > req.duration_us {
        return false;
    }
    if req.envelope.decay_us > req.duration_us - req.envelope.attack_us {
        return false;
    }
    if req.envelope.release_us > req.duration_us - req.envelope.attack_us - req.envelope.decay_us {
        return false;
    }
    true
}

/// Map one `UNIT`-scaled product of peak, envelope and filtered value onto
/// the 16-bit sample range: round to nearest, halves away from zero, then
/// clamp.
pub fn quantize(peak: u32, env: u32, filtered: i32) -> (q: i16)
    requires
        peak <= UNIT,
        env <= UNIT,
        -(UNIT as int) <= filtered <= UNIT as int,
    ensures
        q as int == spec_quantize(peak as int, env as int, filtered as int),
{
    proof {
        assert((peak as int) * (env as int) <= (UNIT as int) * (UNIT as int)
            && 0 <= (peak as int) * (env as int)) by (nonlinear_arith)
            requires
                0 <= peak as int <= UNIT as int,
                0 <= env as int <= UNIT as int;
    }
    let pe: u64 = (peak as u64) * (env as u64);
    let fmag: u64 = if filtered >= 0 {
        filtered as u64
    } else {
        (-(filtered as i64)) as u64
    };
    proof {
        assert((pe as int) * (fmag as int) <= 1_000_000_000_000_000_000
            && 0 <= (pe as int) * (fmag as int)) by (nonlinear_arith)
            requires
                0 <= pe as int <= 1_000_000_000_000,
                0 <= fmag as int <= 1_000_000;
    }
    let num: u128 = (pe as u128) * (fmag as u128) * 32767 + (HALF_UNIT_CUBED as u128);
    proof {
        lemma_div_le(num as int, UNIT_CUBED as int, 32767);
    }
    let qm: u64 = (num / (UNIT_CUBED as u128)) as u64;
    let prod: Ghost<int> = Ghost((peak as int) * (env as int) * (filtered as int));
    proof {
        if filtered >= 0 {
            assert((peak as int) * (env as int) * (filtered as int)
                == (pe as int) * (fmag as int)) by (nonlinear_arith)
                requires
                    pe as int == (peak as int) * (env as int),
                    fmag as int == filtered as int;
        } else {
            assert((peak as int) * (env as int) * (filtered as int)
                == -((pe as int) * (fmag as int))) by (nonlinear_arith)
                requires
                    pe as int == (peak as int) * (env as int),
                    fmag as int == -(filtered as int);
        }
    }
    if filtered >= 0 {
        qm as i16
    } else {
        proof {
            if prod@ == 0 {
                assert((pe as int) * (fmag as int) == 0);
                lemma_div_le(num as int, UNIT_CUBED as int, 0);
            }
        }
        -(qm as i16)
    }
}

/// Run the whole pipeline: for each sample index, the oscillator value at
/// that sample's time is low-pass filtered, scaled by the envelope and the
/// peak amplitude, quantized, and appended.
///
/// Returns the complete buffer for every valid request, and
/// `InvalidParameter` for every other request, before any sample is computed.
pub fn synthesize(req: &SynthesisRequest) -> (r: Result<Vec<i16>, SynthError>)
    ensures
        spec_request_valid(*req) ==> (r matches Ok(buf)
            && buf@ == spec_samples(*req)
            && buf@.len() == spec_num_samples(*req)),
        !spec_request_valid(*req) ==> r == Result::<Vec<i16>, SynthError>::Err(SynthError::InvalidParameter),
{
    if !request_valid(req) {
        return Err(SynthError::InvalidParameter);
    }
    proof {
        assert((req.sample_rate_hz as int) * (req.duration_us as int)
            <= (MAX_SAMPLE_RATE_HZ as int) * (MAX_DURATION_US as int)) by (nonlinear_arith)
            requires
                0 <= req.sample_rate_hz as int <= MAX_SAMPLE_RATE_HZ as int,
                0 <= req.duration_us as int <= MAX_DURATION_US as int;
    }
    let n64: u64 = ((req.sample_rate_hz as u64) * req.duration_us + HALF_SECOND_US) / (UNIT as u64);
    proof {
        lemma_num_samples_bound(*req);
    }
    let n: usize = n64 as usize;
    let mut out: Vec<i16> = Vec::new();
    let mut prev: i32 = 0;
    let mut i: usize = 0;
    while i < n
        invariant
            spec_request_valid(*req),
            n == spec_num_samples(*req),
            n <= 600_000_000,
            i <= n,
            out@.len() == i,
            forall|j: int| 0 <= j < i ==> out@[j] == spec_samples(*req)[j],
            prev as int == if i == 0 { 0int } else { spec_filtered(*req, i - 1) },
            -(UNIT as int) <= prev as int <= UNIT as int,
        decreases n - i,
    {
        let t_us: u64 = ((i as u64) * 1_000_000) / (req.sample_rate_hz as u64);
        assert(t_us == spec_sample_time_us(i as int, req.sample_rate_hz));
        let raw: i32 = generate(req.waveform, req.freq_mhz, t_us);
        let filtered: i32 = filter_step(raw, prev, req.cutoff_hz, req.sample_rate_hz);
        let env: u32 = amplitude(t_us, req.duration_us, &req.envelope);
        let q: i16 = quantize(req.peak_amplitude, env, filtered);
        proof {
            assert(filtered as int == spec_filtered(*req, i as int));
            assert(q as int == spec_sample(*req, i as int));
            assert(spec_samples(*req)[i as int] == spec_sample(*req, i as int) as i16);
        }
        out.push(q);
        prev = filtered;
        i = i + 1;
    }
    proof {
        assert(out@ =~= spec_samples(*req));
    }
    Ok(out)
}

} // verus!
