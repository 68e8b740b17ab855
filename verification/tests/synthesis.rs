use synth_backend::envelope::EnvelopeParams;
use synth_backend::oscillator::WaveformKind;
use synth_backend::pipeline::{quantize, synthesize, SynthError, SynthesisRequest};
use synth_backend::UNIT;

fn a4_request() -> SynthesisRequest {
    SynthesisRequest {
        freq_mhz: 440_000,
        duration_us: 2_000_000,
        waveform: WaveformKind::Sine,
        envelope: EnvelopeParams {
            attack_us: 100_000,
            decay_us: 200_000,
            sustain: 700_000,
            release_us: 500_000,
        },
        sample_rate_hz: 44_100,
        cutoff_hz: 500,
        peak_amplitude: 500_000,
    }
}

#[test]
fn a4_buffer_has_exact_length() {
    let buf = synthesize(&a4_request()).unwrap();
    assert_eq!(buf.len(), 88_200);
}

#[test]
fn a4_first_sample_is_zero() {
    // The envelope ramps up from zero, so the very first sample is silent.
    let buf = synthesize(&a4_request()).unwrap();
    assert_eq!(buf[0], 0);
}

#[test]
fn a4_is_loud_at_end_of_attack() {
    // Around t = 0.1 s (sample 4410) the envelope is near one, so within the
    // following sine period the signal must come close to the scaled peak
    // round(0.5 * i16::MAX) = 16384, and must never exceed it.
    let buf = synthesize(&a4_request()).unwrap();
    let window = &buf[4400..4520];
    let peak = window.iter().map(|s| s.unsigned_abs()).max().unwrap();
    assert!(peak > 16_000, "window peak {peak} too quiet");
    assert!(peak <= 16_384, "window peak {peak} too loud");
}

#[test]
fn buffer_length_rounds_to_nearest() {
    let mut req = a4_request();
    req.envelope = EnvelopeParams { attack_us: 0, decay_us: 0, sustain: UNIT, release_us: 0 };
    req.sample_rate_hz = 8_000;
    req.duration_us = 1_000_000;
    assert_eq!(synthesize(&req).unwrap().len(), 8_000);
    // 44100 * 0.012345 s = 544.4145 samples, rounds down.
    req.sample_rate_hz = 44_100;
    req.duration_us = 12_345;
    assert_eq!(synthesize(&req).unwrap().len(), 544);
    // 1000 * 0.0005 s = 0.5 samples, a half rounds up.
    req.sample_rate_hz = 1_000;
    req.duration_us = 500;
    assert_eq!(synthesize(&req).unwrap().len(), 1);
}

#[test]
fn synthesis_is_deterministic() {
    let a = synthesize(&a4_request()).unwrap();
    let b = synthesize(&a4_request()).unwrap();
    assert_eq!(a, b);
}

#[test]
fn zero_cutoff_is_rejected_before_synthesis() {
    let mut req = a4_request();
    req.cutoff_hz = 0;
    assert_eq!(synthesize(&req), Err(SynthError::InvalidParameter));
}

#[test]
fn invalid_parameters_are_rejected() {
    let valid = a4_request();
    assert!(synthesize(&valid).is_ok());

    let mut req = valid;
    req.freq_mhz = 0;
    assert_eq!(synthesize(&req), Err(SynthError::InvalidParameter));

    req = valid;
    req.duration_us = 0;
    assert_eq!(synthesize(&req), Err(SynthError::InvalidParameter));

    req = valid;
    req.duration_us = 600_000_001;
    assert_eq!(synthesize(&req), Err(SynthError::InvalidParameter));

    req = valid;
    req.sample_rate_hz = 0;
    assert_eq!(synthesize(&req), Err(SynthError::InvalidParameter));

    req = valid;
    req.sample_rate_hz = 1_000_001;
    assert_eq!(synthesize(&req), Err(SynthError::InvalidParameter));

    req = valid;
    req.peak_amplitude = UNIT + 1;
    assert_eq!(synthesize(&req), Err(SynthError::InvalidParameter));

    req = valid;
    req.envelope.sustain = UNIT + 1;
    assert_eq!(synthesize(&req), Err(SynthError::InvalidParameter));

    // Envelope segments longer than the note are a configuration error.
    req = valid;
    req.envelope.release_us = 1_800_000;
    assert_eq!(synthesize(&req), Err(SynthError::InvalidParameter));
}

#[test]
fn quantize_maps_full_scale_to_i16_peak() {
    assert_eq!(quantize(UNIT, UNIT, UNIT as i32), 32_767);
    assert_eq!(quantize(UNIT, UNIT, -(UNIT as i32)), -32_767);
    assert_eq!(quantize(0, UNIT, UNIT as i32), 0);
    assert_eq!(quantize(UNIT, 0, -(UNIT as i32)), 0);
}

#[test]
fn quantize_rounds_halves_away_from_zero() {
    // 0.5 * 32767 = 16383.5 rounds to 16384, symmetrically for negatives.
    assert_eq!(quantize(UNIT, UNIT, 500_000), 16_384);
    assert_eq!(quantize(UNIT, UNIT, -500_000), -16_384);
    // A tiny value rounds to silence.
    assert_eq!(quantize(UNIT, UNIT, 1), 0);
}

#[test]
fn square_wave_toggles_at_full_scale() {
    // A full-level square wave through a wide-open filter quantizes to the
    // full 16-bit peak from the very first sample and toggles sign.
    let req = SynthesisRequest {
        freq_mhz: 100_000,
        duration_us: 100_000,
        waveform: WaveformKind::Square,
        envelope: EnvelopeParams { attack_us: 0, decay_us: 0, sustain: UNIT, release_us: 0 },
        sample_rate_hz: 10_000,
        cutoff_hz: 1_000_000,
        peak_amplitude: UNIT,
    };
    let buf = synthesize(&req).unwrap();
    assert_eq!(buf.len(), 1_000);
    assert_eq!(buf[0], 32_767);
    assert!(buf.iter().any(|&s| s == -32_767));
    assert!(buf.iter().all(|&s| -32_767 <= s && s <= 32_767));
}
