use synth_backend::oscillator::{generate, WaveformKind};
use synth_backend::UNIT;

const UNIT_I: i32 = UNIT as i32;

#[test]
fn sawtooth_quarter_period() {
    // 1 Hz (1000 mHz) at 0.25 s: frac = 0.25, so 2 * 0.25 - 1 = -0.5.
    assert_eq!(generate(WaveformKind::Sawtooth, 1000, 250_000), -500_000);
}

#[test]
fn sawtooth_period_start() {
    assert_eq!(generate(WaveformKind::Sawtooth, 1000, 0), -UNIT_I);
    // One full period later the ramp restarts.
    assert_eq!(generate(WaveformKind::Sawtooth, 1000, 1_000_000), -UNIT_I);
}

#[test]
fn triangle_quarter_period() {
    // The doubled-phase ramp is at its midpoint: value 0.
    assert_eq!(generate(WaveformKind::Triangle, 1000, 250_000), 0);
    assert_eq!(generate(WaveformKind::Triangle, 1000, 0), -UNIT_I);
}

#[test]
fn square_halves() {
    assert_eq!(generate(WaveformKind::Square, 1000, 250_000), UNIT_I);
    assert_eq!(generate(WaveformKind::Square, 1000, 750_000), -UNIT_I);
}

#[test]
fn sine_peaks_and_zeroes() {
    assert_eq!(generate(WaveformKind::Sine, 1000, 0), 0);
    assert_eq!(generate(WaveformKind::Sine, 1000, 250_000), UNIT_I);
    assert_eq!(generate(WaveformKind::Sine, 1000, 750_000), -UNIT_I);
    // At one eighth of the period the parabolic arch gives 0.75.
    assert_eq!(generate(WaveformKind::Sine, 1000, 125_000), 750_000);
}

#[test]
fn zero_frequency_is_constant() {
    // Degenerate but defined: phase stays at zero for every time.
    for &t in &[0u64, 123, 1_000_000, 600_000_000] {
        assert_eq!(generate(WaveformKind::Sawtooth, 0, t), -UNIT_I);
        assert_eq!(generate(WaveformKind::Sine, 0, t), 0);
        assert_eq!(generate(WaveformKind::Square, 0, t), UNIT_I);
    }
}

#[test]
fn all_waveforms_stay_in_unit_range() {
    // A spread of times and frequencies from a small linear-congruential
    // sequence; every waveform value must stay within [-1, 1].
    let kinds = [
        WaveformKind::Sine,
        WaveformKind::Square,
        WaveformKind::Triangle,
        WaveformKind::Sawtooth,
    ];
    let mut state: u64 = 0x2545_f491_4f6c_dd1d;
    for _ in 0..2000 {
        state = state.wrapping_mul(6364136223846793005).wrapping_add(1442695040888963407);
        let freq_mhz = state % 2_000_000_000;
        state = state.wrapping_mul(6364136223846793005).wrapping_add(1442695040888963407);
        let t_us = state % 700_000_000;
        for &kind in &kinds {
            let v = generate(kind, freq_mhz.max(1), t_us);
            assert!(-UNIT_I <= v && v <= UNIT_I, "{v} out of range");
        }
    }
}
