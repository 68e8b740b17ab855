use std::io::Cursor;

use synth_backend::envelope::EnvelopeParams;
use synth_backend::oscillator::WaveformKind;
use synth_backend::pipeline::{synthesize, SynthError, SynthesisRequest};
use synth_backend::wav::{decode_wav, encode_wav, render_wav};
use synth_backend::UNIT;

fn sample_set() -> Vec<i16> {
    vec![0, 1, -1, 32_767, -32_768, 12_345, -12_345, 256, -257]
}

#[test]
fn header_is_canonical_pcm() {
    let bytes = encode_wav(&sample_set(), 44_100);
    assert_eq!(bytes.len(), 44 + 2 * 9);
    assert_eq!(&bytes[0..4], b"RIFF");
    assert_eq!(&bytes[8..12], b"WAVE");
    assert_eq!(&bytes[12..16], b"fmt ");
    // fmt chunk of 16 bytes, integer PCM, one channel.
    assert_eq!(&bytes[16..24], &[16, 0, 0, 0, 1, 0, 1, 0]);
    // 44100 Hz = 0x AC44 little-endian, byte rate doubled.
    assert_eq!(&bytes[24..28], &[0x44, 0xac, 0, 0]);
    assert_eq!(&bytes[28..32], &[0x88, 0x58, 1, 0]);
    // Block align 2, 16 bits per sample.
    assert_eq!(&bytes[32..36], &[2, 0, 16, 0]);
    assert_eq!(&bytes[36..40], b"data");
    assert_eq!(&bytes[40..44], &[18, 0, 0, 0]);
    // First sample 0, second sample 1, third sample -1.
    assert_eq!(&bytes[44..50], &[0, 0, 1, 0, 0xff, 0xff]);
}

#[test]
fn round_trip_reproduces_samples_exactly() {
    let samples = sample_set();
    let bytes = encode_wav(&samples, 44_100);
    let (decoded, rate) = decode_wav(&bytes).unwrap();
    assert_eq!(decoded, samples);
    assert_eq!(rate, 44_100);
}

#[test]
fn round_trip_of_empty_stream() {
    let bytes = encode_wav(&Vec::new(), 8_000);
    assert_eq!(bytes.len(), 44);
    let (decoded, rate) = decode_wav(&bytes).unwrap();
    assert!(decoded.is_empty());
    assert_eq!(rate, 8_000);
}

#[test]
fn round_trip_of_synthesized_tone() {
    let req = SynthesisRequest {
        freq_mhz: 440_000,
        duration_us: 50_000,
        waveform: WaveformKind::Triangle,
        envelope: EnvelopeParams { attack_us: 10_000, decay_us: 10_000, sustain: 600_000, release_us: 10_000 },
        sample_rate_hz: 22_050,
        cutoff_hz: 800,
        peak_amplitude: 900_000,
    };
    let samples = synthesize(&req).unwrap();
    let bytes = render_wav(&req).unwrap();
    assert_eq!(bytes, encode_wav(&samples, 22_050));
    let (decoded, rate) = decode_wav(&bytes).unwrap();
    assert_eq!(decoded, samples);
    assert_eq!(rate, 22_050);
}

#[test]
fn rendering_is_byte_deterministic() {
    let req = SynthesisRequest {
        freq_mhz: 523_251,
        duration_us: 30_000,
        waveform: WaveformKind::Sawtooth,
        envelope: EnvelopeParams { attack_us: 5_000, decay_us: 5_000, sustain: 500_000, release_us: 5_000 },
        sample_rate_hz: 48_000,
        cutoff_hz: 2_000,
        peak_amplitude: 800_000,
    };
    let a = render_wav(&req).unwrap();
    let b = render_wav(&req).unwrap();
    assert_eq!(a, b);
}

#[test]
fn render_rejects_invalid_request() {
    let req = SynthesisRequest {
        freq_mhz: 440_000,
        duration_us: 50_000,
        waveform: WaveformKind::Sine,
        envelope: EnvelopeParams { attack_us: 0, decay_us: 0, sustain: UNIT, release_us: 0 },
        sample_rate_hz: 22_050,
        cutoff_hz: 0,
        peak_amplitude: UNIT,
    };
    assert_eq!(render_wav(&req), Err(SynthError::InvalidParameter));
}

#[test]
fn decoder_rejects_malformed_streams() {
    let good = encode_wav(&sample_set(), 44_100);
    assert!(decode_wav(&good).is_some());

    // Too short for a header.
    assert!(decode_wav(&good[..43].to_vec()).is_none());
    // An odd number of data bytes.
    let mut odd = good.clone();
    odd.push(0);
    assert!(decode_wav(&odd).is_none());
    // A corrupted magic number.
    let mut bad_magic = good.clone();
    bad_magic[0] = b'X';
    assert!(decode_wav(&bad_magic).is_none());
    // A RIFF size that disagrees with the stream length.
    let mut bad_riff = good.clone();
    bad_riff[4] ^= 1;
    assert!(decode_wav(&bad_riff).is_none());
    // Two channels instead of one.
    let mut stereo = good.clone();
    stereo[22] = 2;
    assert!(decode_wav(&stereo).is_none());
    // A byte rate that disagrees with the sample rate.
    let mut bad_byte_rate = good.clone();
    bad_byte_rate[28] ^= 1;
    assert!(decode_wav(&bad_byte_rate).is_none());
    // Eight bits per sample instead of sixteen.
    let mut eight_bit = good.clone();
    eight_bit[34] = 8;
    assert!(decode_wav(&eight_bit).is_none());
    // A data size that disagrees with the stream length.
    let mut bad_data_size = good;
    bad_data_size[40] ^= 1;
    assert!(decode_wav(&bad_data_size).is_none());
}

#[test]
fn hound_reads_our_streams() {
    let samples = sample_set();
    let bytes = encode_wav(&samples, 44_100);
    let mut reader = hound::WavReader::new(Cursor::new(bytes)).unwrap();
    let spec = reader.spec();
    assert_eq!(spec.channels, 1);
    assert_eq!(spec.sample_rate, 44_100);
    assert_eq!(spec.bits_per_sample, 16);
    assert_eq!(spec.sample_format, hound::SampleFormat::Int);
    let read: Vec<i16> = reader.samples::<i16>().map(|s| s.unwrap()).collect();
    assert_eq!(read, samples);
}

#[test]
fn we_read_hound_streams() {
    let samples = sample_set();
    let spec = hound::WavSpec {
        channels: 1,
        sample_rate: 44_100,
        bits_per_sample: 16,
        sample_format: hound::SampleFormat::Int,
    };
    let mut cursor = Cursor::new(Vec::new());
    {
        let mut writer = hound::WavWriter::new(&mut cursor, spec).unwrap();
        for &s in &samples {
            writer.write_sample(s).unwrap();
        }
        writer.finalize().unwrap();
    }
    let bytes = cursor.into_inner();
    let (decoded, rate) = decode_wav(&bytes).unwrap();
    assert_eq!(decoded, samples);
    assert_eq!(rate, 44_100);
}
