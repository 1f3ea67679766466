//! WAV adapter behaviour: decoding, normalisation, format rejection, and
//! the decimal rendering of hashes at the boundary.

use fingerprinter::errors::AudioError;
use fingerprinter::fingerprint::generate_fingerprint;
use fingerprinter::signal::{downmix, normalize_i16_samples};
use fingerprinter::signal::samples_from_le_bytes;
use fingerprinter::wav::{create_hashes_from_wav, u64_to_decimal, AudioLoader};
use std::io::Cursor;

fn wav_i16(rate: u32, channels: u16, samples: &[i16]) -> Vec<u8> {
    let spec = hound::WavSpec {
        channels,
        sample_rate: rate,
        bits_per_sample: 16,
        sample_format: hound::SampleFormat::Int,
    };
    let mut bytes: Vec<u8> = Vec::new();
    {
        let mut writer = hound::WavWriter::new(Cursor::new(&mut bytes), spec).unwrap();
        for &s in samples {
            writer.write_sample(s).unwrap();
        }
        writer.finalize().unwrap();
    }
    bytes
}

fn wav_f32(rate: u32, samples: &[f32]) -> Vec<u8> {
    let spec = hound::WavSpec {
        channels: 1,
        sample_rate: rate,
        bits_per_sample: 32,
        sample_format: hound::SampleFormat::Float,
    };
    let mut bytes: Vec<u8> = Vec::new();
    {
        let mut writer = hound::WavWriter::new(Cursor::new(&mut bytes), spec).unwrap();
        for &s in samples {
            writer.write_sample(s).unwrap();
        }
        writer.finalize().unwrap();
    }
    bytes
}

/// A classic 16-byte `fmt ` chunk with an arbitrary declared bit depth.
fn wav_manual(bits: u16, data: &[u8]) -> Vec<u8> {
    let rate: u32 = 44100;
    let channels: u16 = 1;
    let block_align: u16 = (bits / 8) * channels;
    let byte_rate: u32 = rate * block_align as u32;
    let mut b: Vec<u8> = Vec::new();
    b.extend_from_slice(b"RIFF");
    let riff_len = 4 + 8 + 16 + 8 + data.len() as u32;
    b.extend_from_slice(&riff_len.to_le_bytes());
    b.extend_from_slice(b"WAVE");
    b.extend_from_slice(b"fmt ");
    b.extend_from_slice(&16u32.to_le_bytes());
    b.extend_from_slice(&1u16.to_le_bytes()); // PCM
    b.extend_from_slice(&channels.to_le_bytes());
    b.extend_from_slice(&rate.to_le_bytes());
    b.extend_from_slice(&byte_rate.to_le_bytes());
    b.extend_from_slice(&block_align.to_le_bytes());
    b.extend_from_slice(&bits.to_le_bytes());
    b.extend_from_slice(b"data");
    b.extend_from_slice(&(data.len() as u32).to_le_bytes());
    b.extend_from_slice(data);
    b
}

#[test]
fn sixteen_bit_samples_scale_by_full_scale() {
    let raw: [i16; 5] = [0, 1, -1, 16384, -32768];
    let bytes = wav_i16(44100, 1, &raw);
    let (mono, rate) = AudioLoader::load_from_wav_bytes(&bytes).unwrap();
    assert_eq!(rate, 44100);
    assert_eq!(mono.len(), raw.len());
    for (k, &v) in raw.iter().enumerate() {
        let mag = (v.unsigned_abs() as i64 * (1 << 24)) / 32767;
        let mut expected = if v < 0 { -mag } else { mag };
        if expected < -(1 << 25) {
            expected = -(1 << 25);
        }
        assert_eq!(mono[k] as i64, expected, "sample {k}");
    }
}

#[test]
fn float_samples_decode_by_bit_pattern() {
    let bytes = wav_f32(48000, &[0.0, 0.5, -0.25, 1.0, 0.75, -1.0]);
    let (mono, rate) = AudioLoader::load_from_wav_bytes(&bytes).unwrap();
    assert_eq!(rate, 48000);
    assert_eq!(
        mono,
        vec![0, 1 << 23, -(1 << 22), 1 << 24, 3 << 22, -(1 << 24)]
    );
}

#[test]
fn stereo_downmixes_to_frame_averages() {
    let interleaved: [i16; 6] = [100, 200, -300, -100, 32767, 32767];
    let bytes = wav_i16(44100, 2, &interleaved);
    let (mono, _) = AudioLoader::load_from_wav_bytes(&bytes).unwrap();
    let normalized = normalize_i16_samples(&interleaved.to_vec());
    let expected = downmix(&normalized, 2);
    assert_eq!(mono, expected);
    assert_eq!(mono.len(), 3);
}

#[test]
fn eight_bit_depth_is_unsupported() {
    let bytes = wav_manual(8, &[0x80, 0x7F, 0x81, 0x90]);
    match AudioLoader::load_from_wav_bytes(&bytes) {
        Err(AudioError::UnsupportedFormat(bits)) => assert_eq!(bits, 8),
        other => panic!("expected unsupported format, got {:?}", other.map(|p| p.1)),
    }
    match create_hashes_from_wav(&bytes) {
        Err(AudioError::UnsupportedFormat(bits)) => assert_eq!(bits, 8),
        _ => panic!("expected unsupported format"),
    }
}

#[test]
fn sixty_four_bit_depth_is_unsupported() {
    let bytes = wav_manual(64, &[0u8; 16]);
    match AudioLoader::load_from_wav_bytes(&bytes) {
        Err(AudioError::UnsupportedFormat(bits)) => assert_eq!(bits, 64),
        other => panic!("expected unsupported format, got {:?}", other.map(|p| p.1)),
    }
}

#[test]
fn unreadable_container_is_an_io_error() {
    let garbage: Vec<u8> = vec![1, 2, 3, 4, 5, 6, 7, 8];
    assert_eq!(
        AudioLoader::load_from_wav_bytes(&garbage).map(|p| p.1),
        Err(AudioError::Io)
    );
    assert!(matches!(create_hashes_from_wav(&garbage), Err(AudioError::Io)));
}

#[test]
fn wav_fingerprint_renders_hashes_as_decimal_strings() {
    // A two-tone second of audio through the container path equals the
    // in-memory fingerprint, hash for hash, as decimal strings.
    let rate = 44100u32;
    let raw: Vec<i16> = (0..rate as usize)
        .map(|i| {
            let t = i as f64 / rate as f64;
            let v = 0.45 * (2.0 * std::f64::consts::PI * 1292.0 * t).sin()
                + 0.45 * (2.0 * std::f64::consts::PI * 1723.0 * t).sin();
            (v * 32767.0).round() as i16
        })
        .collect();
    let bytes = wav_i16(rate, 1, &raw);
    let hashes = create_hashes_from_wav(&bytes).unwrap();
    assert_eq!(hashes.sample_rate, rate);
    assert_eq!(hashes.sample_count, raw.len());
    let mono = normalize_i16_samples(&raw);
    let fp = generate_fingerprint(&mono, rate);
    assert!(!fp.is_empty());
    assert_eq!(hashes.hashes.len(), fp.len());
    for (s, h) in hashes.hashes.iter().zip(fp.iter()) {
        assert_eq!(s, &h.to_string());
    }
}

#[test]
fn decimal_rendering_covers_edges() {
    assert_eq!(u64_to_decimal(0), "0");
    assert_eq!(u64_to_decimal(9), "9");
    assert_eq!(u64_to_decimal(10), "10");
    assert_eq!(u64_to_decimal(908070605), "908070605");
    assert_eq!(u64_to_decimal(u64::MAX), "18446744073709551615");
}

#[test]
fn le_byte_stream_decodes_whole_sample_groups() {
    let mut bytes: Vec<u8> = Vec::new();
    for v in [0.0f32, 0.5, -0.25, 1.0] {
        bytes.extend_from_slice(&v.to_le_bytes());
    }
    bytes.push(0xAA); // trailing partial group is dropped
    let samples = samples_from_le_bytes(&bytes);
    assert_eq!(samples, vec![0, 1 << 23, -(1 << 22), 1 << 24]);
}

#[test]
fn error_kinds_are_distinct() {
    assert_ne!(AudioError::Io, AudioError::StoreUnavailable);
    assert_ne!(AudioError::Serialisation, AudioError::Io);
    assert_ne!(
        AudioError::UnsupportedFormat(8),
        AudioError::UnsupportedFormat(64)
    );
}
