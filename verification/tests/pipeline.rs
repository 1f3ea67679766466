//! Fingerprint pipeline behaviour: hash shape, purity, length bounds,
//! windowing edges, packing, and signal preparation.

use fingerprinter::bands::{band_defs, create_frequency_bands, freq_to_bin};
use fingerprinter::hashes::pack_hash;
use fingerprinter::fingerprint::generate_fingerprint;
use fingerprinter::signal::{downmix, normalize_i16_samples};

fn sine_i16(freq: f64, seconds: f64, rate: u32, amp: f64) -> Vec<i16> {
    let n = (seconds * rate as f64) as usize;
    (0..n)
        .map(|i| {
            let v = amp * (2.0 * std::f64::consts::PI * freq * i as f64 / rate as f64).sin();
            (v * 32767.0).round() as i16
        })
        .collect()
}

fn noise_i16(seed: u64, n: usize) -> Vec<i16> {
    let mut x = seed;
    (0..n)
        .map(|_| {
            x = x
                .wrapping_mul(6364136223846793005)
                .wrapping_add(1442695040888963407);
            (x >> 48) as i16
        })
        .collect()
}

fn two_tone_samples(seconds: f64) -> Vec<i32> {
    let rate = 44100u32;
    let n = (seconds * rate as f64) as usize;
    let raw: Vec<i16> = (0..n)
        .map(|i| {
            let t = i as f64 / rate as f64;
            let v = 0.45 * (2.0 * std::f64::consts::PI * 1292.0 * t).sin()
                + 0.45 * (2.0 * std::f64::consts::PI * 1723.0 * t).sin();
            (v * 32767.0).round() as i16
        })
        .collect();
    normalize_i16_samples(&raw)
}

#[test]
fn hash_fields_zero_low_bits_and_band_in_range() {
    let samples = normalize_i16_samples(&noise_i16(7, 44100));
    let fp = generate_fingerprint(&samples, 44100);
    assert!(!fp.is_empty());
    for h in &fp {
        assert_eq!(h & 0x3FFFF, 0);
        let band = h >> 58;
        assert!((1..=6).contains(&band));
    }
}

#[test]
fn fingerprint_is_pure() {
    let samples = normalize_i16_samples(&noise_i16(11, 3 * 44100));
    let a = generate_fingerprint(&samples, 44100);
    let b = generate_fingerprint(&samples, 44100);
    assert_eq!(a, b);
}

#[test]
fn fingerprint_length_bounded_by_sixteen_per_window() {
    let samples = normalize_i16_samples(&noise_i16(13, 2 * 44100 + 700));
    let n = samples.len();
    let windows = if n < 1024 { 0 } else { (n - 1024) / 512 + 1 };
    let fp = generate_fingerprint(&samples, 44100);
    assert!(fp.len() <= windows * 16);
}

#[test]
fn short_signal_yields_no_hashes() {
    let samples = normalize_i16_samples(&noise_i16(17, 1023));
    let fp = generate_fingerprint(&samples, 44100);
    assert_eq!(fp.len(), 0);
}

#[test]
fn silent_signal_yields_no_hashes() {
    let samples: Vec<i32> = vec![0; 3 * 44100];
    let fp = generate_fingerprint(&samples, 44100);
    assert_eq!(fp.len(), 0);
}

#[test]
fn exact_window_length_processes_one_window() {
    let long = two_tone_samples(0.5);
    let one_window: Vec<i32> = long[..1024].to_vec();
    let padded_same_window: Vec<i32> = long[..1535].to_vec();
    let fp1 = generate_fingerprint(&one_window, 44100);
    let fp2 = generate_fingerprint(&padded_same_window, 44100);
    // 1535 samples still admit only the window at offset 0.
    assert_eq!(fp1, fp2);
    assert!(!fp1.is_empty());
    assert!(fp1.len() <= 16);
}

#[test]
fn two_tone_hash_carries_band_diff_and_sum() {
    // Tones at bins 30 and 40 of the mid band (800-3000 Hz at 44.1 kHz):
    // one pair, so the fields are pinned up to the amplitude ratio.
    let samples = two_tone_samples(0.2);
    let fp = generate_fingerprint(&samples, 44100);
    assert!(!fp.is_empty());
    for h in &fp {
        if h >> 58 == 3 {
            assert_eq!((h >> 42) & 0xFFFF, 10, "bin distance");
            assert_eq!((h >> 18) & 0xFFFF, 70, "bin sum");
        }
    }
    assert!(fp.iter().any(|h| h >> 58 == 3));
}

#[test]
fn packing_example_matches_layout() {
    // Peaks (bin 100, amplitude 2.0) and (bin 140, amplitude 1.0) in the
    // mid band: 2.0 and 1.0 are 2^17 and 2^16 in amplitude carrier units.
    let h = pack_hash(3, 100, 2 << 16, 140, 1 << 16);
    assert_eq!(h, (3u64 << 58) | (40u64 << 42) | (200u64 << 34) | (240u64 << 18));
}

#[test]
fn pack_hash_saturates_diff_and_wraps_ratio_and_sum() {
    let h = pack_hash(1, 0, 300 << 16, 70000, 1 << 16);
    assert_eq!((h >> 42) & 0xFFFF, 0xFFFF, "distance saturates");
    assert_eq!((h >> 34) & 0xFF, (300u64 * 100) % 256, "ratio wraps");
    assert_eq!((h >> 18) & 0xFFFF, 70000 % 65536, "sum wraps");
}

#[test]
fn frequency_bands_at_cd_rate() {
    let fb = create_frequency_bands(1024, 44100);
    assert_eq!(fb.bass, (0, 7));
    assert_eq!(fb.low_mid, (7, 19));
    assert_eq!(fb.mid, (19, 70));
    assert_eq!(fb.high_mid, (70, 116));
    assert_eq!(fb.treble, (116, 186));
    assert_eq!(fb.presence, (186, 464));
}

#[test]
fn band_table_matches_named_bands() {
    let defs = band_defs(48000);
    let fb = create_frequency_bands(1024, 48000);
    assert_eq!(defs.len(), 6);
    assert_eq!((defs[0].lo, defs[0].hi), fb.bass);
    assert_eq!((defs[2].lo, defs[2].hi), fb.mid);
    assert_eq!((defs[5].lo, defs[5].hi), fb.presence);
    assert_eq!(defs[0].max_peaks, 3);
    assert_eq!(defs[1].max_peaks, 4);
    assert_eq!(defs[3].max_peaks, 2);
    assert_eq!(defs[5].max_peaks, 1);
}

#[test]
fn bin_rounding_is_half_up() {
    // 300 Hz at 44.1 kHz: 300 * 1024 / 44100 = 6.966 -> 7.
    assert_eq!(freq_to_bin(300, 1024, 44100), 7);
    // 300 Hz at 22.05 kHz: 13.93 -> 14.
    assert_eq!(freq_to_bin(300, 1024, 22050), 14);
    // Exact half: 512 Hz at 1024 bins over 1024 Hz rate -> 512.0 -> 512.
    assert_eq!(freq_to_bin(512, 1024, 1024), 512);
    // Half up: 3 * 1024 / 2048 = 1.5 -> 2.
    assert_eq!(freq_to_bin(3, 1024, 2048), 2);
}

#[test]
fn downmix_on_mono_is_identity() {
    let samples = normalize_i16_samples(&noise_i16(19, 4096));
    let mixed = downmix(&samples, 1);
    assert_eq!(mixed, samples);
}

#[test]
fn downmix_averages_frames_truncating_toward_zero() {
    let samples: Vec<i32> = vec![10, 20, -3, 0, 7, 8, 5];
    let mixed = downmix(&samples, 2);
    // Frames: [10,20], [-3,0], [7,8], [5]; -3/2 truncates to -1.
    assert_eq!(mixed, vec![15, -1, 7, 5]);
}

#[test]
fn sine_alone_never_pairs() {
    // A single tone puts one local maximum in one band per window, so no
    // peak pair and no hash: identification needs at least two peaks in
    // one band.
    let samples = normalize_i16_samples(&sine_i16(1000.0, 3.0, 44100, 0.9));
    let fp = generate_fingerprint(&samples, 44100);
    assert_eq!(fp.len(), 0);
}
