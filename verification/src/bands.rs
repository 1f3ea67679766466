//! Frequency bands of the analyser.
//!
//! Six bands, tuned for voice and music, are given by hard frequency edges in
//! Hz. An edge is converted to a spectrum bin by `bin = round(f / df)` where
//! `df = sample_rate / fft_size` is the frequency resolution; the rounding is
//! half away from zero, computed exactly in integers.

use vstd::prelude::*;

verus! {

/// Number of samples per analysis window.
pub const WINDOW_SIZE: usize = 1024;

/// Stride between successive window starts: half a window.
pub const HOP_SIZE: usize = 512;

/// Bin index of frequency `freq` Hz: `round(freq * fft_size / rate)`,
/// half rounded up, as exact integer arithmetic.
pub open spec fn spec_bin_of(freq: int, fft_size: int, rate: int) -> int
    recommends
        rate >= 1,
{
    (2 * freq * fft_size + rate) / (2 * rate)
}

/// Converts a frequency edge to its spectrum bin index.
pub fn freq_to_bin(freq: u32, fft_size: u32, rate: u32) -> (b: usize)
    requires
        1 <= rate,
        freq <= 20000,
        fft_size <= 4096,
    ensures
        b == spec_bin_of(freq as int, fft_size as int, rate as int),
        b <= freq * fft_size,
{
    proof {
        assert((freq as int) * (fft_size as int) <= 20000 * 4096) by (nonlinear_arith)
            requires
                freq <= 20000,
                fft_size <= 4096,
        ;
    }
    let fq: u64 = (freq as u64) * (fft_size as u64);
    let num: u64 = 2u64 * fq + (rate as u64);
    let den: u64 = 2u64 * (rate as u64);
    let q: u64 = num / den;
    proof {
        assert(2 * ((freq as int) * (fft_size as int)) == 2 * (freq as int) * (fft_size as int))
            by (nonlinear_arith);
        assert((num as int) / (den as int) <= (freq as int) * (fft_size as int))
            by (nonlinear_arith)
            requires
                num == 2 * ((freq as int) * (fft_size as int)) + rate,
                den == 2 * (rate as int),
                1 <= rate,
        ;
    }
    q as usize
}

/// One band of the peak extractor: its identifier (1 to 6), its bin range
/// (inclusive start, exclusive end, before clamping to the spectrum length),
/// how many peaks it may contribute, and its threshold multiplier in tenths.
#[derive(Clone, Copy, Debug, PartialEq, Eq, Structural)]
pub struct BandDef {
    pub id: u8,
    pub lo: usize,
    pub hi: usize,
    pub max_peaks: usize,
    pub mult10: u32,
}

/// The six band edges in Hz, with per-band peak budget and threshold
/// multiplier (in tenths): bass 20-300, low-mid 300-800, mid 800-3000,
/// high-mid 3000-5000, treble 5000-8000, presence 8000-20000.
pub open spec fn spec_band_defs(rate: int) -> Seq<BandDef>
    recommends
        rate >= 1,
{
    seq![
        BandDef {
            id: 1,
            lo: spec_bin_of(20, 1024, rate) as usize,
            hi: spec_bin_of(300, 1024, rate) as usize,
            max_peaks: 3,
            mult10: 11,
        },
        BandDef {
            id: 2,
            lo: spec_bin_of(300, 1024, rate) as usize,
            hi: spec_bin_of(800, 1024, rate) as usize,
            max_peaks: 4,
            mult10: 10,
        },
        BandDef {
            id: 3,
            lo: spec_bin_of(800, 1024, rate) as usize,
            hi: spec_bin_of(3000, 1024, rate) as usize,
            max_peaks: 4,
            mult10: 10,
        },
        BandDef {
            id: 4,
            lo: spec_bin_of(3000, 1024, rate) as usize,
            hi: spec_bin_of(5000, 1024, rate) as usize,
            max_peaks: 2,
            mult10: 12,
        },
        BandDef {
            id: 5,
            lo: spec_bin_of(5000, 1024, rate) as usize,
            hi: spec_bin_of(8000, 1024, rate) as usize,
            max_peaks: 1,
            mult10: 13,
        },
        BandDef {
            id: 6,
            lo: spec_bin_of(8000, 1024, rate) as usize,
            hi: spec_bin_of(20000, 1024, rate) as usize,
            max_peaks: 1,
            mult10: 14,
        },
    ]
}

/// Builds the band table for a sample rate.
pub fn band_defs(rate: u32) -> (r: Vec<BandDef>)
    requires
        1 <= rate,
    ensures
        r@ == spec_band_defs(rate as int),
{
    let mut v: Vec<BandDef> = Vec::new();
    v.push(BandDef {
        id: 1,
        lo: freq_to_bin(20, 1024, rate),
        hi: freq_to_bin(300, 1024, rate),
        max_peaks: 3,
        mult10: 11,
    });
    v.push(BandDef {
        id: 2,
        lo: freq_to_bin(300, 1024, rate),
        hi: freq_to_bin(800, 1024, rate),
        max_peaks: 4,
        mult10: 10,
    });
    v.push(BandDef {
        id: 3,
        lo: freq_to_bin(800, 1024, rate),
        hi: freq_to_bin(3000, 1024, rate),
        max_peaks: 4,
        mult10: 10,
    });
    v.push(BandDef {
        id: 4,
        lo: freq_to_bin(3000, 1024, rate),
        hi: freq_to_bin(5000, 1024, rate),
        max_peaks: 2,
        mult10: 12,
    });
    v.push(BandDef {
        id: 5,
        lo: freq_to_bin(5000, 1024, rate),
        hi: freq_to_bin(8000, 1024, rate),
        max_peaks: 1,
        mult10: 13,
    });
    v.push(BandDef {
        id: 6,
        lo: freq_to_bin(8000, 1024, rate),
        hi: freq_to_bin(20000, 1024, rate),
        max_peaks: 1,
        mult10: 14,
    });
    proof {
        assert(v@ =~= spec_band_defs(rate as int));
    }
    v
}

/// The six bin ranges by name, as the analyser sees them.
pub struct FrequencyBands {
    pub bass: (usize, usize),
    pub low_mid: (usize, usize),
    pub mid: (usize, usize),
    pub high_mid: (usize, usize),
    pub treble: (usize, usize),
    pub presence: (usize, usize),
}

/// Derives the named bin ranges for a window size and sample rate.
pub fn create_frequency_bands(fft_size: u32, rate: u32) -> (r: FrequencyBands)
    requires
        1 <= rate,
        fft_size <= 4096,
    ensures
        r.bass.0 == spec_bin_of(20, fft_size as int, rate as int),
        r.bass.1 == spec_bin_of(300, fft_size as int, rate as int),
        r.low_mid.0 == spec_bin_of(300, fft_size as int, rate as int),
        r.low_mid.1 == spec_bin_of(800, fft_size as int, rate as int),
        r.mid.0 == spec_bin_of(800, fft_size as int, rate as int),
        r.mid.1 == spec_bin_of(3000, fft_size as int, rate as int),
        r.high_mid.0 == spec_bin_of(3000, fft_size as int, rate as int),
        r.high_mid.1 == spec_bin_of(5000, fft_size as int, rate as int),
        r.treble.0 == spec_bin_of(5000, fft_size as int, rate as int),
        r.treble.1 == spec_bin_of(8000, fft_size as int, rate as int),
        r.presence.0 == spec_bin_of(8000, fft_size as int, rate as int),
        r.presence.1 == spec_bin_of(20000, fft_size as int, rate as int),
{
    FrequencyBands {
        bass: (freq_to_bin(20, fft_size, rate), freq_to_bin(300, fft_size, rate)),
        low_mid: (freq_to_bin(300, fft_size, rate), freq_to_bin(800, fft_size, rate)),
        mid: (freq_to_bin(800, fft_size, rate), freq_to_bin(3000, fft_size, rate)),
        high_mid: (freq_to_bin(3000, fft_size, rate), freq_to_bin(5000, fft_size, rate)),
        treble: (freq_to_bin(5000, fft_size, rate), freq_to_bin(8000, fft_size, rate)),
        presence: (freq_to_bin(8000, fft_size, rate), freq_to_bin(20000, fft_size, rate)),
    }
}

} // verus!
