//! Fingerprint generation.
//!
//! A window of `W = 1024` samples slides over the signal with a hop of
//! `W/2 = 512`: window `w` starts at `512 * w`, and every start with
//! `start + W <= len` is processed, so a signal shorter than `W` yields no
//! window and one of exactly `W` yields one. Per window, the magnitude
//! spectrum is computed, each of the six bands contributes its peaks, and
//! the band's peak pairs are packed into hashes, appended in
//! window-then-band-then-pair order.

use crate::bands::{band_defs, spec_band_defs, BandDef};
use crate::fixed::MAG_CAP;
use crate::hashes::{append_band_hashes, lemma_band_hashes_len, lemma_rows_upto_fields,
    spec_band_hashes};
use crate::peaks::{band_peaks, lemma_sort_amp_len, lemma_sort_bin_len, spec_band_peaks,
    spec_peak_ok, spec_peaks_ok, Peak};
use crate::score::{spec_ranked, SongMatch};
use crate::spectrum::{spec_window_mags, window_mags};
use crate::store::{FingerprintStore, SongInfo};
use vstd::arithmetic::div_mod::lemma_fundamental_div_mod;
use vstd::prelude::*;
use vstd::slice::slice_subrange;

verus! {

/// The hashes one window's magnitude spectrum contributes: the pair hashes
/// of each band's peaks, bands in ascending identifier order.
pub open spec fn spec_window_hashes(mags: Seq<u64>, rate: int) -> Seq<u64>
    recommends
        rate >= 1,
{
    let bs = spec_band_defs(rate);
    spec_band_hashes(spec_band_peaks(mags, bs[0])) + spec_band_hashes(spec_band_peaks(mags, bs[1]))
        + spec_band_hashes(spec_band_peaks(mags, bs[2])) + spec_band_hashes(
        spec_band_peaks(mags, bs[3]),
    ) + spec_band_hashes(spec_band_peaks(mags, bs[4])) + spec_band_hashes(
        spec_band_peaks(mags, bs[5]),
    )
}

/// Appends the pair hashes of one band's peaks to the fingerprint.
#[verifier::rlimit(100)]
fn one_band_hashes(mags: &Vec<u64>, d: &BandDef, out: &mut Vec<u64>)
    requires
        d.mult10 <= 14,
        mags@.len() <= 0xFFFF_FFFFusize,
        forall|k: int| 0 <= k < mags@.len() ==> mags@[k] <= MAG_CAP,
    ensures
        final(out)@ == old(out)@ + spec_band_hashes(spec_band_peaks(mags@, *d)),
{
    let ps: Vec<Peak> = band_peaks(mags, d);
    append_band_hashes(out, &ps);
}

/// Appends one window's hashes to the fingerprint.
#[verifier::rlimit(100)]
fn window_hashes(mags: &Vec<u64>, rate: u32, out: &mut Vec<u64>)
    requires
        1 <= rate,
        mags@.len() <= 0xFFFF_FFFFusize,
        forall|k: int| 0 <= k < mags@.len() ==> mags@[k] <= MAG_CAP,
    ensures
        final(out)@ == old(out)@ + spec_window_hashes(mags@, rate as int),
{
    let bands: Vec<BandDef> = band_defs(rate);
    let ghost base = out@;
    one_band_hashes(mags, &bands[0], out);
    one_band_hashes(mags, &bands[1], out);
    one_band_hashes(mags, &bands[2], out);
    one_band_hashes(mags, &bands[3], out);
    one_band_hashes(mags, &bands[4], out);
    one_band_hashes(mags, &bands[5], out);
    proof {
        let bs = spec_band_defs(rate as int);
        let h0 = spec_band_hashes(spec_band_peaks(mags@, bs[0]));
        let h1 = spec_band_hashes(spec_band_peaks(mags@, bs[1]));
        let h2 = spec_band_hashes(spec_band_peaks(mags@, bs[2]));
        let h3 = spec_band_hashes(spec_band_peaks(mags@, bs[3]));
        let h4 = spec_band_hashes(spec_band_peaks(mags@, bs[4]));
        let h5 = spec_band_hashes(spec_band_peaks(mags@, bs[5]));
        assert(out@ =~= base + h0 + h1 + h2 + h3 + h4 + h5);
        assert(spec_window_hashes(mags@, rate as int) == h0 + h1 + h2 + h3 + h4 + h5);
        assert(base + h0 + h1 + h2 + h3 + h4 + h5 =~= base + (h0 + h1 + h2 + h3 + h4 + h5));
    }
}

/// How many windows a signal of `len` samples yields.
pub open spec fn spec_window_count(len: nat) -> nat {
    if len < 1024 {
        0
    } else {
        ((len - 1024) / 512 + 1) as nat
    }
}

/// The fingerprint of the first `w` windows.
pub open spec fn spec_fingerprint_upto(samples: Seq<i32>, rate: int, w: nat) -> Seq<u64>
    decreases w,
{
    if w == 0 {
        Seq::empty()
    } else {
        spec_fingerprint_upto(samples, rate, (w - 1) as nat) + spec_window_hashes(
            spec_window_mags(samples.subrange(512 * (w - 1), 512 * (w - 1) + 1024)),
            rate,
        )
    }
}

/// The fingerprint of a signal: the hashes of each of its windows, in order.
pub open spec fn spec_fingerprint(samples: Seq<i32>, rate: int) -> Seq<u64>
    recommends
        rate >= 1,
{
    spec_fingerprint_upto(samples, rate, spec_window_count(samples.len()))
}

/// Every window processed lies inside the signal.
proof fn lemma_window_in_range(len: int, w: int)
    requires
        len >= 1024,
        0 <= w < (len - 1024) / 512 + 1,
    ensures
        512 * w + 1024 <= len,
{
    lemma_fundamental_div_mod(len - 1024, 512);
    assert(512 * w <= 512 * ((len - 1024) / 512)) by (nonlinear_arith)
        requires
            w <= (len - 1024) / 512,
    ;
}

/// Generates the fingerprint hashes of a mono signal.
pub fn generate_fingerprint(samples: &Vec<i32>, sample_rate: u32) -> (r: Vec<u64>)
    requires
        1 <= sample_rate,
    ensures
        r@ == spec_fingerprint(samples@, sample_rate as int),
        samples@.len() < 1024 ==> r@.len() == 0,
        (forall|k: int| 0 <= k < samples@.len() ==> samples@[k] == 0) ==> r@.len() == 0,
{
    let mut out: Vec<u64> = Vec::new();
    let n: usize = samples.len();
    if n < 1024 {
        return out;
    }
    let count: usize = (n - 1024) / 512 + 1;
    let mut w: usize = 0;
    while w < count
        invariant
            w <= count,
            n == samples@.len(),
            n >= 1024,
            1 <= sample_rate,
            count == (n - 1024) / 512 + 1,
            out@ == spec_fingerprint_upto(samples@, sample_rate as int, w as nat),
            (forall|k: int| 0 <= k < samples@.len() ==> samples@[k] == 0) ==> out@.len() == 0,
        decreases count - w,
    {
        proof {
            lemma_window_in_range(n as int, w as int);
        }
        let start: usize = 512 * w;
        let window: &[i32] = slice_subrange(samples.as_slice(), start, start + 1024);
        let mags: Vec<u64> = window_mags(window);
        let ghost pre = out@;
        window_hashes(&mags, sample_rate, &mut out);
        proof {
            if forall|k: int| 0 <= k < samples@.len() ==> samples@[k] == 0 {
                assert(forall|k: int| 0 <= k < window@.len() ==> window@[k] == 0);
                lemma_zero_mags_no_hashes(mags@, sample_rate as int);
                assert(out@ =~= pre);
            }
        }
        w = w + 1;
    }
    out
}

/// A spectrum of zero magnitudes admits no peak, so it contributes no hash:
/// a peak's amplitude must strictly exceed the adaptive threshold, which a
/// zero amplitude cannot.
pub proof fn lemma_zero_mags_no_hashes(mags: Seq<u64>, rate: int)
    requires
        rate >= 1,
        forall|k: int| 0 <= k < mags.len() ==> mags[k] == 0,
    ensures
        spec_window_hashes(mags, rate).len() == 0,
{
    let bs = spec_band_defs(rate);
    lemma_zero_band_no_hashes(mags, bs[0]);
    lemma_zero_band_no_hashes(mags, bs[1]);
    lemma_zero_band_no_hashes(mags, bs[2]);
    lemma_zero_band_no_hashes(mags, bs[3]);
    lemma_zero_band_no_hashes(mags, bs[4]);
    lemma_zero_band_no_hashes(mags, bs[5]);
}

proof fn lemma_zero_band_no_hashes(mags: Seq<u64>, d: BandDef)
    requires
        forall|k: int| 0 <= k < mags.len() ==> mags[k] == 0,
    ensures
        spec_band_hashes(spec_band_peaks(mags, d)).len() == 0,
{
    let hi_c: int = if d.hi <= mags.len() {
        d.hi as int
    } else {
        mags.len() as int
    };
    let lo_c: int = if d.lo as int <= hi_c {
        d.lo as int
    } else {
        hi_c
    };
    if crate::peaks::spec_cand_count(lo_c, hi_c) > 0 {
        lemma_zero_cands_empty(
            mags,
            lo_c,
            hi_c,
            d.mult10,
            d.id,
            crate::peaks::spec_cand_count(lo_c, hi_c),
        );
    }
    lemma_sort_amp_len(Seq::<Peak>::empty());
    lemma_sort_bin_len(Seq::<Peak>::empty());
    lemma_band_hashes_len(spec_band_peaks(mags, d));
}

proof fn lemma_zero_cands_empty(mags: Seq<u64>, lo: int, hi: int, mult10: u32, id: u8, n: nat)
    requires
        0 <= lo,
        hi <= mags.len(),
        lo + 3 + n <= hi - 3,
        forall|k: int| 0 <= k < mags.len() ==> mags[k] == 0,
    ensures
        crate::peaks::spec_cands_upto(mags, lo, hi, mult10, id, n).len() == 0,
    decreases n,
{
    if n > 0 {
        lemma_zero_cands_empty(mags, lo, hi, mult10, id, (n - 1) as nat);
        let i = lo + 3 + (n - 1);
        crate::peaks::lemma_seq_sum_nonneg(mags.subrange(lo, hi));
        assert((mags[i] as int) * ((hi - lo) * 10) == 0) by (nonlinear_arith)
            requires
                mags[i] == 0,
        ;
        assert(crate::peaks::spec_seq_sum(mags.subrange(lo, hi)) * (mult10 as int) >= 0)
            by (nonlinear_arith)
            requires
                crate::peaks::spec_seq_sum(mags.subrange(lo, hi)) >= 0,
                mult10 >= 0,
        ;
        assert(!crate::peaks::spec_is_peak_at(mags, lo, hi, mult10, i));
    }
}

/// The fingerprinting engine: hash generation over an in-memory store.
pub struct AudioFingerprinter {
    store: FingerprintStore,
}

impl AudioFingerprinter {
    /// The engine's store.
    pub closed spec fn spec_store(self) -> FingerprintStore {
        self.store
    }

    /// The engine is well-formed when its store is.
    pub open spec fn wf(self) -> bool {
        self.spec_store().wf()
    }

    /// An engine over an empty store.
    pub fn new() -> (r: Self)
        ensures
            r.wf(),
            r.spec_store().spec_songs() == Seq::<SongInfo>::empty(),
            forall|h: u64| #[trigger] r.spec_store().spec_posting(h) == Seq::<u64>::empty(),
    {
        AudioFingerprinter { store: FingerprintStore::new() }
    }

    /// Generates the fingerprint hashes of a mono signal.
    pub fn generate_fingerprint(&self, audio_data: &Vec<i32>, sample_rate: u32) -> (r: Vec<u64>)
        requires
            1 <= sample_rate,
        ensures
            r@ == spec_fingerprint(audio_data@, sample_rate as int),
            audio_data@.len() < 1024 ==> r@.len() == 0,
            (forall|k: int| 0 <= k < audio_data@.len() ==> audio_data@[k] == 0) ==> r@.len() == 0,
    {
        generate_fingerprint(audio_data, sample_rate)
    }

    /// Enrolls a recording: fingerprints it and stores the hashes under the
    /// next song identifier, which it returns.
    pub fn store_song(&mut self, song_info: SongInfo, audio_data: &Vec<i32>, sample_rate: u32) -> (id: u64)
        requires
            old(self).wf(),
            1 <= sample_rate,
            old(self).spec_store().spec_songs().len() < 0xFFFF_FFFF_FFFF_FFFFu64,
        ensures
            final(self).wf(),
            id == old(self).spec_store().spec_songs().len() + 1,
            final(self).spec_store().spec_songs() == old(self).spec_store().spec_songs().push(
                song_info,
            ),
            forall|h: u64|
                spec_fingerprint(audio_data@, sample_rate as int).contains(h)
                    ==> #[trigger] final(self).spec_store().spec_posting(h) == old(
                    self,
                ).spec_store().spec_posting(h).push(id),
            forall|h: u64|
                !spec_fingerprint(audio_data@, sample_rate as int).contains(h)
                    ==> #[trigger] final(self).spec_store().spec_posting(h) == old(
                    self,
                ).spec_store().spec_posting(h),
    {
        let fingerprints: Vec<u64> = generate_fingerprint(audio_data, sample_rate);
        self.store.store_song(song_info, &fingerprints)
    }

    /// Ranks the enrolled recordings against a query clip.
    pub fn search_song(&self, audio_clip: &Vec<i32>, sample_rate: u32) -> (r: Vec<SongMatch>)
        requires
            self.wf(),
            1 <= sample_rate,
        ensures
            r@ == spec_ranked(
                self.spec_store().spec_query_rows(
                    spec_fingerprint(audio_clip@, sample_rate as int),
                ),
            ),
            forall|k: int|
                0 <= k < r@.len() ==> 1 <= (#[trigger] r@[k]).song_id
                    <= self.spec_store().spec_songs().len(),
    {
        let fingerprints: Vec<u64> = generate_fingerprint(audio_clip, sample_rate);
        self.store.search_fingerprints(&fingerprints)
    }

    /// The record of an enrolled song; `None` for an unknown identifier.
    pub fn get_song(&self, id: u64) -> (r: Option<&SongInfo>)
        ensures
            r is Some <==> 1 <= id <= self.spec_store().spec_songs().len(),
            r is Some ==> *r.unwrap() == self.spec_store().spec_songs()[id - 1],
    {
        self.store.get_song(id)
    }

    /// How many songs are enrolled.
    pub fn song_count(&self) -> (r: usize)
        ensures
            r == self.spec_store().spec_songs().len(),
    {
        self.store.song_count()
    }
}

/// Generating a fingerprint is pure: the result is a function of the samples
/// and the sample rate alone, so two calls on the same samples at the same
/// rate return identical hash sequences.
pub proof fn lemma_fingerprint_pure(s1: Seq<i32>, s2: Seq<i32>, rate: int)
    requires
        s1 == s2,
    ensures
        spec_fingerprint(s1, rate) == spec_fingerprint(s2, rate),
{
}

/// A signal of exactly one window's length yields exactly one window, and
/// its fingerprint is that single window's hashes.
#[verifier::rlimit(100)]
pub proof fn lemma_single_window(samples: Seq<i32>, rate: int)
    requires
        samples.len() == 1024,
    ensures
        spec_window_count(samples.len()) == 1,
        spec_fingerprint(samples, rate) == spec_window_hashes(spec_window_mags(samples), rate),
{
    let wh = spec_window_hashes(spec_window_mags(samples), rate);
    assert(spec_window_count(samples.len()) == 1);
    assert(samples.subrange(0, 1024) =~= samples);
    assert(spec_fingerprint_upto(samples, rate, 1) == spec_fingerprint_upto(samples, rate, 0)
        + wh);
    assert(Seq::<u64>::empty() + wh =~= wh);
}

/// A band's peak list never exceeds its peak budget.
proof fn lemma_band_peaks_cap(mags: Seq<u64>, d: BandDef)
    ensures
        spec_band_peaks(mags, d).len() <= d.max_peaks,
{
    let hi_c: int = if d.hi <= mags.len() {
        d.hi as int
    } else {
        mags.len() as int
    };
    let lo_c: int = if d.lo as int <= hi_c {
        d.lo as int
    } else {
        hi_c
    };
    let cands = crate::peaks::spec_band_cands(mags, lo_c, hi_c, d.mult10, d.id);
    lemma_sort_amp_len(cands);
    let sorted = crate::peaks::spec_sort_amp_desc(cands);
    let picked = if sorted.len() <= d.max_peaks {
        sorted
    } else {
        sorted.take(d.max_peaks as int)
    };
    lemma_sort_bin_len(picked);
}

/// A band whose peak list has at most `k` entries emits at most
/// `k * (k - 1) / 2` hashes.
proof fn lemma_band_hashes_cap(ps: Seq<Peak>, k: int)
    requires
        ps.len() <= k,
    ensures
        2 * spec_band_hashes(ps).len() <= k * (k - 1),
{
    lemma_band_hashes_len(ps);
    assert(ps.len() * (ps.len() - 1) <= k * (k - 1)) by (nonlinear_arith)
        requires
            0 <= ps.len() <= k,
    ;
}

/// One window emits at most 16 hashes: the six bands' peak budgets allow
/// 3 + 6 + 6 + 1 + 0 + 0 pairs.
pub proof fn lemma_window_hashes_bound(mags: Seq<u64>, rate: int)
    requires
        rate >= 1,
    ensures
        spec_window_hashes(mags, rate).len() <= 16,
{
    let bs = spec_band_defs(rate);
    lemma_band_peaks_cap(mags, bs[0]);
    lemma_band_peaks_cap(mags, bs[1]);
    lemma_band_peaks_cap(mags, bs[2]);
    lemma_band_peaks_cap(mags, bs[3]);
    lemma_band_peaks_cap(mags, bs[4]);
    lemma_band_peaks_cap(mags, bs[5]);
    lemma_band_hashes_cap(spec_band_peaks(mags, bs[0]), 3);
    lemma_band_hashes_cap(spec_band_peaks(mags, bs[1]), 4);
    lemma_band_hashes_cap(spec_band_peaks(mags, bs[2]), 4);
    lemma_band_hashes_cap(spec_band_peaks(mags, bs[3]), 2);
    lemma_band_hashes_cap(spec_band_peaks(mags, bs[4]), 1);
    lemma_band_hashes_cap(spec_band_peaks(mags, bs[5]), 1);
}

/// The fingerprint of a signal holds at most 16 hashes per window:
/// its length is bounded by `((len - W) / (W/2) + 1) * 16` for a signal of
/// at least `W` samples, and is zero below that.
pub proof fn lemma_fingerprint_length_bound(samples: Seq<i32>, rate: int)
    requires
        rate >= 1,
    ensures
        spec_fingerprint(samples, rate).len() <= spec_window_count(samples.len()) * 16,
{
    lemma_fingerprint_upto_bound(samples, rate, spec_window_count(samples.len()));
}

proof fn lemma_fingerprint_upto_bound(samples: Seq<i32>, rate: int, w: nat)
    requires
        rate >= 1,
    ensures
        spec_fingerprint_upto(samples, rate, w).len() <= w * 16,
    decreases w,
{
    if w == 0 {
        assert(w * 16 == 0) by (nonlinear_arith)
            requires
                w == 0,
        ;
    } else {
        lemma_fingerprint_upto_bound(samples, rate, (w - 1) as nat);
        lemma_window_hashes_bound(
            spec_window_mags(samples.subrange(512 * (w - 1), 512 * (w - 1) + 1024)),
            rate,
        );
        assert((w - 1) * 16 + 16 == w * 16) by (nonlinear_arith);
    }
}

/// Every magnitude carrier of a window's spectrum is within the cap.
proof fn lemma_window_mags_range(window: Seq<i32>)
    ensures
        forall|k: int|
            0 <= k < spec_window_mags(window).len() ==> #[trigger] spec_window_mags(window)[k]
                <= MAG_CAP,
{
    let bits = crate::spectrum::spec_spectrum_bits(window);
    assert forall|k: int|
        0 <= k < spec_window_mags(window).len() implies #[trigger] spec_window_mags(window)[k]
        <= MAG_CAP by {
        crate::fixed::lemma_mag_of_bits_range(bits[k]);
    }
}

/// The peaks a band contributes are well-formed for that band.
proof fn lemma_band_peaks_ok(mags: Seq<u64>, d: BandDef)
    requires
        forall|k: int| 0 <= k < mags.len() ==> mags[k] <= MAG_CAP,
    ensures
        spec_peaks_ok(spec_band_peaks(mags, d), d.id, mags.len() as int),
{
    let hi_c: int = if d.hi <= mags.len() {
        d.hi as int
    } else {
        mags.len() as int
    };
    let lo_c: int = if d.lo as int <= hi_c {
        d.lo as int
    } else {
        hi_c
    };
    let count = crate::peaks::spec_cand_count(lo_c, hi_c);
    if count > 0 {
        crate::peaks::lemma_cands_ok(mags, lo_c, hi_c, d.mult10, d.id, count);
    }
    let cands = crate::peaks::spec_band_cands(mags, lo_c, hi_c, d.mult10, d.id);
    crate::peaks::lemma_sort_amp_ok(cands, d.id, mags.len() as int);
    let sorted = crate::peaks::spec_sort_amp_desc(cands);
    let picked = if sorted.len() <= d.max_peaks {
        sorted
    } else {
        sorted.take(d.max_peaks as int)
    };
    assert(spec_peaks_ok(picked, d.id, mags.len() as int));
    crate::peaks::lemma_sort_bin_ok(picked, d.id, mags.len() as int);
}

/// Every hash of one window keeps its low 18 bits zero and carries a band
/// identifier of 1 to 6.
proof fn lemma_window_hashes_fields(mags: Seq<u64>, rate: int)
    requires
        rate >= 1,
        forall|k: int| 0 <= k < mags.len() ==> mags[k] <= MAG_CAP,
    ensures
        forall|t: int|
            0 <= t < spec_window_hashes(mags, rate).len() ==> (#[trigger] spec_window_hashes(
                mags,
                rate,
            )[t]) & 0x3_FFFF == 0 && 1 <= spec_window_hashes(mags, rate)[t] >> 58u64 <= 6,
{
    let bs = spec_band_defs(rate);
    lemma_one_band_fields(mags, bs[0]);
    lemma_one_band_fields(mags, bs[1]);
    lemma_one_band_fields(mags, bs[2]);
    lemma_one_band_fields(mags, bs[3]);
    lemma_one_band_fields(mags, bs[4]);
    lemma_one_band_fields(mags, bs[5]);
}

proof fn lemma_one_band_fields(mags: Seq<u64>, d: BandDef)
    requires
        1 <= d.id <= 6,
        forall|k: int| 0 <= k < mags.len() ==> mags[k] <= MAG_CAP,
    ensures
        forall|t: int|
            0 <= t < spec_band_hashes(spec_band_peaks(mags, d)).len() ==> (
            #[trigger] spec_band_hashes(spec_band_peaks(mags, d))[t]) & 0x3_FFFF == 0 && 1
                <= spec_band_hashes(spec_band_peaks(mags, d))[t] >> 58u64 <= 6,
{
    lemma_band_peaks_ok(mags, d);
    let ps = spec_band_peaks(mags, d);
    assert forall|k: int| 0 <= k < ps.len() implies 1 <= (#[trigger] ps[k].band) <= 6 by {
        assert(spec_peak_ok(ps[k], d.id, mags.len() as int));
    }
    assert forall|k: int| 0 <= k < ps.len() implies (#[trigger] ps[k].amp) >= 1 by {
        assert(spec_peak_ok(ps[k], d.id, mags.len() as int));
    }
    lemma_rows_upto_fields(ps, ps.len() as int);
}

/// Every hash of a fingerprint keeps bits 17..0 zero and carries a band
/// identifier of 1 to 6 in bits 63..58.
pub proof fn lemma_fingerprint_fields(samples: Seq<i32>, rate: int)
    requires
        rate >= 1,
    ensures
        forall|t: int|
            0 <= t < spec_fingerprint(samples, rate).len() ==> (#[trigger] spec_fingerprint(
                samples,
                rate,
            )[t]) & 0x3_FFFF == 0 && 1 <= spec_fingerprint(samples, rate)[t] >> 58u64 <= 6,
{
    lemma_fingerprint_hash_fields(samples, rate, spec_window_count(samples.len()));
}

/// The windows-so-far form of the hash-field invariant.
proof fn lemma_fingerprint_hash_fields(samples: Seq<i32>, rate: int, w: nat)
    requires
        rate >= 1,
    ensures
        forall|t: int|
            0 <= t < spec_fingerprint_upto(samples, rate, w).len() ==> (
            #[trigger] spec_fingerprint_upto(samples, rate, w)[t]) & 0x3_FFFF == 0 && 1
                <= spec_fingerprint_upto(samples, rate, w)[t] >> 58u64 <= 6,
    decreases w,
{
    if w > 0 {
        lemma_fingerprint_hash_fields(samples, rate, (w - 1) as nat);
        let win = samples.subrange(512 * (w - 1), 512 * (w - 1) + 1024);
        lemma_window_mags_range(win);
        lemma_window_hashes_fields(spec_window_mags(win), rate);
        let prev = spec_fingerprint_upto(samples, rate, (w - 1) as nat);
        let wh = spec_window_hashes(spec_window_mags(win), rate);
        let r = spec_fingerprint_upto(samples, rate, w);
        assert forall|t: int| 0 <= t < r.len() implies (#[trigger] r[t]) & 0x3_FFFF == 0 && 1
            <= r[t] >> 58u64 <= 6 by {
            if t < prev.len() {
                assert(r[t] == prev[t]);
            } else {
                assert(r[t] == wh[t - prev.len()]);
            }
        }
    }
}

} // verus!
