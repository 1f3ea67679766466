//! Per-band peak extraction.
//!
//! Within a band's bin range, a centre bin is a peak when its amplitude
//! strictly exceeds the band's adaptive threshold and is at least every
//! amplitude in the seven-wide window around it. The threshold is the band's
//! mean amplitude times a per-band multiplier; the comparison
//! `amp > (sum / width) * (mult10 / 10)` is carried out exactly as
//! `amp * width * 10 > sum * mult10`.
//!
//! Detected candidates are ordered by descending amplitude (stable), cut to
//! the band's peak budget, and finally ordered by ascending bin for pairing.

use crate::bands::BandDef;
use crate::fixed::MAG_CAP;
use vstd::prelude::*;

verus! {

/// A spectral peak: its global bin index, its amplitude carrier, and the
/// identifier of the band it was found in.
#[derive(Clone, Copy, Debug, PartialEq, Eq, Structural)]
pub struct Peak {
    pub bin: usize,
    pub amp: u64,
    pub band: u8,
}

/// A peak that band extraction over a spectrum of length `len` can produce
/// for band `id`: its amplitude is positive, within the magnitude cap, and
/// its bin is in range.
pub open spec fn spec_peak_ok(p: Peak, id: u8, len: int) -> bool {
    &&& p.band == id
    &&& 1 <= p.amp <= MAG_CAP
    &&& p.bin < len
}

/// All peaks of a sequence satisfy `spec_peak_ok`.
pub open spec fn spec_peaks_ok(s: Seq<Peak>, id: u8, len: int) -> bool {
    forall|k: int| 0 <= k < s.len() ==> spec_peak_ok(#[trigger] s[k], id, len)
}

/// Sum of a sequence of amplitudes.
pub open spec fn spec_seq_sum(s: Seq<u64>) -> int
    decreases s.len(),
{
    if s.len() == 0 {
        0
    } else {
        spec_seq_sum(s.drop_last()) + s.last()
    }
}

pub proof fn lemma_seq_sum_nonneg(s: Seq<u64>)
    ensures
        spec_seq_sum(s) >= 0,
    decreases s.len(),
{
    if s.len() > 0 {
        lemma_seq_sum_nonneg(s.drop_last());
    }
}

pub proof fn lemma_seq_sum_bound(s: Seq<u64>, b: int)
    requires
        b >= 0,
        forall|k: int| 0 <= k < s.len() ==> s[k] <= b,
    ensures
        spec_seq_sum(s) <= s.len() * b,
    decreases s.len(),
{
    if s.len() == 0 {
    } else {
        lemma_seq_sum_bound(s.drop_last(), b);
        assert((s.len() - 1) * b + b == s.len() * b) by (nonlinear_arith);
    }
}

/// Sums the amplitudes of `s[lo..hi]`.
pub fn band_sum(s: &Vec<u64>, lo: usize, hi: usize) -> (r: u128)
    requires
        lo <= hi,
        hi <= s@.len(),
    ensures
        r as int == spec_seq_sum(s@.subrange(lo as int, hi as int)),
{
    let mut acc: u128 = 0;
    let mut i: usize = lo;
    while i < hi
        invariant
            lo <= i <= hi,
            hi <= s@.len(),
            acc as int == spec_seq_sum(s@.subrange(lo as int, i as int)),
            acc as int <= (i - lo) * 0xFFFF_FFFF_FFFF_FFFF,
        decreases hi - i,
    {
        proof {
            assert(s@.subrange(lo as int, i as int + 1).drop_last() =~= s@.subrange(
                lo as int,
                i as int,
            ));
        }
        acc = acc + s[i] as u128;
        i = i + 1;
    }
    acc
}

/// Bin `i` is a peak of band `[lo, hi)` with threshold multiplier `mult10`
/// tenths: it lies three bins inside the band, its amplitude beats the
/// adaptive threshold, and no bin within three of it is larger.
pub open spec fn spec_is_peak_at(s: Seq<u64>, lo: int, hi: int, mult10: u32, i: int) -> bool
    recommends
        0 <= lo <= hi <= s.len(),
{
    &&& lo + 3 <= i < hi - 3
    &&& (s[i] as int) * ((hi - lo) * 10) > spec_seq_sum(s.subrange(lo, hi)) * (mult10 as int)
    &&& forall|j: int| i - 3 <= j <= i + 3 ==> s[j] <= s[i]
}

/// Checks that no amplitude within three bins of `i` exceeds `s[i]`.
fn window_is_max(s: &Vec<u64>, i: usize) -> (r: bool)
    requires
        3 <= i,
        i + 3 < s@.len(),
    ensures
        r == (forall|j: int| i - 3 <= j <= i + 3 ==> s@[j] <= s@[i as int]),
{
    let n: usize = s.len();
    let c: u64 = s[i];
    let mut j: usize = i - 3;
    let mut ok: bool = true;
    while j <= i + 3
        invariant
            3 <= i,
            i + 3 < n,
            n == s@.len(),
            i - 3 <= j <= i + 4,
            c == s@[i as int],
            ok == (forall|t: int| i - 3 <= t < j ==> s@[t] <= s@[i as int]),
        decreases i + 4 - j,
    {
        if s[j] > c {
            ok = false;
        }
        j = j + 1;
    }
    ok
}

/// Number of centre positions a band of range `[lo, hi)` offers.
pub open spec fn spec_cand_count(lo: int, hi: int) -> nat {
    if hi - lo >= 7 {
        (hi - lo - 6) as nat
    } else {
        0
    }
}

/// The candidate peaks found at the first `n` centre positions of the band,
/// in ascending bin order.
pub open spec fn spec_cands_upto(s: Seq<u64>, lo: int, hi: int, mult10: u32, id: u8, n: nat) -> Seq<
    Peak,
>
    decreases n,
{
    if n == 0 {
        Seq::empty()
    } else {
        let prev = spec_cands_upto(s, lo, hi, mult10, id, (n - 1) as nat);
        let i = lo + 3 + (n - 1);
        if spec_is_peak_at(s, lo, hi, mult10, i) {
            prev.push(Peak { bin: i as usize, amp: s[i], band: id })
        } else {
            prev
        }
    }
}

/// All candidate peaks of band `[lo, hi)`.
pub open spec fn spec_band_cands(s: Seq<u64>, lo: int, hi: int, mult10: u32, id: u8) -> Seq<Peak> {
    spec_cands_upto(s, lo, hi, mult10, id, spec_cand_count(lo, hi))
}

pub proof fn lemma_cands_ok(s: Seq<u64>, lo: int, hi: int, mult10: u32, id: u8, n: nat)
    requires
        0 <= lo,
        lo + 3 + n <= hi - 3,
        hi <= s.len(),
        forall|k: int| 0 <= k < s.len() ==> s[k] <= MAG_CAP,
    ensures
        spec_peaks_ok(spec_cands_upto(s, lo, hi, mult10, id, n), id, s.len() as int),
    decreases n,
{
    if n > 0 {
        lemma_cands_ok(s, lo, hi, mult10, id, (n - 1) as nat);
        let i = lo + 3 + (n - 1);
        if spec_is_peak_at(s, lo, hi, mult10, i) {
            lemma_seq_sum_nonneg(s.subrange(lo, hi));
            assert(spec_seq_sum(s.subrange(lo, hi)) * (mult10 as int) >= 0) by (nonlinear_arith)
                requires
                    spec_seq_sum(s.subrange(lo, hi)) >= 0,
                    mult10 >= 0,
            ;
            assert(s[i] >= 1) by (nonlinear_arith)
                requires
                    (s[i] as int) * ((hi - lo) * 10) > 0,
            ;
        }
    }
}

/// Collects the candidate peaks of band `[lo, hi)` of the spectrum.
pub fn band_candidates(s: &Vec<u64>, lo: usize, hi: usize, mult10: u32, id: u8) -> (r: Vec<Peak>)
    requires
        lo <= hi,
        hi <= s@.len(),
        mult10 <= 14,
        forall|k: int| 0 <= k < s@.len() ==> s@[k] <= MAG_CAP,
    ensures
        r@ == spec_band_cands(s@, lo as int, hi as int, mult10, id),
{
    let mut out: Vec<Peak> = Vec::new();
    if hi - lo < 7 {
        return out;
    }
    let sum: u128 = band_sum(s, lo, hi);
    proof {
        lemma_seq_sum_bound(s@.subrange(lo as int, hi as int), MAG_CAP as int);
        assert((hi - lo) * (MAG_CAP as int) <= 0xFFFF_FFFF_FFFF_FFFFi128 * (MAG_CAP as int))
            by (nonlinear_arith)
            requires
                0 <= (hi - lo) <= 0xFFFF_FFFF_FFFF_FFFFi128,
        ;
    }
    let width10: u128 = (hi - lo) as u128 * 10;
    let mut i: usize = lo + 3;
    while i < hi - 3
        invariant
            lo + 3 <= i <= hi - 3,
            hi - lo >= 7,
            hi <= s@.len(),
            mult10 <= 14,
            forall|k: int| 0 <= k < s@.len() ==> s@[k] <= MAG_CAP,
            sum as int == spec_seq_sum(s@.subrange(lo as int, hi as int)),
            sum as int <= 0xFFFF_FFFF_FFFF_FFFFi128 * (MAG_CAP as int),
            width10 == (hi - lo) * 10,
            out@ == spec_cands_upto(
                s@,
                lo as int,
                hi as int,
                mult10,
                id,
                (i - lo - 3) as nat,
            ),
        decreases hi - 3 - i,
    {
        let amp: u64 = s[i];
        proof {
            assert((amp as int) * ((hi - lo) * 10) <= (MAG_CAP as int) * ((hi - lo) * 10))
                by (nonlinear_arith)
                requires
                    0 <= amp <= MAG_CAP,
                    hi - lo >= 0,
            ;
            assert((MAG_CAP as int) * ((hi - lo) * 10) <= (MAG_CAP as int) * (
            0xFFFF_FFFF_FFFF_FFFFi128 * 10)) by (nonlinear_arith)
                requires
                    0 <= (hi - lo) <= 0xFFFF_FFFF_FFFF_FFFFi128,
            ;
            assert(sum as int * (mult10 as int) <= (0xFFFF_FFFF_FFFF_FFFFi128 * (MAG_CAP as int))
                * 14) by (nonlinear_arith)
                requires
                    0 <= sum as int <= 0xFFFF_FFFF_FFFF_FFFFi128 * (MAG_CAP as int),
                    0 <= mult10 <= 14,
            ;
        }
        let above: bool = (amp as u128) * width10 > sum * (mult10 as u128);
        if above && window_is_max(s, i) {
            out.push(Peak { bin: i, amp, band: id });
        }
        i = i + 1;
    }
    out
}

/// Inserts `x` into an amplitude-descending sequence, after every element
/// whose amplitude is at least `x`'s (a stable insertion).
pub open spec fn spec_insert_amp(s: Seq<Peak>, x: Peak) -> Seq<Peak>
    decreases s.len(),
{
    if s.len() == 0 {
        seq![x]
    } else if s.last().amp >= x.amp {
        s.push(x)
    } else {
        spec_insert_amp(s.drop_last(), x).push(s.last())
    }
}

/// Stable sort by descending amplitude, one insertion per element.
pub open spec fn spec_sort_amp_desc(s: Seq<Peak>) -> Seq<Peak>
    decreases s.len(),
{
    if s.len() == 0 {
        Seq::empty()
    } else {
        spec_insert_amp(spec_sort_amp_desc(s.drop_last()), s.last())
    }
}

/// Where the insertion point is known, the stable insertion is `Seq::insert`.
pub proof fn lemma_insert_amp_at(s: Seq<Peak>, x: Peak, k: int)
    requires
        0 <= k <= s.len(),
        forall|j: int| k <= j < s.len() ==> s[j].amp < x.amp,
        k > 0 ==> s[k - 1].amp >= x.amp,
    ensures
        spec_insert_amp(s, x) == s.insert(k, x),
    decreases s.len(),
{
    if s.len() == 0 {
        assert(spec_insert_amp(s, x) =~= s.insert(0, x));
    } else if k == s.len() {
        assert(s.push(x) =~= s.insert(k, x));
    } else {
        lemma_insert_amp_at(s.drop_last(), x, k);
        assert(s.drop_last().insert(k, x).push(s.last()) =~= s.insert(k, x));
    }
}

pub proof fn lemma_insert_amp_ok(s: Seq<Peak>, x: Peak, id: u8, len: int)
    requires
        spec_peaks_ok(s, id, len),
        spec_peak_ok(x, id, len),
    ensures
        spec_peaks_ok(spec_insert_amp(s, x), id, len),
    decreases s.len(),
{
    if s.len() == 0 {
    } else if s.last().amp >= x.amp {
    } else {
        lemma_insert_amp_ok(s.drop_last(), x, id, len);
    }
}

pub proof fn lemma_sort_amp_ok(s: Seq<Peak>, id: u8, len: int)
    requires
        spec_peaks_ok(s, id, len),
    ensures
        spec_peaks_ok(spec_sort_amp_desc(s), id, len),
    decreases s.len(),
{
    if s.len() > 0 {
        lemma_sort_amp_ok(s.drop_last(), id, len);
        lemma_insert_amp_ok(spec_sort_amp_desc(s.drop_last()), s.last(), id, len);
    }
}

/// Sorts peaks by descending amplitude, stably.
pub fn sort_peaks_amp_desc(ps: &Vec<Peak>) -> (r: Vec<Peak>)
    ensures
        r@ == spec_sort_amp_desc(ps@),
{
    let mut out: Vec<Peak> = Vec::new();
    let mut i: usize = 0;
    while i < ps.len()
        invariant
            i <= ps@.len(),
            out@ == spec_sort_amp_desc(ps@.take(i as int)),
        decreases ps@.len() - i,
    {
        let x: Peak = ps[i];
        let mut k: usize = out.len();
        while k > 0 && out[k - 1].amp < x.amp
            invariant
                k <= out@.len(),
                forall|j: int| k <= j < out@.len() ==> out@[j].amp < x.amp,
            decreases k,
        {
            k = k - 1;
        }
        let ghost pre = out@;
        out.insert(k, x);
        proof {
            lemma_insert_amp_at(pre, x, k as int);
            assert(ps@.take(i as int + 1).drop_last() =~= ps@.take(i as int));
        }
        i = i + 1;
    }
    proof {
        assert(ps@.take(ps@.len() as int) =~= ps@);
    }
    out
}

/// Inserts `x` into a bin-ascending sequence, after every element whose bin
/// does not exceed `x`'s.
pub open spec fn spec_insert_bin(s: Seq<Peak>, x: Peak) -> Seq<Peak>
    decreases s.len(),
{
    if s.len() == 0 {
        seq![x]
    } else if s.last().bin <= x.bin {
        s.push(x)
    } else {
        spec_insert_bin(s.drop_last(), x).push(s.last())
    }
}

/// Stable sort by ascending bin.
pub open spec fn spec_sort_bin_asc(s: Seq<Peak>) -> Seq<Peak>
    decreases s.len(),
{
    if s.len() == 0 {
        Seq::empty()
    } else {
        spec_insert_bin(spec_sort_bin_asc(s.drop_last()), s.last())
    }
}

pub proof fn lemma_insert_bin_at(s: Seq<Peak>, x: Peak, k: int)
    requires
        0 <= k <= s.len(),
        forall|j: int| k <= j < s.len() ==> s[j].bin > x.bin,
        k > 0 ==> s[k - 1].bin <= x.bin,
    ensures
        spec_insert_bin(s, x) == s.insert(k, x),
    decreases s.len(),
{
    if s.len() == 0 {
        assert(spec_insert_bin(s, x) =~= s.insert(0, x));
    } else if k == s.len() {
        assert(s.push(x) =~= s.insert(k, x));
    } else {
        lemma_insert_bin_at(s.drop_last(), x, k);
        assert(s.drop_last().insert(k, x).push(s.last()) =~= s.insert(k, x));
    }
}

pub proof fn lemma_insert_bin_ok(s: Seq<Peak>, x: Peak, id: u8, len: int)
    requires
        spec_peaks_ok(s, id, len),
        spec_peak_ok(x, id, len),
    ensures
        spec_peaks_ok(spec_insert_bin(s, x), id, len),
    decreases s.len(),
{
    if s.len() == 0 {
    } else if s.last().bin <= x.bin {
    } else {
        lemma_insert_bin_ok(s.drop_last(), x, id, len);
    }
}

pub proof fn lemma_sort_bin_ok(s: Seq<Peak>, id: u8, len: int)
    requires
        spec_peaks_ok(s, id, len),
    ensures
        spec_peaks_ok(spec_sort_bin_asc(s), id, len),
    decreases s.len(),
{
    if s.len() > 0 {
        lemma_sort_bin_ok(s.drop_last(), id, len);
        lemma_insert_bin_ok(spec_sort_bin_asc(s.drop_last()), s.last(), id, len);
    }
}

/// The bin-ascending insertion keeps the sequence sorted by bin.
pub proof fn lemma_insert_bin_sorted(s: Seq<Peak>, x: Peak)
    requires
        forall|a: int, b: int| 0 <= a < b < s.len() ==> s[a].bin <= s[b].bin,
    ensures
        forall|a: int, b: int|
            0 <= a < b < spec_insert_bin(s, x).len() ==> spec_insert_bin(s, x)[a].bin
                <= spec_insert_bin(s, x)[b].bin,
    decreases s.len(),
{
    if s.len() == 0 {
    } else if s.last().bin <= x.bin {
    } else {
        lemma_insert_bin_sorted(s.drop_last(), x);
        let t = spec_insert_bin(s.drop_last(), x);
        assert forall|a: int, b: int|
            0 <= a < b < t.push(s.last()).len() implies t.push(s.last())[a].bin <= t.push(
            s.last(),
        )[b].bin by {
            lemma_insert_bin_last(s.drop_last(), x);
        }
    }
}

/// Every element of a bin-ascending insertion is an original element or `x`,
/// so the last element's bin bounds nothing new; in particular each element
/// of the result has the bin of some input element or of `x`.
pub proof fn lemma_insert_bin_last(s: Seq<Peak>, x: Peak)
    ensures
        forall|a: int|
            0 <= a < spec_insert_bin(s, x).len() ==> (exists|b: int|
                0 <= b < s.len() && spec_insert_bin(s, x)[a] == s[b]) || spec_insert_bin(s, x)[a]
                == x,
    decreases s.len(),
{
    if s.len() == 0 {
    } else if s.last().bin <= x.bin {
    } else {
        lemma_insert_bin_last(s.drop_last(), x);
        let t = spec_insert_bin(s.drop_last(), x);
        assert forall|a: int| 0 <= a < t.push(s.last()).len() implies (exists|b: int|
            0 <= b < s.len() && t.push(s.last())[a] == s[b]) || t.push(s.last())[a] == x by {
            if a < t.len() {
                if exists|b: int| 0 <= b < s.drop_last().len() && t[a] == s.drop_last()[b] {
                    let b = choose|b: int| 0 <= b < s.drop_last().len() && t[a] == s.drop_last()[b];
                    assert(t.push(s.last())[a] == s[b]);
                }
            } else {
                assert(t.push(s.last())[a] == s[s.len() - 1]);
            }
        }
    }
}

/// The bin-ascending sort leaves the sequence sorted by bin.
pub proof fn lemma_sort_bin_sorted(s: Seq<Peak>)
    ensures
        forall|a: int, b: int|
            0 <= a < b < spec_sort_bin_asc(s).len() ==> spec_sort_bin_asc(s)[a].bin
                <= spec_sort_bin_asc(s)[b].bin,
    decreases s.len(),
{
    if s.len() > 0 {
        lemma_sort_bin_sorted(s.drop_last());
        lemma_insert_bin_sorted(spec_sort_bin_asc(s.drop_last()), s.last());
    }
}

/// Sorts peaks by ascending bin, stably.
pub fn sort_peaks_bin_asc(ps: &Vec<Peak>) -> (r: Vec<Peak>)
    ensures
        r@ == spec_sort_bin_asc(ps@),
{
    let mut out: Vec<Peak> = Vec::new();
    let mut i: usize = 0;
    while i < ps.len()
        invariant
            i <= ps@.len(),
            out@ == spec_sort_bin_asc(ps@.take(i as int)),
        decreases ps@.len() - i,
    {
        let x: Peak = ps[i];
        let mut k: usize = out.len();
        while k > 0 && out[k - 1].bin > x.bin
            invariant
                k <= out@.len(),
                forall|j: int| k <= j < out@.len() ==> out@[j].bin > x.bin,
            decreases k,
        {
            k = k - 1;
        }
        let ghost pre = out@;
        out.insert(k, x);
        proof {
            lemma_insert_bin_at(pre, x, k as int);
            assert(ps@.take(i as int + 1).drop_last() =~= ps@.take(i as int));
        }
        i = i + 1;
    }
    proof {
        assert(ps@.take(ps@.len() as int) =~= ps@);
    }
    out
}

/// The peaks a band contributes to the window: its candidates, ordered by
/// descending amplitude, cut to the band's budget, then ordered by ascending
/// bin. The band's range is clamped to the spectrum first.
pub open spec fn spec_band_peaks(s: Seq<u64>, d: BandDef) -> Seq<Peak> {
    let hi_c: int = if d.hi <= s.len() {
        d.hi as int
    } else {
        s.len() as int
    };
    let lo_c: int = if d.lo as int <= hi_c {
        d.lo as int
    } else {
        hi_c
    };
    let cands = spec_band_cands(s, lo_c, hi_c, d.mult10, d.id);
    let sorted = spec_sort_amp_desc(cands);
    let picked = if sorted.len() <= d.max_peaks {
        sorted
    } else {
        sorted.take(d.max_peaks as int)
    };
    spec_sort_bin_asc(picked)
}

/// Extracts the peaks a band contributes to the window.
pub fn band_peaks(s: &Vec<u64>, d: &BandDef) -> (r: Vec<Peak>)
    requires
        d.mult10 <= 14,
        forall|k: int| 0 <= k < s@.len() ==> s@[k] <= MAG_CAP,
    ensures
        r@ == spec_band_peaks(s@, *d),
        spec_peaks_ok(r@, d.id, s@.len() as int),
        r@.len() <= d.max_peaks,
        forall|a: int, b: int| 0 <= a < b < r@.len() ==> r@[a].bin <= r@[b].bin,
{
    let hi_c: usize = if d.hi <= s.len() {
        d.hi
    } else {
        s.len()
    };
    let lo_c: usize = if d.lo <= hi_c {
        d.lo
    } else {
        hi_c
    };
    let cands: Vec<Peak> = band_candidates(s, lo_c, hi_c, d.mult10, d.id);
    proof {
        if hi_c - lo_c >= 7 {
            lemma_cands_ok(
                s@,
                lo_c as int,
                hi_c as int,
                d.mult10,
                d.id,
                spec_cand_count(lo_c as int, hi_c as int),
            );
        }
    }
    let sorted: Vec<Peak> = sort_peaks_amp_desc(&cands);
    proof {
        lemma_sort_amp_ok(cands@, d.id, s@.len() as int);
    }
    let mut picked: Vec<Peak> = sorted;
    if picked.len() > d.max_peaks {
        picked.truncate(d.max_peaks);
    }
    let r = sort_peaks_bin_asc(&picked);
    proof {
        lemma_sort_bin_ok(picked@, d.id, s@.len() as int);
        lemma_sort_bin_len(picked@);
        lemma_sort_bin_sorted(picked@);
    }
    r
}

/// Bin-ascending sorting keeps the length.
pub proof fn lemma_sort_bin_len(s: Seq<Peak>)
    ensures
        spec_sort_bin_asc(s).len() == s.len(),
    decreases s.len(),
{
    if s.len() > 0 {
        lemma_sort_bin_len(s.drop_last());
        lemma_insert_bin_len(spec_sort_bin_asc(s.drop_last()), s.last());
    }
}

pub proof fn lemma_insert_bin_len(s: Seq<Peak>, x: Peak)
    ensures
        spec_insert_bin(s, x).len() == s.len() + 1,
    decreases s.len(),
{
    if s.len() == 0 {
    } else if s.last().bin <= x.bin {
    } else {
        lemma_insert_bin_len(s.drop_last(), x);
    }
}

/// Amplitude-descending sorting keeps the length.
pub proof fn lemma_sort_amp_len(s: Seq<Peak>)
    ensures
        spec_sort_amp_desc(s).len() == s.len(),
    decreases s.len(),
{
    if s.len() > 0 {
        lemma_sort_amp_len(s.drop_last());
        lemma_insert_amp_len(spec_sort_amp_desc(s.drop_last()), s.last());
    }
}

pub proof fn lemma_insert_amp_len(s: Seq<Peak>, x: Peak)
    ensures
        spec_insert_amp(s, x).len() == s.len() + 1,
    decreases s.len(),
{
    if s.len() == 0 {
    } else if s.last().amp >= x.amp {
    } else {
        lemma_insert_amp_len(s.drop_last(), x);
    }
}

} // verus!
