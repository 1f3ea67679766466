//! Packing a pair of peaks into a 64-bit hash.
//!
//! Four fields are packed, most significant first: the band identifier
//! (6 bits), the frequency difference of the two bins (16 bits, saturating),
//! the amplitude ratio `floor(amp1 * 100 / amp2)` (8 bits, wrapping), and the
//! bin sum (16 bits, wrapping). The low 18 bits stay zero.

use crate::fixed::MAG_CAP;
use crate::peaks::Peak;
use vstd::prelude::*;

verus! {

/// The saturated 16-bit distance between two bins.
pub open spec fn spec_freq_diff(bin1: usize, bin2: usize) -> u64 {
    let d: int = if bin2 >= bin1 {
        bin2 - bin1
    } else {
        bin1 - bin2
    };
    if d > 0xFFFF {
        0xFFFF
    } else {
        d as u64
    }
}

/// The wrapped 8-bit amplitude ratio `floor(amp1 * 100 / amp2) mod 256`.
pub open spec fn spec_amp_ratio(amp1: u64, amp2: u64) -> u64
    recommends
        amp2 >= 1,
{
    (((amp1 as int * 100) / (amp2 as int)) % 256) as u64
}

/// The wrapped 16-bit bin sum.
pub open spec fn spec_freq_sum(bin1: usize, bin2: usize) -> u64 {
    ((bin1 + bin2) % 0x1_0000) as u64
}

/// The packed 64-bit hash of a peak pair within one band.
pub open spec fn spec_pair_hash(band: u8, bin1: usize, amp1: u64, bin2: usize, amp2: u64) -> u64
    recommends
        amp2 >= 1,
{
    ((band as u64) << 58u64) | (spec_freq_diff(bin1, bin2) << 42u64) | (spec_amp_ratio(
        amp1,
        amp2,
    ) << 34u64) | (spec_freq_sum(bin1, bin2) << 18u64)
}

/// Packs two peaks of one band into a hash.
pub fn pack_hash(band: u8, bin1: usize, amp1: u64, bin2: usize, amp2: u64) -> (h: u64)
    requires
        1 <= amp2,
        amp1 <= MAG_CAP,
        bin1 <= 0xFFFF_FFFFusize,
        bin2 <= 0xFFFF_FFFFusize,
    ensures
        h == spec_pair_hash(band, bin1, amp1, bin2, amp2),
{
    let d64: u64 = if bin2 >= bin1 {
        (bin2 - bin1) as u64
    } else {
        (bin1 - bin2) as u64
    };
    let diff: u64 = if d64 > 0xFFFF {
        0xFFFF
    } else {
        d64
    };
    let ratio: u64 = (amp1 * 100 / amp2) % 256;
    let sum: u64 = ((bin1 as u64) + (bin2 as u64)) % 0x1_0000;
    ((band as u64) << 58u64) | (diff << 42u64) | (ratio << 34u64) | (sum << 18u64)
}

/// Every packed hash keeps its low 18 bits zero and carries its band
/// identifier in bits 63..58; with a band identifier of 1 to 6 the recovered
/// band is that identifier.
pub proof fn lemma_pair_hash_fields(band: u8, bin1: usize, amp1: u64, bin2: usize, amp2: u64)
    requires
        1 <= band <= 6,
        amp2 >= 1,
    ensures
        spec_pair_hash(band, bin1, amp1, bin2, amp2) & 0x3_FFFF == 0,
        spec_pair_hash(band, bin1, amp1, bin2, amp2) >> 58u64 == band,
{
    let d = spec_freq_diff(bin1, bin2);
    let r = spec_amp_ratio(amp1, amp2);
    let s = spec_freq_sum(bin1, bin2);
    let b = band as u64;
    assert(d <= 0xFFFF);
    assert(0 <= r < 256);
    assert(0 <= s < 0x1_0000);
    assert((((b << 58u64) | (d << 42u64) | (r << 34u64) | (s << 18u64)) & 0x3_FFFF == 0) && (((b
        << 58u64) | (d << 42u64) | (r << 34u64) | (s << 18u64)) >> 58u64 == b)) by (bit_vector)
        requires
            1 <= b <= 6,
            d <= 0xFFFF,
            r < 256,
            s < 0x1_0000,
    ;
}

/// The hashes of peak `i` paired with each later peak up to `j`, in order.
pub open spec fn spec_row_upto(ps: Seq<Peak>, i: int, j: int) -> Seq<u64>
    decreases j,
{
    if i < 0 || j <= i + 1 {
        Seq::empty()
    } else {
        spec_row_upto(ps, i, j - 1).push(
            spec_pair_hash(ps[i].band, ps[i].bin, ps[i].amp, ps[j - 1].bin, ps[j - 1].amp),
        )
    }
}

/// The hashes of every ordered pair whose first peak lies before `i`.
pub open spec fn spec_rows_upto(ps: Seq<Peak>, i: int) -> Seq<u64>
    decreases i,
{
    if i <= 0 {
        Seq::empty()
    } else {
        spec_rows_upto(ps, i - 1) + spec_row_upto(ps, i - 1, ps.len() as int)
    }
}

/// The hashes of every ordered pair `(i, j)`, `i < j`, of one band's peaks,
/// in pair-iteration order.
pub open spec fn spec_band_hashes(ps: Seq<Peak>) -> Seq<u64> {
    spec_rows_upto(ps, ps.len() as int)
}

pub proof fn lemma_row_upto_len(ps: Seq<Peak>, i: int, j: int)
    requires
        0 <= i,
    ensures
        spec_row_upto(ps, i, j).len() == if j >= i + 1 {
            j - i - 1
        } else {
            0
        },
    decreases j,
{
    if j > i + 1 {
        lemma_row_upto_len(ps, i, j - 1);
    }
}

/// Twice the number of pair hashes whose first peak lies before `i` equals
/// `i * (2n - i - 1)`, for `n` peaks; with `i == n` that is `n * (n - 1)`.
pub proof fn lemma_rows_upto_len(ps: Seq<Peak>, i: int)
    requires
        0 <= i <= ps.len(),
    ensures
        2 * spec_rows_upto(ps, i).len() == i * (2 * ps.len() - i - 1),
    decreases i,
{
    if i == 0 {
        assert(i * (2 * ps.len() - i - 1) == 0) by (nonlinear_arith)
            requires
                i == 0,
        ;
    } else {
        lemma_rows_upto_len(ps, i - 1);
        lemma_row_upto_len(ps, i - 1, ps.len() as int);
        assert(spec_rows_upto(ps, i).len() == spec_rows_upto(ps, i - 1).len() + (ps.len() - i));
        assert(2 * spec_rows_upto(ps, i).len() == (i - 1) * (2 * ps.len() - (i - 1) - 1) + 2 * (
        ps.len() - i));
        assert((i - 1) * (2 * ps.len() - (i - 1) - 1) + 2 * (ps.len() - i) == i * (2 * ps.len() - i
            - 1)) by (nonlinear_arith);
        assert(2 * spec_rows_upto(ps, i).len() == i * (2 * ps.len() - i - 1));
    }
}

/// A band with `n` peaks emits exactly `n * (n - 1) / 2` hashes.
pub proof fn lemma_band_hashes_len(ps: Seq<Peak>)
    ensures
        2 * spec_band_hashes(ps).len() == ps.len() * (ps.len() - 1),
{
    lemma_rows_upto_len(ps, ps.len() as int);
    assert(ps.len() * (2 * ps.len() - ps.len() - 1) == ps.len() * (ps.len() - 1))
        by (nonlinear_arith);
}

/// Every hash a band emits has zero in its low 18 bits and a band identifier
/// of 1 to 6 in its top 6 bits, provided its peaks carry such an identifier
/// and positive amplitudes.
pub proof fn lemma_row_upto_fields(ps: Seq<Peak>, i: int, j: int)
    requires
        0 <= i < ps.len(),
        j <= ps.len(),
        1 <= ps[i].band <= 6,
        forall|k: int| 0 <= k < ps.len() ==> (#[trigger] ps[k].amp) >= 1,
    ensures
        forall|t: int|
            0 <= t < spec_row_upto(ps, i, j).len() ==> (#[trigger] spec_row_upto(ps, i, j)[t])
                & 0x3_FFFF == 0 && 1 <= spec_row_upto(ps, i, j)[t] >> 58u64 <= 6,
    decreases j,
{
    if i < 0 || j <= i + 1 {
    } else {
        lemma_row_upto_fields(ps, i, j - 1);
        lemma_pair_hash_fields(ps[i].band, ps[i].bin, ps[i].amp, ps[j - 1].bin, ps[j - 1].amp);
        let r = spec_row_upto(ps, i, j);
        let prev = spec_row_upto(ps, i, j - 1);
        assert forall|t: int| 0 <= t < r.len() implies (#[trigger] r[t]) & 0x3_FFFF == 0 && 1 <= r[t]
            >> 58u64 <= 6 by {
            if t < prev.len() {
                assert(r[t] == prev[t]);
            } else {
                assert(r[t] == spec_pair_hash(
                    ps[i].band,
                    ps[i].bin,
                    ps[i].amp,
                    ps[j - 1].bin,
                    ps[j - 1].amp,
                ));
            }
        }
    }
}

pub proof fn lemma_rows_upto_fields(ps: Seq<Peak>, i: int)
    requires
        i <= ps.len(),
        forall|k: int| 0 <= k < ps.len() ==> 1 <= (#[trigger] ps[k].band) <= 6,
        forall|k: int| 0 <= k < ps.len() ==> (#[trigger] ps[k].amp) >= 1,
    ensures
        forall|t: int|
            0 <= t < spec_rows_upto(ps, i).len() ==> (#[trigger] spec_rows_upto(ps, i)[t])
                & 0x3_FFFF == 0 && 1 <= spec_rows_upto(ps, i)[t] >> 58u64 <= 6,
    decreases i,
{
    if i <= 0 {
    } else {
        lemma_rows_upto_fields(ps, i - 1);
        if i - 1 < ps.len() {
            lemma_row_upto_fields(ps, i - 1, ps.len() as int);
        }
        let r = spec_rows_upto(ps, i);
        let prev = spec_rows_upto(ps, i - 1);
        let row = spec_row_upto(ps, i - 1, ps.len() as int);
        assert forall|t: int| 0 <= t < r.len() implies (#[trigger] r[t]) & 0x3_FFFF == 0 && 1 <= r[t]
            >> 58u64 <= 6 by {
            if t < prev.len() {
                assert(r[t] == prev[t]);
            } else {
                assert(r[t] == row[t - prev.len()]);
            }
        }
    }
}

/// Appends one band's pair hashes to the running fingerprint.
pub fn append_band_hashes(out: &mut Vec<u64>, ps: &Vec<Peak>)
    requires
        forall|k: int|
            0 <= k < ps@.len() ==> 1 <= (#[trigger] ps@[k].amp) <= MAG_CAP && ps@[k].bin
                <= 0xFFFF_FFFFusize,
    ensures
        final(out)@ == old(out)@ + spec_band_hashes(ps@),
{
    let ghost base = out@;
    let n: usize = ps.len();
    let mut i: usize = 0;
    while i < n
        invariant
            i <= n,
            n == ps@.len(),
            forall|k: int|
                0 <= k < ps@.len() ==> 1 <= (#[trigger] ps@[k].amp) <= MAG_CAP && ps@[k].bin
                    <= 0xFFFF_FFFFusize,
            out@ == base + spec_rows_upto(ps@, i as int),
        decreases n - i,
    {
        let mut j: usize = i + 1;
        while j < n
            invariant
                i < n,
                i + 1 <= j <= n,
                n == ps@.len(),
                forall|k: int|
                    0 <= k < ps@.len() ==> 1 <= (#[trigger] ps@[k].amp) <= MAG_CAP && ps@[k].bin
                        <= 0xFFFF_FFFFusize,
                out@ == base + spec_rows_upto(ps@, i as int) + spec_row_upto(
                    ps@,
                    i as int,
                    j as int,
                ),
            decreases n - j,
        {
            let h: u64 = pack_hash(ps[i].band, ps[i].bin, ps[i].amp, ps[j].bin, ps[j].amp);
            out.push(h);
            proof {
                assert(out@ =~= base + spec_rows_upto(ps@, i as int) + spec_row_upto(
                    ps@,
                    i as int,
                    j as int + 1,
                ));
            }
            j = j + 1;
        }
        i = i + 1;
        proof {
            assert(out@ =~= base + spec_rows_upto(ps@, i as int));
        }
    }
    proof {
        assert(spec_rows_upto(ps@, n as int) == spec_band_hashes(ps@));
    }
}

} // verus!
