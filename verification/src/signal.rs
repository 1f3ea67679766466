//! Signal preparation: scaling decoded PCM to the sample carrier and
//! downmixing interleaved channels to mono.
//!
//! Integer samples are scaled by the positive full scale of their bit depth;
//! single-precision samples pass through the bit-pattern decoder. Downmix
//! averages the channels of each frame, truncating toward zero; applied to a
//! signal that is already mono it is the identity.

use crate::fixed::{normalize_sample, sample_from_bits, spec_normalized, spec_sample_of_bits,
    spec_u32_le, u32_from_le, SAMPLE_CLAMP};
use vstd::prelude::*;

verus! {

/// Sum of a sequence of samples.
pub open spec fn spec_sum_i32(s: Seq<i32>) -> int
    decreases s.len(),
{
    if s.len() == 0 {
        0
    } else {
        spec_sum_i32(s.drop_last()) + s.last()
    }
}

/// Division truncating toward zero, as machine signed division does.
pub open spec fn spec_trunc_div(a: int, b: int) -> int
    recommends
        b >= 1,
{
    if a >= 0 {
        a / b
    } else {
        -((-a) / b)
    }
}

/// The truncated average of one frame `s[lo..hi]`.
pub open spec fn spec_chunk_avg(s: Seq<i32>, lo: int, hi: int) -> int
    recommends
        0 <= lo < hi <= s.len(),
{
    spec_trunc_div(spec_sum_i32(s.subrange(lo, hi)), hi - lo)
}

/// How many frames a signal of `len` interleaved samples holds at `ch`
/// channels; a trailing partial frame counts.
pub open spec fn spec_frame_count(len: nat, ch: nat) -> nat
    recommends
        ch >= 1,
{
    if len == 0 {
        0
    } else {
        (((len - 1) as int / ch as int) + 1) as nat
    }
}

/// The mono signal of the first `k` frames.
pub open spec fn spec_downmix_upto(s: Seq<i32>, ch: nat, k: nat) -> Seq<i32>
    decreases k,
{
    if k == 0 {
        Seq::empty()
    } else {
        let lo = ((k - 1) * ch) as int;
        let hi = if (k * ch) as int <= s.len() as int {
            (k * ch) as int
        } else {
            s.len() as int
        };
        spec_downmix_upto(s, ch, (k - 1) as nat).push(spec_chunk_avg(s, lo, hi) as i32)
    }
}

/// The mono downmix of an interleaved signal: per frame, the truncated
/// average of its channels.
pub open spec fn spec_downmix(s: Seq<i32>, ch: nat) -> Seq<i32>
    recommends
        ch >= 1,
{
    spec_downmix_upto(s, ch, spec_frame_count(s.len(), ch))
}

/// Sums one frame.
fn frame_sum(samples: &Vec<i32>, lo: usize, hi: usize) -> (r: i64)
    requires
        lo <= hi,
        hi <= samples@.len(),
        hi - lo <= 0x1_0000,
        forall|k: int|
            0 <= k < samples@.len() ==> -(SAMPLE_CLAMP as i32) <= #[trigger] samples@[k]
                <= SAMPLE_CLAMP as i32,
    ensures
        r as int == spec_sum_i32(samples@.subrange(lo as int, hi as int)),
        -((hi - lo) as int * (SAMPLE_CLAMP as int)) <= r as int <= (hi - lo) as int * (
        SAMPLE_CLAMP as int),
{
    let mut acc: i64 = 0;
    let mut i: usize = lo;
    while i < hi
        invariant
            lo <= i <= hi,
            hi <= samples@.len(),
            hi - lo <= 0x1_0000,
            forall|k: int|
                0 <= k < samples@.len() ==> -(SAMPLE_CLAMP as i32) <= #[trigger] samples@[k]
                    <= SAMPLE_CLAMP as i32,
            acc as int == spec_sum_i32(samples@.subrange(lo as int, i as int)),
            -((i - lo) as int * (SAMPLE_CLAMP as int)) <= acc as int <= (i - lo) as int * (
            SAMPLE_CLAMP as int),
        decreases hi - i,
    {
        proof {
            assert(samples@.subrange(lo as int, i as int + 1).drop_last() =~= samples@.subrange(
                lo as int,
                i as int,
            ));
        }
        acc = acc + samples[i] as i64;
        i = i + 1;
    }
    acc
}

/// Averages the channels of every frame, truncating toward zero. With one
/// channel the result is the input unchanged.
pub fn downmix(samples: &Vec<i32>, channels: u16) -> (r: Vec<i32>)
    requires
        1 <= channels,
        forall|k: int|
            0 <= k < samples@.len() ==> -(SAMPLE_CLAMP as i32) <= #[trigger] samples@[k]
                <= SAMPLE_CLAMP as i32,
    ensures
        r@ == spec_downmix(samples@, channels as nat),
        channels == 1 ==> r@ == samples@,
        forall|k: int|
            0 <= k < r@.len() ==> -(SAMPLE_CLAMP as i32) <= #[trigger] r@[k] <= SAMPLE_CLAMP as i32,
{
    let ch: usize = channels as usize;
    let n: usize = samples.len();
    let frames: usize = if n == 0 {
        0
    } else {
        (n - 1) / ch + 1
    };
    let mut out: Vec<i32> = Vec::new();
    let mut k: usize = 0;
    while k < frames
        invariant
            1 <= ch <= 0x1_0000,
            ch == channels,
            n == samples@.len(),
            frames == spec_frame_count(samples@.len(), channels as nat),
            k <= frames,
            out@ == spec_downmix_upto(samples@, channels as nat, k as nat),
            out@.len() == k,
            forall|j: int|
                0 <= j < samples@.len() ==> -(SAMPLE_CLAMP as i32) <= #[trigger] samples@[j]
                    <= SAMPLE_CLAMP as i32,
            forall|j: int|
                0 <= j < out@.len() ==> -(SAMPLE_CLAMP as i32) <= #[trigger] out@[j]
                    <= SAMPLE_CLAMP as i32,
        decreases frames - k,
    {
        proof {
            lemma_frame_index(k as int, ch as int, n as int);
        }
        let lo: usize = k * ch;
        let hi: usize = if n - lo >= ch {
            lo + ch
        } else {
            n
        };
        let s: i64 = frame_sum(samples, lo, hi);
        let width: i64 = (hi - lo) as i64;
        let avg: i64 = if s >= 0 {
            ((s as u64) / (width as u64)) as i64
        } else {
            -((((-s) as u64) / (width as u64)) as i64)
        };
        proof {
            lemma_avg_in_range(s as int, (hi - lo) as int, SAMPLE_CLAMP as int);
            assert((k as int + 1 - 1) * (ch as int) == k * ch) by (nonlinear_arith);
            assert((k as int + 1) * (ch as int) == k * ch + ch) by (nonlinear_arith);
        }
        out.push(avg as i32);
        k = k + 1;
    }
    proof {
        if channels == 1 {
            lemma_downmix_mono_identity(samples@, frames as nat);
            if n > 0 {
                assert((samples@.len() - 1) as int / 1 == samples@.len() - 1);
                assert(spec_frame_count(samples@.len(), 1) == samples@.len());
            }
            assert(frames == samples@.len());
            assert(samples@.take(samples@.len() as int) =~= samples@);
        }
    }
    out
}

/// While the frame index is below the frame count, the frame starts inside
/// the signal; at the count, no frame start remains.
proof fn lemma_frame_index(k: int, ch: int, n: int)
    requires
        1 <= ch,
        0 <= k,
        1 <= n,
        k < spec_frame_count(n as nat, ch as nat),
    ensures
        k * ch < n,
{
    let q = (n - 1) / ch;
    vstd::arithmetic::div_mod::lemma_fundamental_div_mod(n - 1, ch);
    assert(k * ch < n) by (nonlinear_arith)
        requires
            n - 1 == ch * q + (n - 1) % ch,
            0 <= (n - 1) % ch < ch,
            k <= q,
            1 <= ch,
            0 <= k,
    ;
}

/// A frame's truncated average stays within the samples' bound.
proof fn lemma_avg_in_range(s: int, w: int, b: int)
    requires
        1 <= w,
        0 <= b,
        -(w * b) <= s <= w * b,
    ensures
        -b <= spec_trunc_div(s, w) <= b,
{
    if s >= 0 {
        assert(s / w <= b) by (nonlinear_arith)
            requires
                1 <= w,
                0 <= s <= w * b,
                0 <= b,
        ;
        vstd::arithmetic::div_mod::lemma_div_pos_is_pos(s, w);
    } else {
        assert((-s) / w <= b) by (nonlinear_arith)
            requires
                1 <= w,
                0 <= -s <= w * b,
                0 <= b,
        ;
        vstd::arithmetic::div_mod::lemma_div_pos_is_pos(-s, w);
    }
}

/// Downmix of an already-mono signal is the identity.
pub proof fn lemma_downmix_mono_identity(s: Seq<i32>, k: nat)
    requires
        k <= spec_frame_count(s.len(), 1),
    ensures
        spec_downmix_upto(s, 1, k) == s.take(k as int),
    decreases k,
{
    if k == 0 {
        assert(spec_downmix_upto(s, 1, 0) =~= s.take(0));
    } else {
        lemma_downmix_mono_identity(s, (k - 1) as nat);
        assert(spec_frame_count(s.len(), 1) == s.len());
        let lo = ((k - 1) * 1) as int;
        assert(lo == k - 1);
        assert((k * 1) as int == k as int);
        let one = s.subrange(lo, lo + 1);
        assert(one.len() == 1);
        assert(one.drop_last() =~= Seq::<i32>::empty());
        assert(spec_sum_i32(Seq::<i32>::empty()) == 0);
        assert(one.last() == s[lo]);
        assert(spec_sum_i32(one) == s[lo]);
        assert(spec_chunk_avg(s, lo, lo + 1) == spec_trunc_div(s[lo] as int, 1));
        assert(spec_trunc_div(s[lo] as int, 1) == s[lo]) by {
            if s[lo] >= 0 {
                assert(s[lo] as int / 1 == s[lo]);
            } else {
                assert((-(s[lo] as int)) / 1 == -(s[lo] as int));
            }
        }
        assert(spec_downmix_upto(s, 1, k) =~= s.take(k as int));
    }
}

/// Scales 16-bit integer samples to the carrier.
pub fn normalize_i16_samples(raw: &Vec<i16>) -> (r: Vec<i32>)
    ensures
        r@.len() == raw@.len(),
        forall|k: int|
            0 <= k < raw@.len() ==> (#[trigger] r@[k]) as int == spec_normalized(
                raw@[k] as int,
                32767,
            ),
        forall|k: int|
            0 <= k < r@.len() ==> -(SAMPLE_CLAMP as i32) <= #[trigger] r@[k] <= SAMPLE_CLAMP as i32,
{
    let mut out: Vec<i32> = Vec::new();
    let mut i: usize = 0;
    while i < raw.len()
        invariant
            i <= raw@.len(),
            out@.len() == i,
            forall|k: int|
                0 <= k < i ==> (#[trigger] out@[k]) as int == spec_normalized(
                    raw@[k] as int,
                    32767,
                ),
            forall|k: int|
                0 <= k < out@.len() ==> -(SAMPLE_CLAMP as i32) <= #[trigger] out@[k]
                    <= SAMPLE_CLAMP as i32,
        decreases raw@.len() - i,
    {
        out.push(normalize_sample(raw[i] as i64, 32767));
        i = i + 1;
    }
    out
}

/// Scales integer samples of a given positive full scale to the carrier.
pub fn normalize_i32_samples(raw: &Vec<i32>, full_scale: u64) -> (r: Vec<i32>)
    requires
        1 <= full_scale <= 0x1_0000_0000u64,
    ensures
        r@.len() == raw@.len(),
        forall|k: int|
            0 <= k < raw@.len() ==> (#[trigger] r@[k]) as int == spec_normalized(
                raw@[k] as int,
                full_scale as int,
            ),
        forall|k: int|
            0 <= k < r@.len() ==> -(SAMPLE_CLAMP as i32) <= #[trigger] r@[k] <= SAMPLE_CLAMP as i32,
{
    let mut out: Vec<i32> = Vec::new();
    let mut i: usize = 0;
    while i < raw.len()
        invariant
            i <= raw@.len(),
            out@.len() == i,
            1 <= full_scale <= 0x1_0000_0000u64,
            forall|k: int|
                0 <= k < i ==> (#[trigger] out@[k]) as int == spec_normalized(
                    raw@[k] as int,
                    full_scale as int,
                ),
            forall|k: int|
                0 <= k < out@.len() ==> -(SAMPLE_CLAMP as i32) <= #[trigger] out@[k]
                    <= SAMPLE_CLAMP as i32,
        decreases raw@.len() - i,
    {
        out.push(normalize_sample(raw[i] as i64, full_scale));
        i = i + 1;
    }
    out
}

/// Decodes single-precision bit patterns to the carrier.
pub fn samples_from_bit_patterns(bits: &Vec<u32>) -> (r: Vec<i32>)
    ensures
        r@.len() == bits@.len(),
        forall|k: int|
            0 <= k < bits@.len() ==> (#[trigger] r@[k]) as int == spec_sample_of_bits(bits@[k]),
        forall|k: int|
            0 <= k < r@.len() ==> -(SAMPLE_CLAMP as i32) <= #[trigger] r@[k] <= SAMPLE_CLAMP as i32,
{
    let mut out: Vec<i32> = Vec::new();
    let mut i: usize = 0;
    while i < bits.len()
        invariant
            i <= bits@.len(),
            out@.len() == i,
            forall|k: int|
                0 <= k < i ==> (#[trigger] out@[k]) as int == spec_sample_of_bits(bits@[k]),
            forall|k: int|
                0 <= k < out@.len() ==> -(SAMPLE_CLAMP as i32) <= #[trigger] out@[k]
                    <= SAMPLE_CLAMP as i32,
        decreases bits@.len() - i,
    {
        out.push(sample_from_bits(bits[i]));
        i = i + 1;
    }
    out
}

/// The sample carriers spelled by a little-endian byte stream of
/// single-precision values: one sample per whole group of four bytes.
pub open spec fn spec_samples_of_le_bytes(bytes: Seq<u8>, k: nat) -> Seq<i32>
    decreases k,
{
    if k == 0 {
        Seq::empty()
    } else {
        let base = ((k - 1) * 4) as int;
        spec_samples_of_le_bytes(bytes, (k - 1) as nat).push(
            spec_sample_of_bits(
                spec_u32_le(bytes[base], bytes[base + 1], bytes[base + 2], bytes[base + 3]),
            ) as i32,
        )
    }
}

/// Decodes a little-endian single-precision byte stream to the carrier;
/// a trailing group of fewer than four bytes is dropped.
pub fn samples_from_le_bytes(bytes: &Vec<u8>) -> (r: Vec<i32>)
    ensures
        r@ == spec_samples_of_le_bytes(bytes@, (bytes@.len() / 4) as nat),
        forall|k: int|
            0 <= k < r@.len() ==> -(SAMPLE_CLAMP as i32) <= #[trigger] r@[k] <= SAMPLE_CLAMP as i32,
{
    let count: usize = bytes.len() / 4;
    proof {
        vstd::arithmetic::div_mod::lemma_fundamental_div_mod(bytes@.len() as int, 4);
        assert(count * 4 <= bytes@.len()) by (nonlinear_arith)
            requires
                bytes@.len() == 4 * (bytes@.len() as int / 4) + bytes@.len() as int % 4,
                0 <= bytes@.len() as int % 4,
                count == bytes@.len() as int / 4,
        ;
    }
    let mut out: Vec<i32> = Vec::new();
    let mut k: usize = 0;
    while k < count
        invariant
            k <= count,
            count == bytes@.len() / 4,
            count * 4 <= bytes@.len(),
            bytes@.len() <= usize::MAX,
            out@ == spec_samples_of_le_bytes(bytes@, k as nat),
            out@.len() == k,
            forall|j: int|
                0 <= j < out@.len() ==> -(SAMPLE_CLAMP as i32) <= #[trigger] out@[j]
                    <= SAMPLE_CLAMP as i32,
        decreases count - k,
    {
        proof {
            assert(((k as int) + 1) * 4 == (k as int) * 4 + 4) by (nonlinear_arith);
            assert(((k as int) + 1) * 4 <= (count as int) * 4) by (nonlinear_arith)
                requires
                    (k as int) + 1 <= count as int,
            ;
            assert((count as int) * 4 == count * 4) by (nonlinear_arith);
            assert((k as int) * 4 + 4 <= bytes@.len());
            assert((k as int + 1 - 1) * 4 == (k as int) * 4) by (nonlinear_arith);
        }
        let base: usize = k * 4;
        let bits: u32 = u32_from_le(bytes[base], bytes[base + 1], bytes[base + 2], bytes[base + 3]);
        out.push(sample_from_bits(bits));
        k = k + 1;
    }
    out
}

} // verus!
