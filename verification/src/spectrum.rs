//! The magnitude spectrum of one analysis window.
//!
//! The forward transform itself is the one piece of the pipeline done in
//! floating point, by an outside library; its magnitudes come back as IEEE
//! 754 bit patterns and are decoded into integer carriers here. The window
//! is handed over untapered: the engine's reference taper is the scalar
//! `0.54 - 0.46 * cos(2*pi/W)`, the same factor at every sample of the
//! window, so it is a uniform gain; thresholds scale with the mean and the
//! amplitude ratio is a quotient, so the peaks and hashes of a uniformly
//! scaled spectrum are those of the unscaled one, and the gain is omitted.

use crate::fixed::{mag_from_bits, spec_mag_of_bits, MAG_CAP};
use vstd::arithmetic::div_mod::lemma_basic_div;
use vstd::arithmetic::power2::{lemma2_to64, lemma2_to64_rest, lemma_pow2_adds, lemma_pow2_pos,
    pow2};
use vstd::prelude::*;

verus! {

/// What the forward transform of one analysis window returns: the bit
/// patterns of the single-precision magnitudes of bins `0 .. W/2`.
pub uninterp spec fn spec_spectrum_bits(window: Seq<i32>) -> Seq<u32>;

/// Relies on rustfft's forward FFT in single precision and num-complex's
/// `norm`: a pure computation, so the magnitude bit patterns are a function
/// of the window's samples alone; it returns one complex value per input
/// sample, of which the first half carry the non-negative magnitudes (sign
/// bit clear), and a window of zeros transforms to zero magnitudes. The
/// samples enter as real parts.
#[verifier::external_body]
fn fft_magnitude_bits(window: &[i32]) -> (r: Vec<u32>)
    requires
        window@.len() == 1024,
    ensures
        r@ == spec_spectrum_bits(window@),
        r@.len() == 512,
        (forall|k: int| 0 <= k < window@.len() ==> window@[k] == 0) ==> (forall|k: int|
            0 <= k < r@.len() ==> r@[k] == 0),
{
    let mut planner = rustfft::FftPlanner::new();
    let fft = planner.plan_fft_forward(window.len());
    let mut buf: Vec<rustfft::num_complex::Complex32> = window
        .iter()
        .map(|&x| rustfft::num_complex::Complex32::new(x as _, Default::default()))
        .collect();
    fft.process(&mut buf);
    buf.iter().take(window.len() / 2).map(|c| c.norm().to_bits()).collect()
}

/// The magnitude carriers spelled by a sequence of bit patterns.
pub open spec fn spec_mags_of_bits(bits: Seq<u32>) -> Seq<u64> {
    bits.map_values(|b: u32| spec_mag_of_bits(b) as u64)
}

/// The magnitude carriers of one window's spectrum.
pub open spec fn spec_window_mags(window: Seq<i32>) -> Seq<u64> {
    spec_mags_of_bits(spec_spectrum_bits(window))
}

/// The zero bit pattern decodes to the zero carrier.
pub proof fn lemma_mag_of_zero_bits()
    ensures
        spec_mag_of_bits(0u32) == 0,
{
    assert(((0u32 >> 23) & 0xFF) == 0 && (0u32 & 0x7F_FFFF) == 0 && (0u32 >> 31) == 0)
        by (bit_vector);
    lemma2_to64();
    lemma_pow2_adds(24, 110);
    lemma_pow2_pos(110);
    assert(pow2(24) * pow2(110) >= pow2(24) * 1) by (nonlinear_arith)
        requires
            pow2(110) >= 1,
    ;
    lemma_basic_div(0x80_0000, pow2(134) as int);
}

/// Computes the magnitude carriers of one window.
pub fn window_mags(window: &[i32]) -> (r: Vec<u64>)
    requires
        window@.len() == 1024,
    ensures
        r@ == spec_window_mags(window@),
        r@.len() == 512,
        forall|k: int| 0 <= k < r@.len() ==> r@[k] <= MAG_CAP,
        (forall|k: int| 0 <= k < window@.len() ==> window@[k] == 0) ==> (forall|k: int|
            0 <= k < r@.len() ==> r@[k] == 0),
{
    let bits: Vec<u32> = fft_magnitude_bits(window);
    let mut out: Vec<u64> = Vec::new();
    let mut i: usize = 0;
    while i < bits.len()
        invariant
            i <= bits@.len(),
            out@ == spec_mags_of_bits(bits@.take(i as int)),
            out@.len() == i,
            forall|k: int| 0 <= k < out@.len() ==> out@[k] <= MAG_CAP,
        decreases bits@.len() - i,
    {
        let m: u64 = mag_from_bits(bits[i]);
        out.push(m);
        proof {
            assert(out@ =~= spec_mags_of_bits(bits@.take(i as int + 1)));
        }
        i = i + 1;
    }
    proof {
        assert(bits@.take(bits@.len() as int) =~= bits@);
        if forall|k: int| 0 <= k < window@.len() ==> window@[k] == 0 {
            lemma_mag_of_zero_bits();
            assert forall|k: int| 0 <= k < out@.len() implies out@[k] == 0 by {
                assert(bits@[k] == 0);
                assert(out@[k] == spec_mag_of_bits(bits@[k]) as u64);
            }
        }
    }
    out
}

} // verus!
