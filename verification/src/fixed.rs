//! Fixed-point carriers for amplitudes.
//!
//! The engine keeps every amplitude as an integer so that each stage past the
//! Fourier transform is exact arithmetic:
//!
//! * a mono sample is an `i32` in units of 2^-24 of full scale, saturated at
//!   plus or minus 2.0 (`SAMPLE_CLAMP`);
//! * a spectrum magnitude is a `u64` in units of 2^-16, saturated at 2^52
//!   (`MAG_CAP`).
//!
//! Where a single-precision value enters the engine it comes in as its IEEE
//! 754 bit pattern, and the decoders below turn that pattern into the carrier
//! by integer shifts; a non-finite pattern saturates, a value too small for
//! the carrier's resolution floors to zero.

use vstd::arithmetic::div_mod::lemma_basic_div;
use vstd::arithmetic::power2::{lemma2_to64, lemma_pow2_adds, lemma_pow2_pos,
    lemma_pow2_strictly_increases, pow2};
use vstd::bits::{lemma_u64_shl_is_mul, lemma_u64_shr_is_div};
use vstd::prelude::*;

verus! {

/// 1.0 of full scale in sample units (2^24).
pub const SAMPLE_ONE: u64 = 0x100_0000;

/// Saturation bound of a sample: 2.0 of full scale (2^25).
pub const SAMPLE_CLAMP: u64 = 0x200_0000;

/// Saturation bound of a magnitude (2^52).
pub const MAG_CAP: u64 = 0x10_0000_0000_0000;

/// Exponent field of a single-precision bit pattern.
pub open spec fn spec_f32_exp(bits: u32) -> u32 {
    (bits >> 23) & 0xFF
}

/// Fraction field of a single-precision bit pattern.
pub open spec fn spec_f32_frac(bits: u32) -> u32 {
    bits & 0x7F_FFFF
}

/// Sign bit of a single-precision bit pattern.
pub open spec fn spec_f32_neg(bits: u32) -> bool {
    (bits >> 31) == 1
}

/// Magnitude carrier of the non-negative single-precision value with exponent
/// field `e` and fraction field `m`: the value times 2^16, floored, saturated
/// at `MAG_CAP`. The significand is `2^23 + m` scaled by `2^(e - 150)`, so
/// the carrier is `(2^23 + m)` shifted by `e - 134`.
pub open spec fn spec_mag_fixed(e: int, m: int) -> int
    recommends
        0 <= e <= 255,
        0 <= m < 0x80_0000,
{
    if e >= 163 {
        MAG_CAP as int
    } else if e >= 134 {
        (0x80_0000 + m) * pow2((e - 134) as nat) as int
    } else {
        (0x80_0000 + m) / pow2((134 - e) as nat) as int
    }
}

/// Magnitude carrier of a single-precision bit pattern: negative patterns
/// floor to zero, non-finite ones saturate.
pub open spec fn spec_mag_of_bits(bits: u32) -> int {
    if spec_f32_neg(bits) {
        0
    } else {
        spec_mag_fixed(spec_f32_exp(bits) as int, spec_f32_frac(bits) as int)
    }
}

/// Decodes a single-precision bit pattern into the magnitude carrier.
pub fn mag_from_bits(bits: u32) -> (r: u64)
    ensures
        r as int == spec_mag_of_bits(bits),
        r <= MAG_CAP,
{
    if bits >> 31u32 == 1 {
        return 0;
    }
    let e: u32 = (bits >> 23u32) & 0xFF;
    let m: u32 = bits & 0x7F_FFFF;
    proof {
        assert((bits & 0x7F_FFFF) < 0x80_0000u32 && ((bits >> 23u32) & 0xFF) < 256u32)
            by (bit_vector);
    }
    let base: u64 = 0x80_0000u64 + m as u64;
    if e >= 163 {
        0x10_0000_0000_0000u64
    } else if e >= 134 {
        let sh: u32 = e - 134;
        proof {
            lemma2_to64();
            if sh < 28 {
                lemma_pow2_strictly_increases(sh as nat, 28);
            }
            assert(base * pow2(sh as nat) < 0x100_0000 * 0x1000_0000) by (nonlinear_arith)
                requires
                    base < 0x100_0000,
                    pow2(sh as nat) <= 0x1000_0000,
            ;
            lemma_u64_shl_is_mul(base, sh as u64);
        }
        base << (sh as u64)
    } else if e >= 111 {
        let sh: u32 = 134 - e;
        proof {
            lemma_u64_shr_is_div(base, sh as u64);
            assert(base >> (sh as u64) <= base) by (bit_vector);
        }
        base >> (sh as u64)
    } else {
        proof {
            lemma2_to64();
            let sh: nat = (134 - e) as nat;
            lemma_pow2_adds(24, (sh - 24) as nat);
            lemma_pow2_pos((sh - 24) as nat);
            assert(pow2(24) * pow2((sh - 24) as nat) >= pow2(24) * 1) by (nonlinear_arith)
                requires
                    pow2((sh - 24) as nat) >= 1,
            ;
            lemma_basic_div(base as int, pow2(sh) as int);
        }
        0
    }
}

/// Every bit pattern decodes to a magnitude carrier within the cap.
pub proof fn lemma_mag_of_bits_range(bits: u32)
    ensures
        0 <= spec_mag_of_bits(bits) <= MAG_CAP,
{
    let e = spec_f32_exp(bits) as int;
    let m = spec_f32_frac(bits) as int;
    assert((bits & 0x7F_FFFF) < 0x80_0000u32 && ((bits >> 23) & 0xFF) < 256u32) by (bit_vector);
    if !spec_f32_neg(bits) {
        if e >= 163 {
        } else if e >= 134 {
            lemma2_to64();
            if e - 134 < 28 {
                lemma_pow2_strictly_increases((e - 134) as nat, 28);
            }
            lemma_pow2_pos((e - 134) as nat);
            assert((0x80_0000 + m) * pow2((e - 134) as nat) < 0x100_0000 * 0x1000_0000)
                by (nonlinear_arith)
                requires
                    0 <= m < 0x80_0000,
                    0 < pow2((e - 134) as nat) <= 0x1000_0000,
            ;
        } else {
            lemma_pow2_pos((134 - e) as nat);
            vstd::arithmetic::div_mod::lemma_div_pos_is_pos(0x80_0000 + m, pow2((134 - e) as nat) as int);
            vstd::arithmetic::div_mod::lemma_div_is_ordered_by_denominator(
                0x80_0000 + m,
                1,
                pow2((134 - e) as nat) as int,
            );
        }
    }
}

/// Sample carrier of the non-negative single-precision value with exponent
/// field `e` and fraction field `m`: the value times 2^24, floored, saturated
/// at `SAMPLE_CLAMP`. The carrier is `(2^23 + m)` shifted by `e - 126`.
pub open spec fn spec_sample_fixed(e: int, m: int) -> int
    recommends
        0 <= e <= 255,
        0 <= m < 0x80_0000,
{
    if e >= 128 {
        SAMPLE_CLAMP as int
    } else if e >= 126 {
        (0x80_0000 + m) * pow2((e - 126) as nat) as int
    } else {
        (0x80_0000 + m) / pow2((126 - e) as nat) as int
    }
}

/// Sample carrier of a single-precision bit pattern, sign included;
/// non-finite patterns saturate at plus or minus `SAMPLE_CLAMP`.
pub open spec fn spec_sample_of_bits(bits: u32) -> int {
    if spec_f32_neg(bits) {
        -spec_sample_fixed(spec_f32_exp(bits) as int, spec_f32_frac(bits) as int)
    } else {
        spec_sample_fixed(spec_f32_exp(bits) as int, spec_f32_frac(bits) as int)
    }
}

/// Decodes a single-precision bit pattern into the signed sample carrier.
pub fn sample_from_bits(bits: u32) -> (r: i32)
    ensures
        r as int == spec_sample_of_bits(bits),
        -(SAMPLE_CLAMP as i32) <= r <= SAMPLE_CLAMP as i32,
{
    let e: u32 = (bits >> 23u32) & 0xFF;
    let m: u32 = bits & 0x7F_FFFF;
    proof {
        assert((bits & 0x7F_FFFF) < 0x80_0000u32 && ((bits >> 23u32) & 0xFF) < 256u32)
            by (bit_vector);
    }
    let base: u64 = 0x80_0000u64 + m as u64;
    let mag: u64 = if e >= 128 {
        0x200_0000u64
    } else if e == 127 {
        2 * base
    } else if e == 126 {
        proof {
            lemma2_to64();
            assert(pow2(0) == 1 && pow2(1) == 2);
        }
        base
    } else if e >= 103 {
        let sh: u32 = 126 - e;
        proof {
            lemma_u64_shr_is_div(base, sh as u64);
            assert(base >> (sh as u64) <= base) by (bit_vector);
        }
        base >> (sh as u64)
    } else {
        proof {
            lemma2_to64();
            let sh: nat = (126 - e) as nat;
            lemma_pow2_adds(24, (sh - 24) as nat);
            lemma_pow2_pos((sh - 24) as nat);
            assert(pow2(24) * pow2((sh - 24) as nat) >= pow2(24) * 1) by (nonlinear_arith)
                requires
                    pow2((sh - 24) as nat) >= 1,
            ;
            lemma_basic_div(base as int, pow2(sh) as int);
        }
        0
    };
    proof {
        lemma2_to64();
        assert(spec_sample_fixed(127, m as int) == (0x80_0000 + m as int) * (pow2(1) as int));
        assert(spec_sample_fixed(126, m as int) == (0x80_0000 + m as int) * (pow2(0) as int));
        assert(mag as int == spec_sample_fixed(e as int, m as int));
    }
    if bits >> 31u32 == 1 {
        -(mag as i32)
    } else {
        mag as i32
    }
}

/// A raw integer sample scaled to the carrier by its format's positive full
/// scale: `(|raw| * 2^24) / full_scale`, truncated toward zero, saturated at
/// `SAMPLE_CLAMP`, with the sign restored.
pub open spec fn spec_norm_mag(m: int, full_scale: int) -> int
    recommends
        m >= 0,
        full_scale >= 1,
{
    let q = (m * (SAMPLE_ONE as int)) / full_scale;
    if q > SAMPLE_CLAMP as int {
        SAMPLE_CLAMP as int
    } else {
        q
    }
}

/// Signed form of `spec_norm_mag`.
pub open spec fn spec_normalized(raw: int, full_scale: int) -> int
    recommends
        full_scale >= 1,
{
    if raw >= 0 {
        spec_norm_mag(raw, full_scale)
    } else {
        -spec_norm_mag(-raw, full_scale)
    }
}

/// Scales one raw integer sample to the sample carrier.
pub fn normalize_sample(raw: i64, full_scale: u64) -> (r: i32)
    requires
        1 <= full_scale <= 0x1_0000_0000u64,
        -0x1_0000_0000 <= raw <= 0x1_0000_0000,
    ensures
        r as int == spec_normalized(raw as int, full_scale as int),
        -(SAMPLE_CLAMP as i32) <= r <= SAMPLE_CLAMP as i32,
{
    if raw >= 0 {
        let m: u64 = raw as u64;
        let q: u64 = (m * 0x100_0000u64) / full_scale;
        let c: u64 = if q > 0x200_0000u64 {
            0x200_0000u64
        } else {
            q
        };
        c as i32
    } else {
        let m: u64 = (-raw) as u64;
        let q: u64 = (m * 0x100_0000u64) / full_scale;
        let c: u64 = if q > 0x200_0000u64 {
            0x200_0000u64
        } else {
            q
        };
        -(c as i32)
    }
}

/// The little-endian 32-bit word spelled by four bytes.
pub open spec fn spec_u32_le(b0: u8, b1: u8, b2: u8, b3: u8) -> u32 {
    (b0 + 0x100 * (b1 + 0x100 * (b2 + 0x100 * (b3 as u32)))) as u32
}

/// Assembles four little-endian bytes into a 32-bit word.
pub fn u32_from_le(b0: u8, b1: u8, b2: u8, b3: u8) -> (r: u32)
    ensures
        r == spec_u32_le(b0, b1, b2, b3),
{
    b0 as u32 + 0x100 * (b1 as u32 + 0x100 * (b2 as u32 + 0x100 * (b3 as u32)))
}

} // verus!
