//! The WAV adapter: decoding a container byte buffer into prepared mono
//! samples, and the byte-buffer fingerprint entry point.
//!
//! The container is parsed by an outside reader behind trusted wrappers;
//! what the wrappers return is a pure function of the byte buffer. The
//! format dispatch, sample scaling, downmix and hashing on top of them are
//! verified. Accepted encodings: 16, 24 and 32-bit integer samples and
//! 32-bit floating samples; any other bit depth is refused as an
//! unsupported format.

use crate::errors::AudioError;
use crate::fingerprint::{generate_fingerprint, spec_fingerprint};
use crate::fixed::{spec_normalized, spec_sample_of_bits, SAMPLE_CLAMP};
use crate::models::AudioHashes;
use crate::signal::{downmix, normalize_i16_samples, normalize_i32_samples,
    samples_from_bit_patterns, spec_downmix};
use vstd::prelude::*;

verus! {

/// What the container reader parses from a byte buffer: sample rate,
/// channel count, bits per sample, and whether samples are floating;
/// `None` where the buffer is not a readable container.
pub uninterp spec fn spec_wav_spec_of(bytes: Seq<u8>) -> Option<(u32, u16, u16, bool)>;

/// The 16-bit integer samples of the container, interleaved; `None` where
/// they cannot be read as such.
pub uninterp spec fn spec_wav_i16_of(bytes: Seq<u8>) -> Option<Seq<i16>>;

/// The up-to-32-bit integer samples of the container, interleaved.
pub uninterp spec fn spec_wav_i32_of(bytes: Seq<u8>) -> Option<Seq<i32>>;

/// The bit patterns of the container's floating samples, interleaved.
pub uninterp spec fn spec_wav_float_bits_of(bytes: Seq<u8>) -> Option<Seq<u32>>;

/// Relies on hound's `WavReader::new` and `WavReader::spec`: parsing a byte
/// buffer is a pure computation, so the format fields are a function of the
/// buffer alone; a buffer that is no readable container is refused.
#[verifier::external_body]
fn read_wav_spec(bytes: &Vec<u8>) -> (r: Result<(u32, u16, u16, bool), AudioError>)
    ensures
        (match r {
            Ok(sp) => Some(sp) == spec_wav_spec_of(bytes@),
            Err(e) => spec_wav_spec_of(bytes@) is None && e == AudioError::Io,
        }),
{
    match hound::WavReader::new(std::io::Cursor::new(bytes)) {
        Ok(reader) => {
            let s = reader.spec();
            Ok(
                (
                    s.sample_rate,
                    s.channels,
                    s.bits_per_sample,
                    matches!(s.sample_format, hound::SampleFormat::Float),
                ),
            )
        },
        Err(_) => Err(AudioError::Io),
    }
}

/// Relies on hound's sample reader over 16-bit integer samples: a pure
/// parse of the byte buffer, refused on a malformed or mismatched
/// container.
#[verifier::external_body]
fn read_wav_i16(bytes: &Vec<u8>) -> (r: Result<Vec<i16>, AudioError>)
    ensures
        (match r {
            Ok(v) => Some(v@) == spec_wav_i16_of(bytes@),
            Err(e) => spec_wav_i16_of(bytes@) is None && e == AudioError::Io,
        }),
{
    let mut reader = match hound::WavReader::new(std::io::Cursor::new(bytes)) {
        Ok(r) => r,
        Err(_) => return Err(AudioError::Io),
    };
    match reader.samples::<i16>().collect::<Result<Vec<i16>, _>>() {
        Ok(v) => Ok(v),
        Err(_) => Err(AudioError::Io),
    }
}

/// Relies on hound's sample reader over integer samples up to 32 bits: a
/// pure parse of the byte buffer.
#[verifier::external_body]
fn read_wav_i32(bytes: &Vec<u8>) -> (r: Result<Vec<i32>, AudioError>)
    ensures
        (match r {
            Ok(v) => Some(v@) == spec_wav_i32_of(bytes@),
            Err(e) => spec_wav_i32_of(bytes@) is None && e == AudioError::Io,
        }),
{
    let mut reader = match hound::WavReader::new(std::io::Cursor::new(bytes)) {
        Ok(r) => r,
        Err(_) => return Err(AudioError::Io),
    };
    match reader.samples::<i32>().collect::<Result<Vec<i32>, _>>() {
        Ok(v) => Ok(v),
        Err(_) => Err(AudioError::Io),
    }
}

/// Relies on hound's sample reader over floating samples: a pure parse of
/// the byte buffer; each sample leaves as its bit pattern, unchanged.
#[verifier::external_body]
fn read_wav_float_bits(bytes: &Vec<u8>) -> (r: Result<Vec<u32>, AudioError>)
    ensures
        (match r {
            Ok(v) => Some(v@) == spec_wav_float_bits_of(bytes@),
            Err(e) => spec_wav_float_bits_of(bytes@) is None && e == AudioError::Io,
        }),
{
    let mut reader = match hound::WavReader::new(std::io::Cursor::new(bytes)) {
        Ok(r) => r,
        Err(_) => return Err(AudioError::Io),
    };
    let bits = reader.samples().map(
        |s|
            s.map(
                |x| rustfft::num_complex::Complex32::new(x, Default::default()).re.to_bits(),
            ),
    ).collect::<Result<Vec<u32>, _>>();
    match bits {
        Ok(v) => Ok(v),
        Err(_) => Err(AudioError::Io),
    }
}

/// An accepted sample encoding: a bit depth of 16, 24 or 32 for integer
/// samples, or 32 for floating ones.
pub open spec fn spec_wav_accepted(sp: (u32, u16, u16, bool)) -> bool {
    if sp.3 {
        sp.2 == 32
    } else {
        sp.2 == 16 || sp.2 == 24 || sp.2 == 32
    }
}

/// 16-bit integer samples scaled to the carrier.
pub open spec fn spec_norm16(s: Seq<i16>) -> Seq<i32> {
    s.map_values(|v: i16| spec_normalized(v as int, 32767) as i32)
}

/// Integer samples of full scale `fs` scaled to the carrier.
pub open spec fn spec_norm32(s: Seq<i32>, fs: int) -> Seq<i32> {
    s.map_values(|v: i32| spec_normalized(v as int, fs) as i32)
}

/// Floating bit patterns decoded to the carrier.
pub open spec fn spec_float_samples(s: Seq<u32>) -> Seq<i32> {
    s.map_values(|b: u32| spec_sample_of_bits(b) as i32)
}

/// The interleaved carrier samples of an accepted container.
pub open spec fn spec_wav_raw_samples(bytes: Seq<u8>, sp: (u32, u16, u16, bool)) -> Option<
    Seq<i32>,
>
    recommends
        spec_wav_accepted(sp),
{
    if sp.3 {
        match spec_wav_float_bits_of(bytes) {
            Option::Some(b) => Option::Some(spec_float_samples(b)),
            Option::None => Option::None,
        }
    } else if sp.2 == 16 {
        match spec_wav_i16_of(bytes) {
            Option::Some(v) => Option::Some(spec_norm16(v)),
            Option::None => Option::None,
        }
    } else if sp.2 == 24 {
        match spec_wav_i32_of(bytes) {
            Option::Some(v) => Option::Some(spec_norm32(v, 0x80_0000)),
            Option::None => Option::None,
        }
    } else {
        match spec_wav_i32_of(bytes) {
            Option::Some(v) => Option::Some(spec_norm32(v, 0x7FFF_FFFF)),
            Option::None => Option::None,
        }
    }
}

/// The prepared audio of a container: its mono carrier samples and its
/// sample rate; `None` where it cannot be read or its format is refused.
pub open spec fn spec_prepared_audio(bytes: Seq<u8>) -> Option<(Seq<i32>, u32)> {
    match spec_wav_spec_of(bytes) {
        Option::Some(sp) => {
            if spec_wav_accepted(sp) && sp.0 >= 1 && sp.1 >= 1 {
                match spec_wav_raw_samples(bytes, sp) {
                    Option::Some(raw) => Option::Some(
                        (spec_downmix(raw, sp.1 as nat), sp.0),
                    ),
                    Option::None => Option::None,
                }
            } else {
                Option::None
            }
        },
        Option::None => Option::None,
    }
}

/// The bit depth a parsed but refused container was declared with.
pub open spec fn spec_wav_refused_depth(bytes: Seq<u8>) -> Option<u16> {
    match spec_wav_spec_of(bytes) {
        Option::Some(sp) => if !spec_wav_accepted(sp) {
            Option::Some(sp.2)
        } else {
            Option::None
        },
        Option::None => Option::None,
    }
}

/// Decodes and prepares audio from container byte buffers.
pub struct AudioLoader;

impl AudioLoader {
    /// Decodes a WAV byte buffer into normalised mono carrier samples and
    /// the container's sample rate. A bit depth outside the accepted set
    /// fails as an unsupported format with that depth; an unreadable or
    /// degenerate container fails as a read error.
    pub fn load_from_wav_bytes(bytes: &Vec<u8>) -> (r: Result<(Vec<i32>, u32), AudioError>)
        ensures
            r is Ok <==> spec_prepared_audio(bytes@) is Some,
            r matches Ok(p) ==> Some((p.0@, p.1)) == spec_prepared_audio(bytes@),
            spec_wav_refused_depth(bytes@) matches Some(bits) ==> r == Err::<
                (Vec<i32>, u32),
                AudioError,
            >(AudioError::UnsupportedFormat(bits)),
            r is Err && spec_wav_refused_depth(bytes@) is None ==> r == Err::<
                (Vec<i32>, u32),
                AudioError,
            >(AudioError::Io),
            r matches Ok(p) ==> forall|k: int|
                0 <= k < p.0@.len() ==> -(SAMPLE_CLAMP as i32) <= #[trigger] p.0@[k]
                    <= SAMPLE_CLAMP as i32,
    {
        let sp: (u32, u16, u16, bool) = match read_wav_spec(bytes) {
            Ok(sp) => sp,
            Err(e) => {
                return Err(e);
            },
        };
        let (rate, channels, bits, is_float) = sp;
        let accepted: bool = if is_float {
            bits == 32
        } else {
            bits == 16 || bits == 24 || bits == 32
        };
        if !accepted {
            return Err(AudioError::UnsupportedFormat(bits));
        }
        if rate < 1 || channels < 1 {
            return Err(AudioError::Io);
        }
        let raw: Vec<i32> = if is_float {
            let b: Vec<u32> = match read_wav_float_bits(bytes) {
                Ok(b) => b,
                Err(e) => {
                    return Err(e);
                },
            };
            let s = samples_from_bit_patterns(&b);
            proof {
                assert(s@ =~= spec_float_samples(b@));
            }
            s
        } else if bits == 16 {
            let v: Vec<i16> = match read_wav_i16(bytes) {
                Ok(v) => v,
                Err(e) => {
                    return Err(e);
                },
            };
            let s = normalize_i16_samples(&v);
            proof {
                assert(s@ =~= spec_norm16(v@));
            }
            s
        } else if bits == 24 {
            let v: Vec<i32> = match read_wav_i32(bytes) {
                Ok(v) => v,
                Err(e) => {
                    return Err(e);
                },
            };
            let s = normalize_i32_samples(&v, 0x80_0000);
            proof {
                assert(s@ =~= spec_norm32(v@, 0x80_0000));
            }
            s
        } else {
            let v: Vec<i32> = match read_wav_i32(bytes) {
                Ok(v) => v,
                Err(e) => {
                    return Err(e);
                },
            };
            let s = normalize_i32_samples(&v, 0x7FFF_FFFF);
            proof {
                assert(s@ =~= spec_norm32(v@, 0x7FFF_FFFF));
            }
            s
        };
        let mono: Vec<i32> = downmix(&raw, channels);
        Ok((mono, rate))
    }
}

/// The decimal digit character of `d`.
pub open spec fn spec_digit_char(d: int) -> char
    recommends
        0 <= d < 10,
{
    if d == 0 {
        '0'
    } else if d == 1 {
        '1'
    } else if d == 2 {
        '2'
    } else if d == 3 {
        '3'
    } else if d == 4 {
        '4'
    } else if d == 5 {
        '5'
    } else if d == 6 {
        '6'
    } else if d == 7 {
        '7'
    } else if d == 8 {
        '8'
    } else {
        '9'
    }
}

/// The decimal spelling of `x`, most significant digit first.
pub open spec fn spec_dec_digits(x: int) -> Seq<char>
    recommends
        x >= 0,
    decreases x,
{
    if x < 10 {
        seq![spec_digit_char(x)]
    } else {
        spec_dec_digits(x / 10).push(spec_digit_char(x % 10))
    }
}

/// Appends one decimal digit character.
fn push_digit(s: &mut String, d: u64)
    requires
        d < 10,
    ensures
        final(s)@ == old(s)@.push(spec_digit_char(d as int)),
{
    proof {
        reveal_strlit("0");
        reveal_strlit("1");
        reveal_strlit("2");
        reveal_strlit("3");
        reveal_strlit("4");
        reveal_strlit("5");
        reveal_strlit("6");
        reveal_strlit("7");
        reveal_strlit("8");
        reveal_strlit("9");
    }
    if d == 0 {
        s.append("0");
    } else if d == 1 {
        s.append("1");
    } else if d == 2 {
        s.append("2");
    } else if d == 3 {
        s.append("3");
    } else if d == 4 {
        s.append("4");
    } else if d == 5 {
        s.append("5");
    } else if d == 6 {
        s.append("6");
    } else if d == 7 {
        s.append("7");
    } else if d == 8 {
        s.append("8");
    } else {
        s.append("9");
    }
    proof {
        assert(final(s)@ =~= old(s)@.push(spec_digit_char(d as int)));
    }
}

/// Renders a hash as its decimal string.
pub fn u64_to_decimal(x: u64) -> (s: String)
    ensures
        s@ == spec_dec_digits(x as int),
    decreases x,
{
    if x < 10 {
        let mut s = String::new();
        push_digit(&mut s, x);
        proof {
            assert(s@ =~= spec_dec_digits(x as int));
        }
        s
    } else {
        let mut s = u64_to_decimal(x / 10);
        push_digit(&mut s, x % 10);
        s
    }
}

/// Generates the fingerprint of a WAV byte buffer, each hash as a decimal
/// string, with the container's sample rate and the mono sample count.
pub fn create_hashes_from_wav(wav_bytes: &Vec<u8>) -> (r: Result<AudioHashes, AudioError>)
    ensures
        r is Ok <==> spec_prepared_audio(wav_bytes@) is Some,
        r matches Ok(a) ==> {
            let prepared = spec_prepared_audio(wav_bytes@).unwrap();
            let fp = spec_fingerprint(prepared.0, prepared.1 as int);
            &&& a.sample_rate == prepared.1
            &&& a.sample_count == prepared.0.len()
            &&& a.hashes@.len() == fp.len()
            &&& forall|k: int| 0 <= k < fp.len() ==> (#[trigger] a.hashes@[k])@ == spec_dec_digits(
                fp[k] as int,
            )
        },
        spec_wav_refused_depth(wav_bytes@) matches Some(bits) ==> r == Err::<
            AudioHashes,
            AudioError,
        >(AudioError::UnsupportedFormat(bits)),
        r is Err && spec_wav_refused_depth(wav_bytes@) is None ==> r == Err::<
            AudioHashes,
            AudioError,
        >(AudioError::Io),
{
    let (mono, rate) = match AudioLoader::load_from_wav_bytes(wav_bytes) {
        Ok(p) => p,
        Err(e) => {
            return Err(e);
        },
    };
    let fp: Vec<u64> = generate_fingerprint(&mono, rate);
    let mut hashes: Vec<String> = Vec::new();
    let mut i: usize = 0;
    while i < fp.len()
        invariant
            i <= fp@.len(),
            hashes@.len() == i,
            forall|k: int|
                0 <= k < i ==> (#[trigger] hashes@[k])@ == spec_dec_digits(fp@[k] as int),
        decreases fp@.len() - i,
    {
        hashes.push(u64_to_decimal(fp[i]));
        i = i + 1;
    }
    Ok(AudioHashes { hashes, sample_rate: rate, sample_count: mono.len() })
}

} // verus!
