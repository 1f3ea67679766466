//! Result objects for boundary crossings.
//!
//! Durations are carried as a sample count beside the sample rate, from
//! which a caller at the boundary derives seconds.

use crate::fingerprint::{generate_fingerprint, spec_fingerprint};
use vstd::prelude::*;

verus! {

/// A recording's fingerprint with its metadata.
pub struct SongFingerprint {
    pub hashes: Vec<u64>,
    pub metadata: SongMetadata,
}

/// Metadata of a fingerprinted recording.
#[derive(Clone, Copy, Debug, PartialEq, Eq, Structural)]
pub struct SongMetadata {
    pub sample_count: usize,
    pub sample_rate: u32,
    pub hash_count: usize,
}

/// A query clip's fingerprint.
pub struct QueryFingerprint {
    pub hashes: Vec<u64>,
    pub sample_count: usize,
    pub sample_rate: u32,
}

/// A decoded signal handed across a boundary.
pub struct AudioLoadResult {
    pub audio_data: Vec<i32>,
    pub sample_rate: u32,
    pub sample_count: usize,
}

/// A fingerprint rendered for a boundary that cannot carry 64-bit integers
/// exactly: each hash as its decimal string.
pub struct AudioHashes {
    pub hashes: Vec<String>,
    pub sample_rate: u32,
    pub sample_count: usize,
}

/// One hash rendered for a boundary that cannot carry 64-bit integers.
pub struct SerializableHash {
    pub(crate) hash: String,
    offset: u32,
}

/// Fingerprints a recording for enrollment, with its metadata.
pub fn generate_song_fingerprint(audio_data: &Vec<i32>, sample_rate: u32) -> (r: Result<
    SongFingerprint,
    String,
>)
    requires
        1 <= sample_rate,
    ensures
        r is Ok,
        r matches Ok(f) ==> f.hashes@ == spec_fingerprint(audio_data@, sample_rate as int)
            && f.metadata.sample_count == audio_data@.len() && f.metadata.sample_rate == sample_rate
            && f.metadata.hash_count == f.hashes@.len(),
{
    let hashes: Vec<u64> = generate_fingerprint(audio_data, sample_rate);
    let hash_count: usize = hashes.len();
    Ok(
        SongFingerprint {
            hashes,
            metadata: SongMetadata {
                sample_count: audio_data.len(),
                sample_rate,
                hash_count,
            },
        },
    )
}

/// Fingerprints a query clip.
pub fn generate_query_fingerprint(audio_clip: &Vec<i32>, sample_rate: u32) -> (r: Result<
    QueryFingerprint,
    String,
>)
    requires
        1 <= sample_rate,
    ensures
        r is Ok,
        r matches Ok(f) ==> f.hashes@ == spec_fingerprint(audio_clip@, sample_rate as int)
            && f.sample_count == audio_clip@.len() && f.sample_rate == sample_rate,
{
    let hashes: Vec<u64> = generate_fingerprint(audio_clip, sample_rate);
    Ok(QueryFingerprint { hashes, sample_count: audio_clip.len(), sample_rate })
}

} // verus!
