//! An audio fingerprinting and retrieval engine.
//!
//! A mono signal is cut into overlapping windows; each window's magnitude
//! spectrum is split into six frequency bands; per band, local maxima above an
//! adaptive threshold become peaks, and peak pairs are packed into 64-bit
//! hashes. An inverted index from hash to song identifiers serves enrollment
//! and query; candidates are ranked by an exact rational confidence score.
//!
//! Amplitudes are carried as fixed-point integers so that every stage past the
//! Fourier transform is ordinary integer arithmetic.

pub mod bands;
pub mod errors;
pub mod fingerprint;
pub mod fixed;
pub mod hashes;
pub mod models;
pub mod peaks;
pub mod score;
pub mod signal;
pub mod spectrum;
pub mod store;
pub mod wav;

pub use bands::FrequencyBands;
pub use errors::AudioError;
pub use fingerprint::AudioFingerprinter;
pub use models::{generate_query_fingerprint, generate_song_fingerprint, AudioHashes,
    AudioLoadResult, QueryFingerprint, SerializableHash, SongFingerprint, SongMetadata};
pub use score::{Confidence, SongMatch};
pub use store::{FingerprintStore, SongInfo};
pub use wav::{create_hashes_from_wav, AudioLoader};
