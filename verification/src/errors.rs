//! Error kinds raised by the engine's collaborators.
//!
//! Hash generation itself never fails on well-formed numeric input; all
//! failures originate at the boundaries: the audio container, the store, or a
//! serialisation step.

use vstd::prelude::*;

verus! {

/// What went wrong at a boundary of the engine.
#[derive(Clone, Copy, Debug, PartialEq, Eq, Structural)]
pub enum AudioError {
    /// The source audio container could not be read.
    Io,
    /// The container's sample encoding is not one the engine accepts; carries
    /// the offending bit depth.
    UnsupportedFormat(u16),
    /// The backing store could not be reached or an operation on it failed.
    StoreUnavailable,
    /// A result could not be encoded at a boundary.
    Serialisation,
}

} // verus!
