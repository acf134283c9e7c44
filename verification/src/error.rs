//! The failures segment processing and model loading can surface. A segment
//! that is merely too short is not an error: it yields the sentinel speaker
//! ID 0 instead.

use vstd::prelude::*;

verus! {

/// Why a diarization operation failed.
#[derive(Debug)]
pub enum DiarizationError {
    /// Segment processing was attempted while no extractor is installed.
    ModelNotLoaded,
    /// Constructing an extractor from the given model path failed; carries
    /// the collaborator's reason verbatim.
    ModelLoadFailed(String),
    /// The extractor failed on valid input; carries its reason verbatim.
    ExtractionFailed(String),
    /// The extractor handed back an embedding that does not fit: empty, over
    /// the supported dimensionality, out of coordinate range, or of a
    /// different dimensionality than the stored centroids.
    DimensionMismatch,
}

} // verus!
