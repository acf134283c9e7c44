//! An online speaker-diarization engine: it turns a stream of short audio
//! segments into stable integer speaker identities, distinguishing "the same
//! voice as before" from "a new voice" without prior enrollment.
//!
//! Embeddings travel through the library as fixed-point vectors — scaled
//! integer coordinates — so every similarity decision is exact: comparing two
//! cosine similarities, or a similarity against the rational threshold, is
//! done by cross-multiplying squares instead of by floating-point division
//! ([`similarity`]). On top of that sit the incremental nearest-centroid
//! clusterer with its decaying centroids ([`clustering`]), the idempotent,
//! replace-on-success-only lifecycle of the embedding model ([`model`]), and
//! the engine that orchestrates the two behind one `process_segment`
//! operation with a length gate and the sentinel speaker ID 0 ([`engine`]).
//! Download-progress accounting and the hardware-profile policy live in
//! [`progress`] and [`hardware`].

pub mod clustering;
pub mod engine;
pub mod error;
pub mod hardware;
pub mod model;
pub mod progress;
pub mod similarity;
