//! Lifecycle of the embedding model: a slot that holds at most one loaded
//! extractor, with an idempotent `ensure_loaded` fast path and an
//! unconditional `load` that replaces the prior extractor only on success.

use vstd::prelude::*;

use crate::error::DiarizationError;

verus! {

/// The capability interface of the neural embedding extractor, the seam at
/// which a concrete inference backend plugs in. The engine assumes nothing
/// about either operation beyond their signatures: whatever an
/// implementation returns is validated before it touches cluster state.
pub trait EmbeddingExtractor: Sized {
    /// Constructs an extractor from the model resource at `path`; fails with
    /// a human-readable reason when the resource is missing or malformed.
    fn build(path: &String) -> Result<Self, String>;

    /// Computes a voice embedding, in scaled fixed-point coordinates, for one
    /// segment of scaled audio samples.
    fn extract(&mut self, samples: &Vec<i64>) -> Result<Vec<i64>, String>;
}

/// Holds zero or one loaded extractor together with the path it was loaded
/// from, and counts (in ghost state) how many constructions have succeeded.
pub struct ModelSlot<E: EmbeddingExtractor> {
    extractor: Option<E>,
    source_path: Option<String>,
    loads: Ghost<nat>,
}

impl<E: EmbeddingExtractor> ModelSlot<E> {
    /// Whether an extractor is currently installed.
    pub closed spec fn is_loaded(self) -> bool {
        self.extractor is Some
    }

    /// The path the current extractor was loaded from.
    pub closed spec fn path(self) -> Option<Seq<char>> {
        match self.source_path {
            Some(p) => Some(p@),
            None => None,
        }
    }

    /// How many extractor constructions have succeeded so far; an operation
    /// that leaves this unchanged has provably not built a new extractor.
    pub closed spec fn loads(self) -> nat {
        self.loads@
    }

    /// An empty slot: nothing loaded, nothing ever constructed.
    pub fn empty() -> (s: Self)
        ensures
            !s.is_loaded(),
            s.path() is None,
            s.loads() == 0,
    {
        ModelSlot { extractor: None, source_path: None, loads: Ghost(0) }
    }

    /// Whether an extractor is currently installed.
    pub fn is_model_loaded(&self) -> (r: bool)
        ensures
            r == self.is_loaded(),
    {
        match &self.extractor {
            Some(_) => true,
            None => false,
        }
    }

    /// Unconditionally (re)loads from `path`, replacing any previously loaded
    /// extractor. On failure the prior extractor — if any — is left exactly
    /// as it was; it is only replaced on success.
    pub fn load(&mut self, path: String) -> (r: Result<(), DiarizationError>)
        ensures
            r is Ok ==> final(self).is_loaded() && final(self).loads() == old(self).loads() + 1
                && final(self).path() == Some(path@),
            r is Err ==> *final(self) == *old(self) && r matches Err(
                DiarizationError::ModelLoadFailed(_),
            ),
    {
        match E::build(&path) {
            Ok(ext) => {
                self.extractor = Some(ext);
                self.source_path = Some(path);
                proof {
                    self.loads@ = self.loads@ + 1;
                }
                Ok(())
            },
            Err(reason) => Err(DiarizationError::ModelLoadFailed(reason)),
        }
    }

    /// Idempotent loading: when an extractor is already installed this
    /// returns success immediately, constructing nothing and changing
    /// nothing; otherwise it loads from `path` as [`Self::load`] does.
    pub fn ensure_loaded(&mut self, path: String) -> (r: Result<(), DiarizationError>)
        ensures
            old(self).is_loaded() ==> r is Ok && *final(self) == *old(self),
            r is Ok ==> final(self).is_loaded(),
            !old(self).is_loaded() && r is Ok ==> final(self).loads() == old(self).loads() + 1
                && final(self).path() == Some(path@),
            r is Err ==> *final(self) == *old(self) && r matches Err(
                DiarizationError::ModelLoadFailed(_),
            ),
    {
        if self.is_model_loaded() {
            Ok(())
        } else {
            self.load(path)
        }
    }

    /// Runs the installed extractor on one segment of scaled samples. With no
    /// extractor installed this fails with `ModelNotLoaded` and touches
    /// nothing; an extraction failure is surfaced verbatim as
    /// `ExtractionFailed`.
    pub fn extract(&mut self, samples: &Vec<i64>) -> (r: Result<Vec<i64>, DiarizationError>)
        ensures
            !old(self).is_loaded() ==> (r matches Err(DiarizationError::ModelNotLoaded))
                && *final(self) == *old(self),
            old(self).is_loaded() ==> (r is Ok || r matches Err(
                DiarizationError::ExtractionFailed(_),
            )),
            final(self).is_loaded() == old(self).is_loaded(),
            final(self).loads() == old(self).loads(),
            final(self).path() == old(self).path(),
    {
        match &mut self.extractor {
            None => Err(DiarizationError::ModelNotLoaded),
            Some(ext) => match ext.extract(samples) {
                Ok(embedding) => Ok(embedding),
                Err(reason) => Err(DiarizationError::ExtractionFailed(reason)),
            },
        }
    }
}

} // verus!
