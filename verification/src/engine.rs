//! The diarization engine: one long-lived object, shared by reference, that
//! orchestrates the length gate, the embedding model and the speaker
//! clusterer behind a single `process_segment` operation.
//!
//! The two pieces of mutable state live behind separate reader–writer locks,
//! so that checking whether a model is loaded never blocks other readers,
//! loading is an exclusive critical section, and every clustering decision —
//! the similarity scan, the threshold test and the centroid update — runs
//! indivisibly against the cluster state. The lock on the cluster state
//! carries its well-formedness as the lock invariant, so the clusterer's
//! internal consistency holds under every interleaving of callers.

use vstd::prelude::*;
use vstd::rwlock::RwLock;
use vstd::rwlock::RwLockPredicate;

use crate::clustering::OnlineClustering;
use crate::error::DiarizationError;
use crate::model::EmbeddingExtractor;
use crate::model::ModelSlot;
use crate::similarity::is_valid_embedding;

verus! {

/// A segment shorter than this yields the sentinel speaker ID 0: too little
/// audio to extract a reliable embedding.
pub const MIN_SEGMENT_SAMPLES: usize = 200;

/// The lock invariant of the cluster state: it is always well formed and
/// always carries the engine's default similarity threshold of one half.
pub struct ClusterInv;

impl RwLockPredicate<OnlineClustering> for ClusterInv {
    open spec fn inv(self, v: OnlineClustering) -> bool {
        &&& v.well_formed()
        &&& v@.threshold_num == 1
        &&& v@.threshold_den == 2
    }
}

/// The lock invariant of the model slot: any slot value is admissible.
pub struct ModelInv;

impl<E: EmbeddingExtractor> RwLockPredicate<ModelSlot<E>> for ModelInv {
    open spec fn inv(self, v: ModelSlot<E>) -> bool {
        true
    }
}

/// The diarization engine over a concrete extractor backend `E`.
pub struct DiarizationEngine<E: EmbeddingExtractor> {
    model: RwLock<ModelSlot<E>, ModelInv>,
    clustering: RwLock<OnlineClustering, ClusterInv>,
}

impl<E: EmbeddingExtractor> DiarizationEngine<E> {
    /// Which cluster states this engine's lock can ever hold.
    pub closed spec fn cluster_lock_admits(self, c: OnlineClustering) -> bool {
        self.clustering.inv(c)
    }

    /// Creates an engine with no model loaded, no known speakers, and the
    /// default similarity threshold of one half.
    ///
    /// The lock invariant pins the threshold for the engine's whole
    /// lifetime: every cluster state this engine ever holds is well formed
    /// and has the threshold one half.
    pub fn new() -> (engine: Self)
        ensures
            forall|c: OnlineClustering|
                #[trigger] engine.cluster_lock_admits(c) <==> (c.well_formed()
                    && c@.threshold_num == 1 && c@.threshold_den == 2),
    {
        DiarizationEngine {
            model: RwLock::new(ModelSlot::empty(), Ghost(ModelInv)),
            clustering: RwLock::new(OnlineClustering::new(1, 2), Ghost(ClusterInv)),
        }
    }

    /// Whether an extractor is currently installed. A read-only probe: it
    /// takes no exclusive lock and never blocks other readers.
    pub fn is_model_loaded(&self) -> bool {
        let handle = self.model.acquire_read();
        let loaded = handle.borrow().is_model_loaded();
        handle.release_read();
        loaded
    }

    /// Unconditionally (re)loads the model from `path`, replacing any
    /// previously loaded extractor; the prior extractor is only replaced on
    /// success. An exclusive critical section on the model state.
    pub fn load_model(&self, path: String) -> (r: Result<(), DiarizationError>)
        ensures
            r is Err ==> r matches Err(DiarizationError::ModelLoadFailed(_)),
    {
        let (mut slot, handle) = self.model.acquire_write();
        let r = slot.load(path);
        handle.release_write(slot);
        r
    }

    /// Loads the model from `path` only if none is loaded yet. The fast path
    /// is a shared read; only when nothing is loaded does this take the
    /// exclusive lock, where the emptiness check is repeated so that callers
    /// racing to initialize construct at most one extractor between them.
    pub fn load_model_if_needed(&self, path: String) -> (r: Result<(), DiarizationError>)
        ensures
            r is Err ==> r matches Err(DiarizationError::ModelLoadFailed(_)),
    {
        let read_handle = self.model.acquire_read();
        let loaded = read_handle.borrow().is_model_loaded();
        read_handle.release_read();
        if loaded {
            return Ok(());
        }
        let (mut slot, handle) = self.model.acquire_write();
        let r = slot.ensure_loaded(path);
        handle.release_write(slot);
        r
    }

    /// Assigns a speaker ID to one segment of scaled audio samples.
    ///
    /// A segment of fewer than [`MIN_SEGMENT_SAMPLES`] samples yields the
    /// sentinel ID 0 without consulting the extractor; that sentinel never
    /// collides with a real speaker ID, which is at least 1. Otherwise the
    /// installed extractor produces an embedding — `ModelNotLoaded` if none
    /// is installed, `ExtractionFailed` if it fails — which is validated
    /// (`DimensionMismatch` if it does not fit the stored centroids) and then
    /// clustered in one indivisible critical section.
    pub fn process_segment(&self, samples: &Vec<i64>) -> (r: Result<u128, DiarizationError>)
        ensures
            samples@.len() < MIN_SEGMENT_SAMPLES ==> r == Ok::<u128, DiarizationError>(0),
            r matches Ok(id) ==> (id == 0 <==> samples@.len() < MIN_SEGMENT_SAMPLES),
            r is Err ==> (r matches Err(DiarizationError::ModelNotLoaded) || r matches Err(
                DiarizationError::ExtractionFailed(_),
            ) || r matches Err(DiarizationError::DimensionMismatch)),
    {
        if samples.len() < MIN_SEGMENT_SAMPLES {
            return Ok(0);
        }

        // Extraction runs under the model lock: the extractor mutates during
        // inference. Cluster state stays untouched and unlocked meanwhile.
        let (mut slot, model_handle) = self.model.acquire_write();
        let extracted = slot.extract(samples);
        model_handle.release_write(slot);

        let embedding = match extracted {
            Ok(e) => e,
            Err(err) => {
                return Err(err);
            },
        };

        // Validate the extractor's output before it can touch cluster state.
        if !is_valid_embedding(&embedding) {
            return Err(DiarizationError::DimensionMismatch);
        }

        // The read-decide-update sequence is one critical section.
        let (mut clusterer, cluster_handle) = self.clustering.acquire_write();
        if !clusterer.embedding_compatible(&embedding) {
            cluster_handle.release_write(clusterer);
            return Err(DiarizationError::DimensionMismatch);
        }
        let id = clusterer.process_segment(&embedding);
        cluster_handle.release_write(clusterer);
        Ok(id)
    }
}

} // verus!
