//! End-to-end tests of the diarization engine with stub extractor backends.

use diarize::engine::DiarizationEngine;
use diarize::engine::MIN_SEGMENT_SAMPLES;
use diarize::error::DiarizationError;
use diarize::model::EmbeddingExtractor;

/// A stub backend whose construction fails for one designated path and whose
/// embedding is just the first two samples of the segment.
struct StubExtractor;

impl EmbeddingExtractor for StubExtractor {
    fn build(path: &String) -> Result<Self, String> {
        if path == "missing-model" {
            Err("no such model resource".to_string())
        } else {
            Ok(StubExtractor)
        }
    }

    fn extract(&mut self, samples: &Vec<i64>) -> Result<Vec<i64>, String> {
        Ok(vec![samples[0], samples[1]])
    }
}

/// A backend that aborts the test if inference is ever reached.
struct PanickyExtractor;

impl EmbeddingExtractor for PanickyExtractor {
    fn build(_path: &String) -> Result<Self, String> {
        Ok(PanickyExtractor)
    }

    fn extract(&mut self, _samples: &Vec<i64>) -> Result<Vec<i64>, String> {
        panic!("the extractor must not be invoked for this segment");
    }
}

/// A backend whose inference always fails.
struct BrokenExtractor;

impl EmbeddingExtractor for BrokenExtractor {
    fn build(_path: &String) -> Result<Self, String> {
        Ok(BrokenExtractor)
    }

    fn extract(&mut self, _samples: &Vec<i64>) -> Result<Vec<i64>, String> {
        Err("inference failed".to_string())
    }
}

/// A backend whose embedding dimensionality follows the segment length.
struct WobblyDimExtractor;

impl EmbeddingExtractor for WobblyDimExtractor {
    fn build(_path: &String) -> Result<Self, String> {
        Ok(WobblyDimExtractor)
    }

    fn extract(&mut self, samples: &Vec<i64>) -> Result<Vec<i64>, String> {
        Ok(vec![1000; samples.len() - MIN_SEGMENT_SAMPLES + 1])
    }
}

/// A backend whose embedding coordinates exceed the engine's range.
struct OutOfRangeExtractor;

impl EmbeddingExtractor for OutOfRangeExtractor {
    fn build(_path: &String) -> Result<Self, String> {
        Ok(OutOfRangeExtractor)
    }

    fn extract(&mut self, _samples: &Vec<i64>) -> Result<Vec<i64>, String> {
        Ok(vec![i64::MAX, 0])
    }
}

/// A segment of `n` samples whose first two samples are `a` and `b`, so the
/// stub extractor maps it to the embedding `[a, b]`.
fn segment(a: i64, b: i64, n: usize) -> Vec<i64> {
    let mut s = vec![0i64; n];
    s[0] = a;
    s[1] = b;
    s
}

#[test]
fn processing_without_model_fails_with_model_not_loaded() {
    let engine = DiarizationEngine::<StubExtractor>::new();
    let r = engine.process_segment(&segment(1000, 0, 300));
    assert!(matches!(r, Err(DiarizationError::ModelNotLoaded)));
    // Still not loaded afterwards.
    assert!(!engine.is_model_loaded());
}

#[test]
fn short_segment_yields_sentinel_zero_and_skips_extraction() {
    // Even with a model loaded whose extractor would abort the test, a
    // segment below the length gate returns the sentinel 0.
    let engine = DiarizationEngine::<PanickyExtractor>::new();
    engine.load_model("some-model".to_string()).unwrap();
    let r = engine.process_segment(&segment(1000, 0, MIN_SEGMENT_SAMPLES - 1));
    assert_eq!(r.unwrap(), 0);
    // Without any model it is also 0: the length test precedes everything.
    let bare = DiarizationEngine::<PanickyExtractor>::new();
    assert_eq!(bare.process_segment(&vec![]).unwrap(), 0);
    assert_eq!(bare.process_segment(&vec![5; 199]).unwrap(), 0);
}

#[test]
fn speaker_ids_flow_through_the_engine() {
    let engine = DiarizationEngine::<StubExtractor>::new();
    engine.load_model("model-a".to_string()).unwrap();
    assert!(engine.is_model_loaded());
    // Default threshold is one half; the embeddings mirror the clusterer
    // scenario: two orthogonal voices, then a segment close to the first.
    assert_eq!(engine.process_segment(&segment(100, 0, 250)).unwrap(), 1);
    assert_eq!(engine.process_segment(&segment(0, 100, 250)).unwrap(), 2);
    assert_eq!(engine.process_segment(&segment(90, 10, 250)).unwrap(), 1);
    // Real speaker IDs never collide with the sentinel 0.
    assert_eq!(engine.process_segment(&segment(90, 10, 199)).unwrap(), 0);
}

#[test]
fn failed_load_reports_and_retains_nothing() {
    let engine = DiarizationEngine::<StubExtractor>::new();
    let r = engine.load_model("missing-model".to_string());
    assert!(matches!(r, Err(DiarizationError::ModelLoadFailed(_))));
    assert!(!engine.is_model_loaded());
    // Processing still reports the missing model.
    let r2 = engine.process_segment(&segment(100, 0, 300));
    assert!(matches!(r2, Err(DiarizationError::ModelNotLoaded)));
}

#[test]
fn ensure_loaded_is_idempotent_and_constructs_nothing_when_loaded() {
    let engine = DiarizationEngine::<StubExtractor>::new();
    engine.load_model_if_needed("model-a".to_string()).unwrap();
    assert!(engine.is_model_loaded());
    // The fast path must not construct: were a construction attempted from
    // this path, it would fail.
    engine.load_model_if_needed("missing-model".to_string()).unwrap();
    assert!(engine.is_model_loaded());
}

#[test]
fn load_model_always_reconstructs() {
    let engine = DiarizationEngine::<StubExtractor>::new();
    engine.load_model("model-a".to_string()).unwrap();
    // An unconditional reload does construct, and here that construction
    // fails; the previously loaded extractor stays installed.
    let r = engine.load_model("missing-model".to_string());
    assert!(matches!(r, Err(DiarizationError::ModelLoadFailed(_))));
    assert!(engine.is_model_loaded());
    assert_eq!(engine.process_segment(&segment(100, 0, 300)).unwrap(), 1);
}

#[test]
fn extraction_failure_is_surfaced_verbatim() {
    let engine = DiarizationEngine::<BrokenExtractor>::new();
    engine.load_model("model-a".to_string()).unwrap();
    let r = engine.process_segment(&segment(100, 0, 300));
    match r {
        Err(DiarizationError::ExtractionFailed(reason)) => {
            assert_eq!(reason, "inference failed");
        },
        other => panic!("expected ExtractionFailed, got {:?}", other),
    }
}

#[test]
fn mismatched_dimensions_are_rejected() {
    let engine = DiarizationEngine::<WobblyDimExtractor>::new();
    engine.load_model("model-a".to_string()).unwrap();
    // First segment: embedding of dimension 3.
    assert_eq!(engine.process_segment(&vec![0; MIN_SEGMENT_SAMPLES + 2]).unwrap(), 1);
    // Second segment: embedding of dimension 5 — rejected, state untouched.
    let r = engine.process_segment(&vec![0; MIN_SEGMENT_SAMPLES + 4]);
    assert!(matches!(r, Err(DiarizationError::DimensionMismatch)));
    // Dimension 3 still works and matches speaker 1.
    assert_eq!(engine.process_segment(&vec![0; MIN_SEGMENT_SAMPLES + 2]).unwrap(), 1);
}

#[test]
fn out_of_range_embeddings_are_rejected() {
    let engine = DiarizationEngine::<OutOfRangeExtractor>::new();
    engine.load_model("model-a".to_string()).unwrap();
    let r = engine.process_segment(&vec![0; 300]);
    assert!(matches!(r, Err(DiarizationError::DimensionMismatch)));
}
