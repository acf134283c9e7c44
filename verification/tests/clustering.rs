//! Tests of the online speaker clusterer and the exact similarity decisions.
//!
//! Embeddings are fixed-point vectors: a unit float vector scaled by 1000
//! (or 100 in the adaptation tests) becomes a vector of integers.

use diarize::clustering::OnlineClustering;
use diarize::similarity::similarity_gt;
use diarize::similarity::similarity_meets_threshold;

#[test]
fn test_cosine_similarity() {
    let v1: Vec<i64> = vec![1000, 0, 0];
    let v2: Vec<i64> = vec![1000, 0, 0];
    // cos(v1, v2) == 1: it meets the threshold 1000/1000 exactly.
    assert!(similarity_meets_threshold(&v1, &v2, 1000, 1000));

    let v3: Vec<i64> = vec![0, 1000, 0];
    // cos(v1, v3) == 0: it misses even the smallest positive threshold.
    assert!(!similarity_meets_threshold(&v1, &v3, 1, 1000));
}

#[test]
fn test_clustering_new_speaker() {
    let mut clustering = OnlineClustering::new(1, 2);
    let emb1: Vec<i64> = vec![1000, 0];
    let id1 = clustering.process_segment(&emb1);
    assert_eq!(id1, 1);

    let emb2: Vec<i64> = vec![0, 1000]; // Orthogonal, should be new speaker
    let id2 = clustering.process_segment(&emb2);
    assert_eq!(id2, 2);
}

#[test]
fn test_clustering_same_speaker() {
    let mut clustering = OnlineClustering::new(1, 2);
    let emb1: Vec<i64> = vec![1000, 0];
    let id1 = clustering.process_segment(&emb1);

    let emb2: Vec<i64> = vec![900, 100]; // Close enough
    let id2 = clustering.process_segment(&emb2);
    assert_eq!(id1, id2);
}

#[test]
fn first_embedding_always_gets_id_one() {
    let mut clustering = OnlineClustering::new(1, 2);
    assert_eq!(clustering.process_segment(&vec![-5000, 7000, 13]), 1);

    let mut other = OnlineClustering::new(999, 1000);
    assert_eq!(other.process_segment(&vec![1]), 1);
}

#[test]
fn orthogonal_embeddings_get_increasing_ids() {
    let mut clustering = OnlineClustering::new(1, 2);
    let ids: Vec<u128> = vec![
        clustering.process_segment(&vec![100, 0, 0]),
        clustering.process_segment(&vec![0, 100, 0]),
        clustering.process_segment(&vec![0, 0, 100]),
    ];
    assert_eq!(ids, vec![1, 2, 3]);
    assert_eq!(clustering.cluster_count(), 3);
}

#[test]
fn matched_centroid_decays_toward_embedding() {
    // The scenario at threshold one half, at scale 100: [1,0] founds cluster
    // 1; [0,1] is orthogonal and founds cluster 2; [0.9,0.1] matches cluster
    // 1 (similarity roughly 0.994) and pulls its centroid to
    // 0.9*[1,0] + 0.1*[0.9,0.1] == [0.99, 0.01].
    let mut clustering = OnlineClustering::new(1, 2);
    assert_eq!(clustering.process_segment(&vec![100, 0]), 1);
    assert_eq!(clustering.centroid_of(1).unwrap(), &vec![100, 0]);
    assert_eq!(clustering.process_segment(&vec![0, 100]), 2);
    assert_eq!(clustering.process_segment(&vec![90, 10]), 1);
    assert_eq!(clustering.centroid_of(1).unwrap(), &vec![99, 1]);
    // Cluster 2 was not touched.
    assert_eq!(clustering.centroid_of(2).unwrap(), &vec![0, 100]);
    // No speaker 3 exists.
    assert!(clustering.centroid_of(3).is_none());
    assert!(clustering.centroid_of(0).is_none());
}

#[test]
fn equal_similarities_keep_the_lowest_id() {
    // [1,1] is equally similar to [1,0] and [0,1]; the scan keeps the first
    // maximum, so cluster 1 wins deterministically.
    let mut clustering = OnlineClustering::new(1, 2);
    assert_eq!(clustering.process_segment(&vec![100, 0]), 1);
    assert_eq!(clustering.process_segment(&vec![0, 100]), 2);
    assert_eq!(clustering.process_segment(&vec![100, 100]), 1);
    assert_eq!(clustering.centroid_of(1).unwrap(), &vec![100, 10]);
}

#[test]
fn zero_embedding_is_similar_to_nothing() {
    // An all-zero embedding has similarity 0 to everything, below every
    // positive threshold, so each one founds a new cluster.
    let mut clustering = OnlineClustering::new(1, 1000);
    assert_eq!(clustering.process_segment(&vec![0, 0]), 1);
    assert_eq!(clustering.process_segment(&vec![0, 0]), 2);
    assert_eq!(clustering.process_segment(&vec![7, 0]), 3);
}

#[test]
fn similarity_comparisons_order_candidates() {
    let e: Vec<i64> = vec![1000, 0];
    let close: Vec<i64> = vec![900, 100];
    let far: Vec<i64> = vec![0, 1000];
    assert!(similarity_gt(&e, &close, &far));
    assert!(!similarity_gt(&e, &far, &close));
    // Nothing is strictly more similar to e than e itself.
    assert!(!similarity_gt(&e, &close, &e));
    assert!(!similarity_gt(&e, &e, &e));
}

#[test]
fn self_similarity_of_any_nonzero_vector_is_one() {
    let v: Vec<i64> = vec![123, -456, 789];
    // Meets the threshold 1 exactly ...
    assert!(similarity_meets_threshold(&v, &v, 1000, 1000));
    // ... and a zero vector instead misses every positive threshold.
    let z: Vec<i64> = vec![0, 0, 0];
    assert!(!similarity_meets_threshold(&z, &v, 1, 1000));
    assert!(!similarity_meets_threshold(&v, &z, 1, 1000));
}
