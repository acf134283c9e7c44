//! Online nearest-centroid speaker clustering.
//!
//! The clusterer holds one centroid per speaker seen so far. Each incoming
//! embedding is compared against every centroid in ascending-ID order; the
//! first centroid attaining the maximum cosine similarity wins (a strictly
//! greater similarity replaces the running best, an equal one does not). If
//! the best similarity reaches the threshold the embedding is absorbed into
//! that centroid by exponential decay — each coordinate becomes
//! `(9·centroid + embedding) / 10`, rounded down — and the cluster's ID is
//! returned; otherwise a fresh cluster is created with the embedding as its
//! centroid and the next unused ID, starting from 1, is returned. IDs are
//! never reused and grow by exactly one per new speaker.

use vstd::prelude::*;

use crate::similarity::COORD_LIMIT;
use crate::similarity::THRESHOLD_DEN_MAX;
use crate::similarity::bounded;
use crate::similarity::meets_threshold;
use crate::similarity::sim_gt;
use crate::similarity::similarity_gt;
use crate::similarity::similarity_meets_threshold;
use crate::similarity::valid_embedding;

verus! {

/// The index of the first centroid among `cs[0..n]` with maximal similarity
/// to `e`: scanning upward, a strictly greater similarity replaces the
/// running best and an equal one does not. Meaningful for `n >= 1`.
pub open spec fn best_index(e: Seq<i64>, cs: Seq<Seq<i64>>, n: int) -> int
    decreases n,
{
    if n <= 1 {
        0
    } else {
        let b = best_index(e, cs, n - 1);
        if sim_gt(e, cs[n - 1], cs[b]) {
            n - 1
        } else {
            b
        }
    }
}

/// The best index over a nonempty prefix lies within that prefix.
pub proof fn lemma_best_index_in_range(e: Seq<i64>, cs: Seq<Seq<i64>>, n: int)
    requires
        n >= 1,
    ensures
        0 <= best_index(e, cs, n) < n,
    decreases n,
{
    if n > 1 {
        lemma_best_index_in_range(e, cs, n - 1);
    }
}

/// The centroid `c` pulled one decay step toward `e`: each coordinate becomes
/// `(9·c + e) / 10`, rounded toward negative infinity.
pub open spec fn decayed(c: Seq<i64>, e: Seq<i64>) -> Seq<i64> {
    Seq::new(c.len(), |i: int| ((9 * c[i] + e[i]) / 10) as i64)
}

/// The mathematical state of the clusterer: the centroid of speaker `i + 1`
/// stands at position `i`, since IDs are assigned densely from 1 upward and
/// clusters are never evicted.
pub struct ClusteringView {
    pub centroids: Seq<Seq<i64>>,
    pub threshold_num: int,
    pub threshold_den: int,
    pub next_id: int,
}

/// The index of the centroid an embedding is matched against.
pub open spec fn view_best(v: ClusteringView, e: Seq<i64>) -> int {
    best_index(e, v.centroids, v.centroids.len() as int)
}

/// Whether `e` is recognised as an existing speaker: some cluster exists and
/// the most similar one reaches the threshold.
pub open spec fn view_matches(v: ClusteringView, e: Seq<i64>) -> bool {
    &&& v.centroids.len() > 0
    &&& meets_threshold(e, v.centroids[view_best(v, e)], v.threshold_num, v.threshold_den)
}

/// The speaker ID assigned to `e`: the matched cluster's ID, or the next
/// unused one.
pub open spec fn assigned_id(v: ClusteringView, e: Seq<i64>) -> int {
    if view_matches(v, e) {
        view_best(v, e) + 1
    } else {
        v.centroids.len() as int + 1
    }
}

/// The clusterer state after processing `e`: on a match the winning centroid
/// decays toward `e`; otherwise `e` is stored verbatim as a new centroid.
pub open spec fn step(v: ClusteringView, e: Seq<i64>) -> ClusteringView {
    if view_matches(v, e) {
        ClusteringView {
            centroids: v.centroids.update(view_best(v, e), decayed(v.centroids[view_best(v, e)], e)),
            ..v
        }
    } else {
        ClusteringView { centroids: v.centroids.push(e), next_id: v.next_id + 1, ..v }
    }
}

/// Whether `e` has the dimensionality of the stored centroids (vacuous while
/// no cluster exists yet).
pub open spec fn compatible(v: ClusteringView, e: Seq<i64>) -> bool {
    v.centroids.len() > 0 ==> e.len() == v.centroids[0].len()
}

/// The clusterer state after processing every embedding of `es` in order.
pub open spec fn run(v: ClusteringView, es: Seq<Seq<i64>>) -> ClusteringView
    decreases es.len(),
{
    if es.len() == 0 {
        v
    } else {
        step(run(v, es.drop_last()), es.last())
    }
}

/// A fresh clusterer assigns the very first embedding — whatever it is —
/// speaker ID 1, and stores it verbatim as the sole centroid.
pub proof fn lemma_first_embedding_gets_id_one(v: ClusteringView, e: Seq<i64>)
    requires
        v.centroids.len() == 0,
    ensures
        assigned_id(v, e) == 1,
        step(v, e).centroids =~= seq![e],
        step(v, e).next_id == v.next_id + 1,
{
}

/// Embeddings that stay pairwise below the threshold each open a new
/// cluster: starting from an empty clusterer, the `k`-th of them is assigned
/// ID `k` — the IDs come out strictly increasing, one per call — and the
/// centroids end up being exactly the embeddings, verbatim.
pub proof fn lemma_novel_embeddings_get_fresh_ids(v: ClusteringView, es: Seq<Seq<i64>>)
    requires
        v.centroids.len() == 0,
        forall|i: int, j: int|
            0 <= i < j < es.len() ==> !meets_threshold(
                #[trigger] es[j],
                #[trigger] es[i],
                v.threshold_num,
                v.threshold_den,
            ),
    ensures
        run(v, es).centroids =~= es,
        run(v, es).next_id == v.next_id + es.len(),
        run(v, es).threshold_num == v.threshold_num,
        run(v, es).threshold_den == v.threshold_den,
        forall|k: int|
            0 <= k < es.len() ==> assigned_id(run(v, #[trigger] es.take(k)), es[k]) == k + 1,
    decreases es.len(),
{
    if es.len() > 0 {
        let es0 = es.drop_last();
        let last = es.last();
        assert(forall|i: int, j: int|
            0 <= i < j < es0.len() ==> !meets_threshold(
                #[trigger] es0[j],
                #[trigger] es0[i],
                v.threshold_num,
                v.threshold_den,
            )) by {
            assert(forall|i: int| 0 <= i < es0.len() ==> #[trigger] es0[i] == es[i]);
        }
        lemma_novel_embeddings_get_fresh_ids(v, es0);
        let w = run(v, es0);
        assert(w.centroids =~= es0);
        // The best-matching centroid, if any, is one of the earlier
        // embeddings, and `last` stays below the threshold against it.
        if w.centroids.len() > 0 {
            lemma_best_index_in_range(last, w.centroids, w.centroids.len() as int);
            let b = view_best(w, last);
            assert(w.centroids[b] == es[b]);
            assert(last == es[es.len() - 1]);
            assert(!meets_threshold(es[es.len() - 1], es[b], v.threshold_num, v.threshold_den));
        }
        assert(!view_matches(w, last));
        assert(run(v, es).centroids =~= es);
        assert forall|k: int|
            0 <= k < es.len() implies assigned_id(run(v, #[trigger] es.take(k)), es[k]) == k
            + 1 by {
            if k < es.len() - 1 {
                assert(es.take(k) =~= es0.take(k));
                assert(assigned_id(run(v, es0.take(k)), es0[k]) == k + 1);
                assert(es0[k] == es[k]);
            } else {
                assert(es.take(k) =~= es0);
                assert(run(v, es.take(k)) == w);
                assert(assigned_id(w, last) == w.centroids.len() + 1);
            }
        }
    }
}

/// One speaker cluster: a stable positive ID and the adaptive centroid that
/// represents the speaker's voice.
struct SpeakerCluster {
    id: u128,
    centroid: Vec<i64>,
}

/// The online speaker clusterer: all known centroids, the rational similarity
/// threshold `threshold_num / threshold_den`, and the next unused ID.
pub struct OnlineClustering {
    clusters: Vec<SpeakerCluster>,
    threshold_num: i64,
    threshold_den: i64,
    next_id: u128,
}

impl View for OnlineClustering {
    type V = ClusteringView;

    closed spec fn view(&self) -> ClusteringView {
        ClusteringView {
            centroids: Seq::new(self.clusters@.len(), |i: int| self.clusters@[i].centroid@),
            threshold_num: self.threshold_num as int,
            threshold_den: self.threshold_den as int,
            next_id: self.next_id as int,
        }
    }
}

impl OnlineClustering {
    /// The clusterer's internal consistency: a threshold in `(0, 1]`, IDs
    /// equal to position plus one with `next_id` just past the largest, and
    /// centroids that are valid embeddings of one shared dimensionality.
    pub closed spec fn well_formed(self) -> bool {
        &&& 1 <= self.threshold_num <= self.threshold_den <= THRESHOLD_DEN_MAX
        &&& self.next_id == self.clusters@.len() + 1
        &&& forall|i: int|
            0 <= i < self.clusters@.len() ==> (#[trigger] self.clusters@[i].id) == i + 1
        &&& forall|i: int|
            0 <= i < self.clusters@.len() ==> valid_embedding(
                (#[trigger] self.clusters@[i]).centroid@,
            )
        &&& forall|i: int|
            0 <= i < self.clusters@.len() ==> (#[trigger] self.clusters@[i]).centroid@.len()
                == self.clusters@[0].centroid@.len()
    }

    /// Creates an empty clusterer with the similarity threshold
    /// `threshold_num / threshold_den`; the first speaker will get ID 1.
    pub fn new(threshold_num: i64, threshold_den: i64) -> (r: OnlineClustering)
        requires
            1 <= threshold_num <= threshold_den <= THRESHOLD_DEN_MAX,
        ensures
            r.well_formed(),
            r@.centroids.len() == 0,
            r@.threshold_num == threshold_num,
            r@.threshold_den == threshold_den,
            r@.next_id == 1,
    {
        let r = OnlineClustering {
            clusters: Vec::new(),
            threshold_num,
            threshold_den,
            next_id: 1,
        };
        proof {
            assert(r@.centroids =~= Seq::<Seq<i64>>::empty());
        }
        r
    }

    /// The number of speakers seen so far.
    pub fn cluster_count(&self) -> (n: usize)
        ensures
            n == self@.centroids.len(),
    {
        self.clusters.len()
    }

    /// The centroid currently stored for speaker `id`, or `None` if no such
    /// speaker has been assigned yet.
    pub fn centroid_of(&self, id: u128) -> (r: Option<&Vec<i64>>)
        requires
            self.well_formed(),
        ensures
            (1 <= id <= self@.centroids.len()) <==> r is Some,
            r matches Some(c) ==> c@ == self@.centroids[id - 1],
    {
        if id >= 1 && id <= self.clusters.len() as u128 {
            let i = (id - 1) as usize;
            Some(&self.clusters[i].centroid)
        } else {
            None
        }
    }

    /// Whether `embedding` has the dimensionality of the stored centroids;
    /// trivially true while no cluster exists.
    pub fn embedding_compatible(&self, embedding: &Vec<i64>) -> (r: bool)
        requires
            self.well_formed(),
        ensures
            r == compatible(self@, embedding@),
    {
        if self.clusters.len() == 0 {
            true
        } else {
            embedding.len() == self.clusters[0].centroid.len()
        }
    }

    /// Assigns `embedding` to a speaker: scans all centroids in ascending-ID
    /// order for the first one of maximal similarity, absorbs the embedding
    /// there if the similarity reaches the threshold, and otherwise creates a
    /// new cluster. Returns the speaker's positive ID.
    pub fn process_segment(&mut self, embedding: &Vec<i64>) -> (id: u128)
        requires
            old(self).well_formed(),
            valid_embedding(embedding@),
            compatible(old(self)@, embedding@),
        ensures
            final(self).well_formed(),
            id == assigned_id(old(self)@, embedding@),
            final(self)@ == step(old(self)@, embedding@),
            id >= 1,
    {
        let ghost v0 = self@;
        let ghost e = embedding@;
        let n = self.clusters.len();
        if n == 0 {
            let id = self.next_id;
            self.clusters.push(SpeakerCluster { id, centroid: copy_embedding(embedding) });
            self.next_id = id + 1;
            proof {
                assert(self@.centroids =~= step(v0, e).centroids);
            }
            return id;
        }

        // Scan for the first centroid of maximal similarity, in ascending-ID
        // order.
        let mut best: usize = 0;
        let mut i: usize = 1;
        while i < n
            invariant
                self == old(self),
                old(self).well_formed(),
                valid_embedding(e),
                compatible(v0, e),
                v0 == self@,
                e == embedding@,
                n == self.clusters@.len(),
                n >= 1,
                1 <= i <= n,
                0 <= best < i,
                best == best_index(e, v0.centroids, i as int),
            decreases n - i,
        {
            if similarity_gt(embedding, &self.clusters[i].centroid, &self.clusters[best].centroid) {
                best = i;
            }
            i = i + 1;
        }
        proof {
            lemma_best_index_in_range(e, v0.centroids, n as int);
        }

        if similarity_meets_threshold(
            embedding,
            &self.clusters[best].centroid,
            self.threshold_num,
            self.threshold_den,
        ) {
            // Existing speaker: pull its centroid one decay step toward the
            // embedding.
            let mut cl = self.clusters.remove(best);
            let id = cl.id;
            cl.centroid = decay_toward(&cl.centroid, embedding);
            self.clusters.insert(best, cl);
            proof {
                assert(self@.centroids =~= step(v0, e).centroids);
                assert(self@ == step(v0, e));
            }
            id
        } else {
            // New speaker.
            let id = self.next_id;
            self.clusters.push(SpeakerCluster { id, centroid: copy_embedding(embedding) });
            self.next_id = id + 1;
            proof {
                assert(self@.centroids =~= step(v0, e).centroids);
            }
            id
        }
    }
}

/// Copies an embedding coordinate by coordinate.
fn copy_embedding(e: &Vec<i64>) -> (r: Vec<i64>)
    ensures
        r@ == e@,
{
    let mut r: Vec<i64> = Vec::new();
    let mut i: usize = 0;
    while i < e.len()
        invariant
            0 <= i <= e@.len(),
            r@ == e@.subrange(0, i as int),
        decreases e@.len() - i,
    {
        r.push(e[i]);
        i = i + 1;
    }
    proof {
        assert(r@ =~= e@);
    }
    r
}

/// One decay step: every coordinate of the result is
/// `(9·c + e) / 10`, rounded toward negative infinity, computed exactly.
fn decay_toward(c: &Vec<i64>, e: &Vec<i64>) -> (r: Vec<i64>)
    requires
        c@.len() == e@.len(),
        bounded(c@, COORD_LIMIT as int),
        bounded(e@, COORD_LIMIT as int),
    ensures
        r@ == decayed(c@, e@),
        r@.len() == c@.len(),
        bounded(r@, COORD_LIMIT as int),
{
    let n = c.len();
    let mut r: Vec<i64> = Vec::new();
    let mut i: usize = 0;
    while i < n
        invariant
            n == c@.len(),
            n == e@.len(),
            bounded(c@, COORD_LIMIT as int),
            bounded(e@, COORD_LIMIT as int),
            0 <= i <= n,
            r@.len() == i,
            forall|j: int| 0 <= j < i ==> #[trigger] r@[j] == ((9 * c@[j] + e@[j]) / 10) as i64,
            bounded(r@, COORD_LIMIT as int),
        decreases n - i,
    {
        // Shift into nonnegative territory so the division rounds toward
        // negative infinity on the unshifted value.
        let t: i64 = 9 * c[i] + e[i];
        let u: u64 = (t + 10 * COORD_LIMIT) as u64;
        let q: u64 = u / 10;
        proof {
            vstd::arithmetic::div_mod::lemma_hoist_over_denominator(
                t as int,
                COORD_LIMIT as int,
                10,
            );
            vstd::arithmetic::div_mod::lemma_div_is_ordered(0, t + 10 * COORD_LIMIT, 10);
            vstd::arithmetic::div_mod::lemma_div_is_ordered(
                t + 10 * COORD_LIMIT,
                20 * (COORD_LIMIT as int),
                10,
            );
        }
        let d: i64 = (q as i64) - COORD_LIMIT;
        r.push(d);
        i = i + 1;
    }
    proof {
        assert(r@ =~= decayed(c@, e@));
    }
    r
}

} // verus!
