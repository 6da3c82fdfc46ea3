//! Similarity of embeddings.
//!
//! Two embeddings of the same length are as similar as their bytes are
//! close: the score is 1.0 less the mean absolute difference of the bytes,
//! taken as a share of the largest difference a byte can have. Embeddings of
//! different lengths are not similar at all, and what is empty is no
//! embedding and is similar to nothing.

use vstd::prelude::*;
use crate::face_recognition::{FaceSample, SampleView, sample_views};
use crate::types::SCORE_ONE;

verus! {

/// The absolute difference of two bytes.
pub open spec fn byte_gap(x: u8, y: u8) -> nat {
    if x >= y {
        (x - y) as nat
    } else {
        (y - x) as nat
    }
}

/// The sum of the absolute differences of the bytes of two embeddings of
/// the same length.
pub open spec fn distance(a: Seq<u8>, b: Seq<u8>) -> nat
    decreases a.len(),
{
    if a.len() == 0 || a.len() != b.len() {
        0
    } else {
        distance(a.drop_last(), b.drop_last()) + byte_gap(a.last(), b.last())
    }
}

/// The similarity of two embeddings, between 0 and `SCORE_ONE`.
pub open spec fn similarity(a: Seq<u8>, b: Seq<u8>) -> nat {
    if a.len() != b.len() || a.len() == 0 {
        0
    } else {
        (SCORE_ONE as int - (SCORE_ONE as int * distance(a, b) as int) / (255 * a.len() as int)) as nat
    }
}

/// The best similarity that any of the probes has to the reference; 0
/// without a probe.
pub open spec fn best_similarity(reference: Seq<u8>, probes: Seq<SampleView>) -> nat
    decreases probes.len(),
{
    if probes.len() == 0 {
        0
    } else {
        let earlier = best_similarity(reference, probes.drop_last());
        let latest = similarity(reference, probes.last().embedding);
        if latest > earlier {
            latest
        } else {
            earlier
        }
    }
}

/// The distance of two embeddings of one length is at most 255 per byte.
pub proof fn lemma_distance_bounded(a: Seq<u8>, b: Seq<u8>)
    ensures
        distance(a, b) <= 255 * a.len(),
    decreases a.len(),
{
    if a.len() != 0 && a.len() == b.len() {
        lemma_distance_bounded(a.drop_last(), b.drop_last());
    }
}

/// A similarity is a score: it never exceeds `SCORE_ONE`.
pub proof fn lemma_similarity_bounded(a: Seq<u8>, b: Seq<u8>)
    ensures
        similarity(a, b) <= SCORE_ONE,
{
    if a.len() == b.len() && a.len() > 0 {
        let d = distance(a, b) as int;
        let n = a.len() as int;
        lemma_distance_bounded(a, b);
        assert(0 <= (1000 * d) / (255 * n) <= 1000) by (nonlinear_arith)
            requires
                n > 0,
                0 <= d <= 255 * n,
        ;
    }
}

/// The distance of an embedding to itself is zero.
pub proof fn lemma_distance_to_self(a: Seq<u8>)
    ensures
        distance(a, a) == 0,
    decreases a.len(),
{
    if a.len() != 0 {
        lemma_distance_to_self(a.drop_last());
    }
}

/// An embedding compared with itself scores `SCORE_ONE`.
pub proof fn lemma_self_similarity(a: Seq<u8>)
    requires
        a.len() > 0,
    ensures
        similarity(a, a) == SCORE_ONE,
{
    lemma_distance_to_self(a);
    if a.len() > 0 {
        let n = a.len() as int;
        assert((1000 * 0int) / (255 * n) == 0) by (nonlinear_arith)
            requires
                n > 0,
        ;
    }
}

/// Which embeddings score below a threshold: those of different lengths,
/// when the threshold is above zero, and those of one length whose bytes
/// are further apart, in sum, than the share of the greatest distance that
/// the threshold leaves. How far apart the embeddings of two faces are is
/// a matter of the faces and of what made the embeddings; the score
/// follows the distance and nothing else.
pub proof fn lemma_far_embedding_scores_low(a: Seq<u8>, b: Seq<u8>, threshold: u32)
    requires
        a.len() == b.len(),
        a.len() > 0,
        threshold <= SCORE_ONE,
    ensures
        similarity(a, b) < threshold <==> SCORE_ONE * distance(a, b) >= (SCORE_ONE - threshold + 1)
            * (255 * a.len()),
{
    let d = distance(a, b) as int;
    let n = a.len() as int;
    let t = threshold as int;
    let m = 255 * n;
    let q = (1000 * d) / m;
    lemma_distance_bounded(a, b);
    assert(0 <= q <= 1000) by (nonlinear_arith)
        requires
            m > 0,
            0 <= d,
            1000 * d <= 1000 * m,
            q == (1000 * d) / m,
    ;
    assert(q >= 1001 - t <==> 1000 * d >= (1001 - t) * m) by (nonlinear_arith)
        requires
            m > 0,
            0 <= t <= 1000,
            d >= 0,
            q == (1000 * d) / m,
    ;
}

/// The best similarity is a score.
pub proof fn lemma_best_similarity_bounded(reference: Seq<u8>, probes: Seq<SampleView>)
    ensures
        best_similarity(reference, probes) <= SCORE_ONE,
    decreases probes.len(),
{
    if probes.len() > 0 {
        lemma_best_similarity_bounded(reference, probes.drop_last());
        lemma_similarity_bounded(reference, probes.last().embedding);
    }
}

/// The best similarity is at least the similarity of each probe.
pub proof fn lemma_best_similarity_covers(reference: Seq<u8>, probes: Seq<SampleView>, at: int)
    requires
        0 <= at < probes.len(),
    ensures
        best_similarity(reference, probes) >= similarity(reference, probes[at].embedding),
    decreases probes.len(),
{
    if at < probes.len() - 1 {
        lemma_best_similarity_covers(reference, probes.drop_last(), at);
    }
}

/// A capture that holds the stored embedding itself matches it in full.
pub proof fn lemma_same_embedding_matches(reference: Seq<u8>, probes: Seq<SampleView>, at: int)
    requires
        0 <= at < probes.len(),
        probes[at].embedding == reference,
        reference.len() > 0,
    ensures
        best_similarity(reference, probes) == SCORE_ONE,
{
    lemma_best_similarity_covers(reference, probes, at);
    lemma_self_similarity(reference);
    lemma_best_similarity_bounded(reference, probes);
}

/// When every probe scores below a threshold that is above zero, so does
/// the best of them.
pub proof fn lemma_best_below(reference: Seq<u8>, probes: Seq<SampleView>, threshold: u32)
    requires
        probes.len() > 0,
        forall|i: int|
            0 <= i < probes.len() ==> similarity(reference, #[trigger] probes[i].embedding)
                < threshold,
    ensures
        best_similarity(reference, probes) < threshold,
    decreases probes.len(),
{
    let earlier = probes.drop_last();
    assert(probes.last() == probes[probes.len() - 1]);
    if earlier.len() > 0 {
        assert forall|i: int| 0 <= i < earlier.len() implies similarity(
            reference,
            #[trigger] earlier[i].embedding,
        ) < threshold by {
            assert(earlier[i] == probes[i]);
        }
        lemma_best_below(reference, earlier, threshold);
    }
}

/// Scores how similar two embeddings are.
pub fn compare_faces(stored_face: &[u8], current_face: &[u8]) -> (score: u32)
    ensures
        score == similarity(stored_face@, current_face@),
        score <= SCORE_ONE,
{
    let n = stored_face.len();
    if n != current_face.len() {
        return 0;
    }
    if n == 0 {
        return 0;
    }
    let mut total: u128 = 0;
    let mut i: usize = 0;
    while i < n
        invariant
            i <= n,
            n == stored_face@.len(),
            n == current_face@.len(),
            total == distance(stored_face@.take(i as int), current_face@.take(i as int)),
            total <= 255 * i,
        decreases n - i,
    {
        let x = stored_face[i];
        let y = current_face[i];
        let gap: u8 = if x >= y {
            x - y
        } else {
            y - x
        };
        proof {
            assert(stored_face@.take(i + 1).drop_last() =~= stored_face@.take(i as int));
            assert(current_face@.take(i + 1).drop_last() =~= current_face@.take(i as int));
            assert(stored_face@.take(i + 1).last() == x);
            assert(current_face@.take(i + 1).last() == y);
        }
        total = total + gap as u128;
        i += 1;
    }
    proof {
        assert(stored_face@.take(n as int) =~= stored_face@);
        assert(current_face@.take(n as int) =~= current_face@);
        let d = total as int;
        let m = n as int;
        assert(0 <= (1000 * d) / (255 * m) <= 1000) by (nonlinear_arith)
            requires
                m > 0,
                0 <= d <= 255 * m,
        ;
    }
    let lost: u128 = (1000 * total) / (255 * (n as u128));
    SCORE_ONE - (lost as u32)
}

/// Scores a stored embedding against every probe and keeps the best score.
pub fn best_match(reference: &[u8], probes: &Vec<FaceSample>) -> (score: u32)
    ensures
        score == best_similarity(reference@, sample_views(probes@)),
        score <= SCORE_ONE,
{
    let mut best: u32 = 0;
    let mut i: usize = 0;
    while i < probes.len()
        invariant
            i <= probes.len(),
            best == best_similarity(reference@, sample_views(probes@).take(i as int)),
            best <= SCORE_ONE,
        decreases probes.len() - i,
    {
        proof {
            let views = sample_views(probes@);
            assert(views.take(i + 1).drop_last() =~= views.take(i as int));
            assert(views.take(i + 1).last() == probes@[i as int]@);
        }
        let score = compare_faces(reference, probes[i].embedding.as_slice());
        if score > best {
            best = score;
        }
        i += 1;
    }
    proof {
        let views = sample_views(probes@);
        assert(views.take(probes@.len() as int) =~= views);
    }
    best
}

} // verus!
