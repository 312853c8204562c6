//! Scoring: a player's score is the number of positions at which the
//! submitted answer equals the correct one.

use vstd::prelude::*;

verus! {

/// 1 where answer `i` exists, question `i` exists, and the two agree; else 0.
pub open spec fn point(key: Seq<u8>, answers: Seq<u8>, i: int) -> nat {
    if 0 <= i < key.len() && i < answers.len() && answers[i] == key[i] {
        1
    } else {
        0
    }
}

/// The points of the first `n` positions.
pub open spec fn points_upto(key: Seq<u8>, answers: Seq<u8>, n: nat) -> nat
    decreases n,
{
    if n == 0 {
        0
    } else {
        points_upto(key, answers, (n - 1) as nat) + point(key, answers, n - 1)
    }
}

/// The score that `answers` earn against the answer key `key`.
pub open spec fn score_of(key: Seq<u8>, answers: Seq<u8>) -> nat {
    points_upto(key, answers, answers.len())
}

/// The points of the first `n` positions are at most `n`, and at most the
/// number of questions.
pub proof fn lemma_points_bounded(key: Seq<u8>, answers: Seq<u8>, n: nat)
    ensures
        points_upto(key, answers, n) <= n,
        points_upto(key, answers, n) <= key.len(),
    decreases n,
{
    if n > 0 {
        lemma_points_bounded(key, answers, (n - 1) as nat);
        if n > key.len() {
            lemma_points_past_key(key, answers, n);
        }
    }
}

/// Positions past the last question earn nothing.
pub proof fn lemma_points_past_key(key: Seq<u8>, answers: Seq<u8>, n: nat)
    requires
        n >= key.len(),
    ensures
        points_upto(key, answers, n) == points_upto(key, answers, key.len()),
    decreases n,
{
    if n > key.len() {
        lemma_points_past_key(key, answers, (n - 1) as nat);
    }
}

/// The points of the first `n` positions depend on those positions alone.
pub proof fn lemma_points_local(
    key1: Seq<u8>,
    answers1: Seq<u8>,
    key2: Seq<u8>,
    answers2: Seq<u8>,
    n: nat,
)
    requires
        forall|i: int| 0 <= i < n ==> point(key1, answers1, i) == point(key2, answers2, i),
    ensures
        points_upto(key1, answers1, n) == points_upto(key2, answers2, n),
    decreases n,
{
    if n > 0 {
        lemma_points_local(key1, answers1, key2, answers2, (n - 1) as nat);
    }
}

/// Counts the answers that agree with the answer key, position by position.
/// A session has at most 255 questions, so the count fits a byte.
pub fn compute_score(key: &[u8], answers: &[u8]) -> (score: u8)
    requires
        key@.len() <= u8::MAX,
    ensures
        score == score_of(key@, answers@),
        score <= key@.len(),
        score <= answers@.len(),
{
    let mut score: u8 = 0;
    let mut i: usize = 0;
    while i < answers.len()
        invariant
            i <= answers@.len(),
            key@.len() <= u8::MAX,
            score == points_upto(key@, answers@, i as nat),
        decreases answers@.len() - i,
    {
        proof {
            lemma_points_bounded(key@, answers@, i as nat);
            lemma_points_bounded(key@, answers@, (i + 1) as nat);
        }
        if i < key.len() && answers[i] == key[i] {
            score += 1;
        }
        i += 1;
    }
    proof {
        lemma_points_bounded(key@, answers@, answers@.len());
    }
    score
}

} // verus!
