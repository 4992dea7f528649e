use vstd::prelude::*;
use crate::token::{Token, TokenModel, tokens_view};
use crate::score::{SCALE, MAX_TOKENS};

verus! {

/// Length of a longest common subsequence of two token sequences.
pub open spec fn lcs_len(a: Seq<TokenModel>, b: Seq<TokenModel>) -> nat
    decreases a.len() + b.len(),
{
    if a.len() == 0 || b.len() == 0 {
        0
    } else if a.last() == b.last() {
        lcs_len(a.drop_last(), b.drop_last()) + 1
    } else {
        let x = lcs_len(a.drop_last(), b);
        let y = lcs_len(a, b.drop_last());
        if x >= y { x } else { y }
    }
}

/// The LCS ratio in millionths: the LCS length over the mean of the two
/// lengths; two empty sequences are identical and score the full scale.
pub open spec fn lcs_score(a: Seq<TokenModel>, b: Seq<TokenModel>) -> nat {
    if a.len() + b.len() == 0 {
        SCALE as nat
    } else {
        (2 * (SCALE as nat) * lcs_len(a, b)) / (a.len() + b.len())
    }
}

/// A common subsequence is no longer than either sequence.
pub proof fn lemma_lcs_bounded(a: Seq<TokenModel>, b: Seq<TokenModel>)
    ensures
        lcs_len(a, b) <= a.len(),
        lcs_len(a, b) <= b.len(),
    decreases a.len() + b.len(),
{
    if a.len() > 0 && b.len() > 0 {
        lemma_lcs_bounded(a.drop_last(), b.drop_last());
        lemma_lcs_bounded(a.drop_last(), b);
        lemma_lcs_bounded(a, b.drop_last());
    }
}

/// The LCS length does not depend on the order of the arguments.
pub proof fn lemma_lcs_symmetric(a: Seq<TokenModel>, b: Seq<TokenModel>)
    ensures
        lcs_len(a, b) == lcs_len(b, a),
    decreases a.len() + b.len(),
{
    if a.len() > 0 && b.len() > 0 {
        lemma_lcs_symmetric(a.drop_last(), b.drop_last());
        lemma_lcs_symmetric(a.drop_last(), b);
        lemma_lcs_symmetric(a, b.drop_last());
    }
}

/// A sequence is its own longest common subsequence.
pub proof fn lemma_lcs_self(a: Seq<TokenModel>)
    ensures
        lcs_len(a, a) == a.len(),
    decreases a.len(),
{
    if a.len() > 0 {
        lemma_lcs_self(a.drop_last());
    }
}

/// The LCS ratio lies between zero and the full scale.
pub proof fn lemma_lcs_score_bounded(a: Seq<TokenModel>, b: Seq<TokenModel>)
    ensures
        0 <= lcs_score(a, b) <= SCALE,
{
    if a.len() + b.len() > 0 {
        lemma_lcs_bounded(a, b);
        let s = SCALE as nat;
        let l = lcs_len(a, b);
        let d = a.len() + b.len();
        assert(2 * s * l <= s * d) by (nonlinear_arith)
            requires 2 * l <= d;
        assert((2 * s * l) / d <= s) by (nonlinear_arith)
            requires 2 * s * l <= s * d, d > 0;
    }
}

proof fn lemma_take_step(a: Seq<TokenModel>, i: int)
    requires
        0 < i <= a.len(),
    ensures
        a.take(i).drop_last() == a.take(i - 1),
        a.take(i).last() == a[i - 1],
        a.take(i).len() == i,
{
    assert(a.take(i).drop_last() =~= a.take(i - 1));
}

/// The LCS ratio of two token sequences, in millionths.
pub fn lcs_similarity(a: &Vec<Token>, b: &Vec<Token>) -> (r: u64)
    requires
        a.len() <= MAX_TOKENS,
        b.len() <= MAX_TOKENS,
    ensures
        r == lcs_score(tokens_view(a@), tokens_view(b@)),
        r <= SCALE,
{
    let ghost av = tokens_view(a@);
    let ghost bv = tokens_view(b@);
    let m = a.len();
    let n = b.len();
    let mut prev: Vec<u64> = Vec::new();
    let mut j: usize = 0;
    while j <= n
        invariant
            j <= n + 1,
            n == b.len(),
            n <= MAX_TOKENS,
            prev.len() == j,
            forall|k: int| 0 <= k < j ==> prev[k] == 0,
        decreases n + 1 - j,
    {
        prev.push(0);
        j = j + 1;
    }
    proof {
        assert forall|k: int| 0 <= k <= n implies prev[k] == lcs_len(av.take(0), bv.take(k)) by {
            assert(av.take(0).len() == 0);
        }
    }
    let mut i: usize = 1;
    while i <= m
        invariant
            1 <= i <= m + 1,
            m == a.len(),
            n == b.len(),
            m <= MAX_TOKENS,
            n <= MAX_TOKENS,
            av == tokens_view(a@),
            bv == tokens_view(b@),
            prev.len() == n + 1,
            forall|k: int| 0 <= k <= n ==> prev[k] == lcs_len(av.take(i - 1), bv.take(k)),
        decreases m + 1 - i,
    {
        let mut cur: Vec<u64> = Vec::new();
        cur.push(0);
        proof {
            assert(bv.take(0).len() == 0);
        }
        let mut j: usize = 1;
        while j <= n
            invariant
                1 <= i <= m,
                1 <= j <= n + 1,
                m == a.len(),
                n == b.len(),
                m <= MAX_TOKENS,
                n <= MAX_TOKENS,
                av == tokens_view(a@),
                bv == tokens_view(b@),
                prev.len() == n + 1,
                cur.len() == j,
                forall|k: int| 0 <= k <= n ==> prev[k] == lcs_len(av.take(i - 1), bv.take(k)),
                forall|k: int| 0 <= k < j ==> cur[k] == lcs_len(av.take(i as int), bv.take(k)),
            decreases n + 1 - j,
        {
            proof {
                lemma_take_step(av, i as int);
                lemma_take_step(bv, j as int);
                lemma_lcs_bounded(av.take(i - 1), bv.take(j - 1));
                lemma_lcs_bounded(av.take(i - 1), bv.take(j as int));
                lemma_lcs_bounded(av.take(i as int), bv.take(j - 1));
            }
            let v = if a[i - 1].same(&b[j - 1]) {
                prev[j - 1] + 1
            } else {
                let x = prev[j];
                let y = cur[j - 1];
                if x >= y { x } else { y }
            };
            cur.push(v);
            j = j + 1;
        }
        prev = cur;
        i = i + 1;
    }
    proof {
        assert(av.take(m as int) =~= av);
        assert(bv.take(n as int) =~= bv);
        lemma_lcs_bounded(av, bv);
        lemma_lcs_score_bounded(av, bv);
    }
    let l = prev[n];
    if m + n == 0 {
        SCALE
    } else {
        let d = (m + n) as u64;
        assert(2 * SCALE * l <= 2 * SCALE * MAX_TOKENS) by (nonlinear_arith)
            requires l <= MAX_TOKENS;
        (2 * SCALE * l) / d
    }
}

} // verus!
