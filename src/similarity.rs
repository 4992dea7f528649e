use vstd::prelude::*;
use crate::token::{Token, TokenModel, tokens_view};
use crate::score::{SCALE, MAX_TOKENS};
use crate::edit::{edit_similarity, edit_token_score, label_text, lemma_edit_distance_symmetric, lemma_edit_distance_self, lemma_edit_score_bounded};
use crate::jaccard::{jaccard_similarity, jaccard_score};
use crate::lcs::{lcs_similarity, lcs_score, lemma_lcs_symmetric, lemma_lcs_self, lemma_lcs_score_bounded};
use crate::cosine::{weighted_cosine, cosine_score, lemma_cosine_symmetric, lemma_cosine_self, lemma_cosine_bounded};

verus! {

/// The combined similarity in millionths: 0.4 edit + 0.2 Jaccard + 0.2 LCS
/// + 0.2 weighted cosine, rounded down.
pub open spec fn combined_score(a: Seq<TokenModel>, b: Seq<TokenModel>) -> nat {
    (4 * edit_token_score(a, b) + 2 * jaccard_score(a, b) + 2 * lcs_score(a, b) + 2 * cosine_score(a, b)) / 10
}

/// The functions of a file: each name with the tokens of its definition.
pub open spec fn table_view(t: Seq<(String, Vec<Token>)>) -> Seq<(Seq<char>, Seq<TokenModel>)> {
    t.map_values(|p: (String, Vec<Token>)| (p.0@, tokens_view(p.1@)))
}

/// Every function of the table is short enough for the metrics.
pub open spec fn table_fits(t: Seq<(String, Vec<Token>)>) -> bool {
    forall|i: int| 0 <= i < t.len() ==> (#[trigger] t[i]).1.len() <= MAX_TOKENS
}

/// The best combined score of `x` against the functions of `fb`.
pub open spec fn best_against(x: Seq<TokenModel>, fb: Seq<(Seq<char>, Seq<TokenModel>)>) -> nat
    decreases fb.len(),
{
    if fb.len() == 0 {
        0
    } else {
        let p = best_against(x, fb.drop_last());
        let q = combined_score(x, fb.last().1);
        if p >= q { p } else { q }
    }
}

/// The best combined score over all pairs of a function of `fa` and one of `fb`.
pub open spec fn best_pair(fa: Seq<(Seq<char>, Seq<TokenModel>)>, fb: Seq<(Seq<char>, Seq<TokenModel>)>) -> nat
    decreases fa.len(),
{
    if fa.len() == 0 {
        0
    } else {
        let p = best_pair(fa.drop_last(), fb);
        let q = best_against(fa.last().1, fb);
        if p >= q { p } else { q }
    }
}

/// Per-function similarity: zero when either file has no function, otherwise
/// the best combined score over all pairs of functions.
pub open spec fn function_score(fa: Seq<(Seq<char>, Seq<TokenModel>)>, fb: Seq<(Seq<char>, Seq<TokenModel>)>) -> nat {
    if fa.len() == 0 || fb.len() == 0 {
        0
    } else {
        best_pair(fa, fb)
    }
}

/// The combined similarity lies within the scale.
pub proof fn lemma_combined_bounded(a: Seq<TokenModel>, b: Seq<TokenModel>)
    ensures
        combined_score(a, b) <= SCALE,
{
    lemma_edit_score_bounded(label_text(a), label_text(b));
    lemma_lcs_score_bounded(a, b);
    lemma_cosine_bounded(a, b);
    lemma_jaccard_bounded(a, b);
}

proof fn lemma_jaccard_bounded(a: Seq<TokenModel>, b: Seq<TokenModel>)
    ensures
        jaccard_score(a, b) <= SCALE,
{
    if !(a.len() == 0 && b.len() == 0) {
        let sa = a.to_set();
        let sb = b.to_set();
        vstd::seq_lib::seq_to_set_is_finite(a);
        vstd::seq_lib::seq_to_set_is_finite(b);
        vstd::set_lib::lemma_len_subset(sa.intersect(sb), sa.union(sb));
        let u = sa.union(sb).len();
        let i = sa.intersect(sb).len();
        if a.len() > 0 {
            assert(sa.union(sb).contains(a[0]));
        } else {
            assert(sa.union(sb).contains(b[0]));
        }
        let s = SCALE as nat;
        if u > 0 {
            assert(s * i <= s * u) by (nonlinear_arith)
                requires i <= u;
            assert((s * i) / u <= s) by (nonlinear_arith)
                requires s * i <= s * u, u > 0;
        }
    }
}

/// Every metric, and so the combined similarity, is symmetric.
pub proof fn lemma_combined_symmetric(a: Seq<TokenModel>, b: Seq<TokenModel>)
    ensures
        combined_score(a, b) == combined_score(b, a),
{
    lemma_edit_distance_symmetric(label_text(a), label_text(b));
    lemma_lcs_symmetric(a, b);
    lemma_cosine_symmetric(a, b);
    let sa = a.to_set();
    let sb = b.to_set();
    assert(sa.intersect(sb) =~= sb.intersect(sa));
    assert(sa.union(sb) =~= sb.union(sa));
}

/// A non-empty token sequence has combined similarity one with itself.
pub proof fn lemma_combined_self(a: Seq<TokenModel>)
    requires
        a.len() > 0,
    ensures
        combined_score(a, a) == SCALE,
{
    let s = SCALE as nat;
    let t = label_text(a);
    lemma_edit_distance_self(t);
    if t.len() > 0 {
        let m = t.len();
        assert((s * m) / m == s) by (nonlinear_arith)
            requires m > 0;
    }
    lemma_lcs_self(a);
    let n = a.len();
    assert((2 * s * n) / (n + n) == s) by (nonlinear_arith)
        requires n > 0;
    lemma_cosine_self(a);
    let sa = a.to_set();
    assert(sa.intersect(sa) =~= sa);
    assert(sa.union(sa) =~= sa);
    vstd::seq_lib::seq_to_set_is_finite(a);
    assert(sa.contains(a[0]));
    let k = sa.len();
    assert(k > 0);
    assert((s * k) / k == s) by (nonlinear_arith)
        requires k > 0;
}

/// Combined similarity of two token sequences, in millionths.
pub fn combined_similarity(a: &Vec<Token>, b: &Vec<Token>) -> (r: u64)
    requires
        a.len() <= MAX_TOKENS,
        b.len() <= MAX_TOKENS,
    ensures
        r == combined_score(tokens_view(a@), tokens_view(b@)),
        r <= SCALE,
{
    let sm = edit_similarity(a, b);
    let jacc = jaccard_similarity(a, b);
    let lcs = lcs_similarity(a, b);
    let cos = weighted_cosine(a, b);
    (4 * sm + 2 * jacc + 2 * lcs + 2 * cos) / 10
}

proof fn lemma_best_against_upper(x: Seq<TokenModel>, fb: Seq<(Seq<char>, Seq<TokenModel>)>, j: int)
    requires
        0 <= j < fb.len(),
    ensures
        combined_score(x, fb[j].1) <= best_against(x, fb),
    decreases fb.len(),
{
    if j < fb.len() - 1 {
        lemma_best_against_upper(x, fb.drop_last(), j);
    }
}

proof fn lemma_best_against_attained(x: Seq<TokenModel>, fb: Seq<(Seq<char>, Seq<TokenModel>)>) -> (j: int)
    requires
        fb.len() > 0,
    ensures
        0 <= j < fb.len(),
        best_against(x, fb) == combined_score(x, fb[j].1),
    decreases fb.len(),
{
    if fb.len() == 1 {
        assert(fb.drop_last().len() == 0);
        assert(best_against(x, fb.drop_last()) == 0);
        assert(fb.last() == fb[0]);
        0
    } else {
        let k = lemma_best_against_attained(x, fb.drop_last());
        assert(fb.drop_last()[k] == fb[k]);
        assert(fb.last() == fb[fb.len() - 1]);
        if best_against(x, fb.drop_last()) >= combined_score(x, fb.last().1) {
            k
        } else {
            fb.len() - 1
        }
    }
}

proof fn lemma_best_pair_upper(
    fa: Seq<(Seq<char>, Seq<TokenModel>)>,
    fb: Seq<(Seq<char>, Seq<TokenModel>)>,
    i: int,
    j: int,
)
    requires
        0 <= i < fa.len(),
        0 <= j < fb.len(),
    ensures
        combined_score(fa[i].1, fb[j].1) <= best_pair(fa, fb),
    decreases fa.len(),
{
    if i < fa.len() - 1 {
        lemma_best_pair_upper(fa.drop_last(), fb, i, j);
    } else {
        lemma_best_against_upper(fa[i].1, fb, j);
    }
}

proof fn lemma_best_pair_attained(
    fa: Seq<(Seq<char>, Seq<TokenModel>)>,
    fb: Seq<(Seq<char>, Seq<TokenModel>)>,
) -> (ij: (int, int))
    requires
        fa.len() > 0,
        fb.len() > 0,
    ensures
        0 <= ij.0 < fa.len(),
        0 <= ij.1 < fb.len(),
        best_pair(fa, fb) == combined_score(fa[ij.0].1, fb[ij.1].1),
    decreases fa.len(),
{
    let j = lemma_best_against_attained(fa.last().1, fb);
    assert(fa.last() == fa[fa.len() - 1]);
    if fa.len() == 1 {
        assert(fa.drop_last().len() == 0);
        assert(best_pair(fa.drop_last(), fb) == 0);
        (0, j)
    } else {
        let k = lemma_best_pair_attained(fa.drop_last(), fb);
        assert(fa.drop_last()[k.0] == fa[k.0]);
        if best_pair(fa.drop_last(), fb) >= best_against(fa.last().1, fb) {
            k
        } else {
            (fa.len() - 1, j)
        }
    }
}

/// Per-function similarity does not depend on which file comes first.
pub proof fn lemma_function_score_symmetric(
    fa: Seq<(Seq<char>, Seq<TokenModel>)>,
    fb: Seq<(Seq<char>, Seq<TokenModel>)>,
)
    ensures
        function_score(fa, fb) == function_score(fb, fa),
{
    if fa.len() > 0 && fb.len() > 0 {
        let (i, j) = lemma_best_pair_attained(fa, fb);
        let (k, l) = lemma_best_pair_attained(fb, fa);
        lemma_combined_symmetric(fa[i].1, fb[j].1);
        lemma_combined_symmetric(fb[k].1, fa[l].1);
        lemma_best_pair_upper(fb, fa, j, i);
        lemma_best_pair_upper(fa, fb, l, k);
    }
}

/// The best combined score over all pairs of functions of two files, in
/// millionths; zero when either file has no function.
pub fn per_function_similarity(fa: &Vec<(String, Vec<Token>)>, fb: &Vec<(String, Vec<Token>)>) -> (r: u64)
    requires
        table_fits(fa@),
        table_fits(fb@),
    ensures
        r == function_score(table_view(fa@), table_view(fb@)),
        r <= SCALE,
{
    let ghost va = table_view(fa@);
    let ghost vb = table_view(fb@);
    if fa.len() == 0 || fb.len() == 0 {
        return 0;
    }
    let mut best: u64 = 0;
    let mut i: usize = 0;
    while i < fa.len()
        invariant
            i <= fa.len(),
            va == table_view(fa@),
            vb == table_view(fb@),
            table_fits(fa@),
            table_fits(fb@),
            best == best_pair(va.take(i as int), vb),
            best <= SCALE,
        decreases fa.len() - i,
    {
        assert(fa@[i as int].1.len() <= MAX_TOKENS);
        let mut cur: u64 = 0;
        let mut j: usize = 0;
        while j < fb.len()
            invariant
                i < fa.len(),
                j <= fb.len(),
                va == table_view(fa@),
                vb == table_view(fb@),
                table_fits(fb@),
                fa@[i as int].1.len() <= MAX_TOKENS,
                cur == best_against(va[i as int].1, vb.take(j as int)),
                cur <= SCALE,
            decreases fb.len() - j,
        {
            assert(fb@[j as int].1.len() <= MAX_TOKENS);
            let c = combined_similarity(&fa[i].1, &fb[j].1);
            proof {
                assert(vb.take(j + 1).drop_last() =~= vb.take(j as int));
                assert(vb.take(j + 1).last() == vb[j as int]);
            }
            if c > cur {
                cur = c;
            }
            j = j + 1;
        }
        proof {
            assert(vb.take(fb.len() as int) =~= vb);
            assert(va.take(i + 1).drop_last() =~= va.take(i as int));
            assert(va.take(i + 1).last() == va[i as int]);
        }
        if cur > best {
            best = cur;
        }
        i = i + 1;
    }
    proof {
        assert(va.take(fa.len() as int) =~= va);
    }
    best
}

} // verus!
