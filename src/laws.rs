use vstd::prelude::*;
use crate::token::TokenModel;
use crate::score::SCALE;
use crate::jaccard::jaccard_score;
use crate::lcs::{lcs_score, lcs_len, lemma_lcs_score_bounded};
use crate::cosine::{cosine_score, cross_weight, row_weight, largest_fit};
use crate::edit::{edit_token_score, label_text, lemma_edit_score_bounded};
use crate::similarity::{combined_score, lemma_combined_self, lemma_combined_symmetric};
use crate::analysis::analyzed_score;
use crate::tree::tokens_of;
use crate::corpus::{CorpusEntry, SourceFile, flagged_pairs, pair_row, pair_events, entries_for, entry_of};
use crate::similarity::table_view;
use crate::token::tokens_view;

verus! {

/// Identity: a non-empty token sequence has combined similarity exactly one
/// (the full scale) with itself.
pub proof fn law_combined_identity(a: Seq<TokenModel>)
    requires
        a.len() > 0,
    ensures
        combined_score(a, a) == SCALE,
{
    lemma_combined_self(a);
}

/// Symmetry: the combined similarity of `a` and `b` equals that of `b` and `a`.
pub proof fn law_combined_symmetric(a: Seq<TokenModel>, b: Seq<TokenModel>)
    ensures
        combined_score(a, b) == combined_score(b, a),
{
    lemma_combined_symmetric(a, b);
}

/// The Jaccard index of two empty sequences is exactly one.
pub proof fn law_jaccard_empty()
    ensures
        jaccard_score(Seq::empty(), Seq::empty()) == SCALE,
{
}

/// The LCS ratio lies between zero and one.
pub proof fn law_lcs_bounded(a: Seq<TokenModel>, b: Seq<TokenModel>)
    ensures
        0 <= lcs_score(a, b) <= SCALE,
{
    lemma_lcs_score_bounded(a, b);
}

/// The weighted cosine is exactly zero when either sequence is empty.
pub proof fn law_cosine_empty(a: Seq<TokenModel>, b: Seq<TokenModel>)
    requires
        a.len() == 0 || b.len() == 0,
    ensures
        cosine_score(a, b) == 0,
{
    if a.len() == 0 {
        assert(cross_weight(a, a) == 0);
    } else {
        assert(cross_weight(b, b) == 0);
    }
}

/// Name insensitivity: two files whose syntax trees yield the same non-empty
/// token sequence (identifiers of any name all become one category) have
/// combined similarity exactly one.
pub proof fn law_same_structure_scores_one(a: Seq<crate::tree::NodeModel>, b: Seq<crate::tree::NodeModel>)
    requires
        tokens_of(a) == tokens_of(b),
        tokens_of(a).len() > 0,
    ensures
        combined_score(tokens_of(a), tokens_of(b)) == SCALE,
{
    lemma_combined_self(tokens_of(a));
}

/// No category of `a` occurs in `b`.
pub open spec fn disjoint_categories(a: Seq<TokenModel>, b: Seq<TokenModel>) -> bool {
    forall|i: int, j: int| 0 <= i < a.len() && 0 <= j < b.len() ==> a[i] != b[j]
}

proof fn lemma_lcs_disjoint(a: Seq<TokenModel>, b: Seq<TokenModel>)
    requires
        disjoint_categories(a, b),
    ensures
        lcs_len(a, b) == 0,
    decreases a.len() + b.len(),
{
    if a.len() > 0 && b.len() > 0 {
        assert(disjoint_categories(a.drop_last(), b));
        assert(disjoint_categories(a, b.drop_last()));
        assert(a.last() != b.last());
        lemma_lcs_disjoint(a.drop_last(), b);
        lemma_lcs_disjoint(a, b.drop_last());
    }
}

proof fn lemma_row_disjoint(x: TokenModel, b: Seq<TokenModel>)
    requires
        forall|j: int| 0 <= j < b.len() ==> x != b[j],
    ensures
        row_weight(x, b) == 0,
    decreases b.len(),
{
    if b.len() > 0 {
        lemma_row_disjoint(x, b.drop_last());
    }
}

proof fn lemma_cross_disjoint(a: Seq<TokenModel>, b: Seq<TokenModel>)
    requires
        disjoint_categories(a, b),
    ensures
        cross_weight(a, b) == 0,
    decreases a.len(),
{
    if a.len() > 0 {
        assert(disjoint_categories(a.drop_last(), b));
        assert forall|j: int| 0 <= j < b.len() implies a.last() != b[j] by {
            assert(a[a.len() - 1] != b[j]);
        }
        lemma_cross_disjoint(a.drop_last(), b);
        lemma_row_disjoint(a.last(), b);
    }
}

proof fn lemma_largest_fit_zero(r: nat, nn: nat)
    requires
        nn > 0,
    ensures
        largest_fit(r, 0, nn) == 0,
    decreases r,
{
    if r > 0 {
        assert(r * r * nn > 0) by (nonlinear_arith)
            requires r > 0, nn > 0;
        let s = SCALE as nat;
        assert(s * 0 == 0) by (nonlinear_arith);
        assert((s * 0) * (s * 0) == 0) by (nonlinear_arith);
        lemma_largest_fit_zero((r - 1) as nat, nn);
    }
}

/// Unrelated sequences: where no category of one occurs in the other, the
/// Jaccard index, the LCS ratio and the weighted cosine are all zero, and
/// only the edit similarity of the label texts counts, so the combined score
/// is at most 0.4. (Two `Other` tokens of different operators are different
/// categories with the same label, so the bound 0.4 is reached.)
pub proof fn law_disjoint_categories(a: Seq<TokenModel>, b: Seq<TokenModel>)
    requires
        disjoint_categories(a, b),
        a.len() + b.len() > 0,
    ensures
        jaccard_score(a, b) == 0,
        lcs_score(a, b) == 0,
        cosine_score(a, b) == 0,
        combined_score(a, b) == (4 * edit_token_score(a, b)) / 10,
        combined_score(a, b) <= 4 * SCALE / 10,
{
    lemma_lcs_disjoint(a, b);
    lemma_cross_disjoint(a, b);
    let n1 = cross_weight(a, a);
    let n2 = cross_weight(b, b);
    if n1 != 0 && n2 != 0 {
        assert(n1 * n2 > 0) by (nonlinear_arith)
            requires n1 > 0, n2 > 0;
        lemma_largest_fit_zero(SCALE as nat, n1 * n2);
    }
    let sa = a.to_set();
    let sb = b.to_set();
    assert forall|x: TokenModel| !sa.intersect(sb).contains(x) by {
        if sa.contains(x) && sb.contains(x) {
            let i = choose|i: int| 0 <= i < a.len() && a[i] == x;
            let j = choose|j: int| 0 <= j < b.len() && b[j] == x;
            assert(a[i] != b[j]);
        }
    }
    assert(sa.intersect(sb) =~= Set::<TokenModel>::empty());
    vstd::seq_lib::seq_to_set_is_finite(a);
    vstd::seq_lib::seq_to_set_is_finite(b);
    let x = if a.len() > 0 { a[0] } else { b[0] };
    assert(sa.union(sb).contains(x));
    vstd::set_lib::lemma_len_subset(Set::<TokenModel>::empty().insert(x), sa.union(sb));
    let u = sa.union(sb).len();
    assert(u > 0);
    assert(((SCALE as nat) * 0) / u == 0) by (nonlinear_arith)
        requires u > 0;
    lemma_edit_score_bounded(label_text(a), label_text(b));
}

/// Two corpora whose entries have the same analyses, position by position.
pub open spec fn same_analyses(e1: Seq<CorpusEntry>, e2: Seq<CorpusEntry>) -> bool {
    &&& e1.len() == e2.len()
    &&& forall|i: int| #![trigger e1[i]] 0 <= i < e1.len() ==> {
        &&& tokens_view(e1[i].analysis.file_tokens@) == tokens_view(e2[i].analysis.file_tokens@)
        &&& table_view(e1[i].analysis.functions@) == table_view(e2[i].analysis.functions@)
    }
}

proof fn lemma_pair_row_stable(e1: Seq<CorpusEntry>, e2: Seq<CorpusEntry>, threshold: nat, i: int, end: int)
    requires
        same_analyses(e1, e2),
        0 <= i,
        end <= e1.len(),
    ensures
        pair_row(e1, threshold, i, end) == pair_row(e2, threshold, i, end),
    decreases end - i,
{
    if end > i + 1 {
        lemma_pair_row_stable(e1, e2, threshold, i, end - 1);
        assert(e1[i] == e1[i]);
        assert(e1[end - 1] == e1[end - 1]);
        assert(analyzed_score(e1[i].analysis, e1[end - 1].analysis) == analyzed_score(e2[i].analysis, e2[end - 1].analysis));
    }
}

/// Re-running the comparison on an unchanged set of analysed files flags the
/// same pairs, with the same scores, in the same order.
pub proof fn law_rescan_flags_same_pairs(e1: Seq<CorpusEntry>, e2: Seq<CorpusEntry>, threshold: nat, upto: int)
    requires
        same_analyses(e1, e2),
        upto <= e1.len(),
    ensures
        flagged_pairs(e1, threshold, upto) == flagged_pairs(e2, threshold, upto),
    decreases if upto <= 0 { 0 } else { upto as nat },
{
    if upto > 0 {
        law_rescan_flags_same_pairs(e1, e2, threshold, upto - 1);
        lemma_pair_row_stable(e1, e2, threshold, upto - 1, e1.len() as int);
    }
}

proof fn lemma_pair_row_in_range(es: Seq<CorpusEntry>, threshold: nat, i: int, end: int)
    requires
        0 <= i,
        end <= es.len(),
    ensures
        forall|k: int| 0 <= k < pair_row(es, threshold, i, end).len() ==> {
            let p = #[trigger] pair_row(es, threshold, i, end)[k];
            0 <= p.0 < p.1 < es.len()
        },
    decreases end - i,
{
    if end > i + 1 {
        lemma_pair_row_in_range(es, threshold, i, end - 1);
        let r = pair_row(es, threshold, i, end - 1);
        let whole = pair_row(es, threshold, i, end);
        assert forall|k: int| 0 <= k < whole.len() implies {
            let p = #[trigger] whole[k];
            0 <= p.0 < p.1 < es.len()
        } by {
            if k < r.len() {
                assert(whole[k] == r[k]);
            }
        }
    }
}

proof fn lemma_flagged_in_range(es: Seq<CorpusEntry>, threshold: nat, upto: int)
    requires
        upto <= es.len(),
    ensures
        forall|k: int| 0 <= k < flagged_pairs(es, threshold, upto).len() ==> {
            let p = #[trigger] flagged_pairs(es, threshold, upto)[k];
            0 <= p.0 < p.1 < es.len()
        },
    decreases if upto <= 0 { 0 } else { upto as nat },
{
    if upto > 0 {
        lemma_flagged_in_range(es, threshold, upto - 1);
        lemma_pair_row_in_range(es, threshold, upto - 1, es.len() as int);
        let a = flagged_pairs(es, threshold, upto - 1);
        let b = pair_row(es, threshold, upto - 1, es.len() as int);
        assert forall|k: int| 0 <= k < (a + b).len() implies {
            let p = #[trigger] (a + b)[k];
            0 <= p.0 < p.1 < es.len()
        } by {
            if k < a.len() {
                assert((a + b)[k] == a[k]);
            } else {
                assert((a + b)[k] == b[k - a.len()]);
            }
        }
    }
}

proof fn lemma_pair_events_same(e1: Seq<CorpusEntry>, e2: Seq<CorpusEntry>, pairs: Seq<(int, int, nat)>)
    requires
        e1.len() == e2.len(),
        forall|i: int| 0 <= i < e1.len() ==> (#[trigger] e1[i]).owner@ == e2[i].owner@ && e1[i].name@ == e2[i].name@,
        forall|k: int| 0 <= k < pairs.len() ==> {
            let p = #[trigger] pairs[k];
            0 <= p.0 < p.1 < e1.len()
        },
    ensures
        pair_events(e1, pairs) == pair_events(e2, pairs),
    decreases pairs.len(),
{
    if pairs.len() > 0 {
        let p = pairs[pairs.len() - 1];
        assert(e1[p.0].owner@ == e2[p.0].owner@);
        assert(e1[p.1].owner@ == e2[p.1].owner@);
        assert forall|k: int| 0 <= k < pairs.drop_last().len() implies {
            let q = #[trigger] pairs.drop_last()[k];
            0 <= q.0 < q.1 < e1.len()
        } by {
            assert(pairs.drop_last()[k] == pairs[k]);
        }
        lemma_pair_events_same(e1, e2, pairs.drop_last());
    }
}

/// Idempotence: two scans of an unchanged set of files keep entries that
/// agree in owner, name and analysis, so they flag the same pairs, with the
/// same scores, and append the same flags.
pub proof fn law_rescan_same_flags(
    files: Seq<SourceFile>,
    positions: Seq<int>,
    e1: Seq<CorpusEntry>,
    e2: Seq<CorpusEntry>,
    threshold: nat,
)
    requires
        entries_for(files, positions, e1),
        entries_for(files, positions, e2),
    ensures
        flagged_pairs(e1, threshold, e1.len() as int) == flagged_pairs(e2, threshold, e2.len() as int),
        pair_events(e1, flagged_pairs(e1, threshold, e1.len() as int)) == pair_events(
            e2,
            flagged_pairs(e2, threshold, e2.len() as int),
        ),
{
    assert forall|i: int| 0 <= i < e1.len() implies {
        &&& (#[trigger] e1[i]).owner@ == e2[i].owner@
        &&& e1[i].name@ == e2[i].name@
        &&& tokens_view(e1[i].analysis.file_tokens@) == tokens_view(e2[i].analysis.file_tokens@)
        &&& table_view(e1[i].analysis.functions@) == table_view(e2[i].analysis.functions@)
    } by {
        assert(entry_of(files, positions[i], e1[i]));
        assert(entry_of(files, positions[i], e2[i]));
    }
    assert(same_analyses(e1, e2));
    law_rescan_flags_same_pairs(e1, e2, threshold, e1.len() as int);
    lemma_flagged_in_range(e1, threshold, e1.len() as int);
    lemma_pair_events_same(e1, e2, flagged_pairs(e1, threshold, e1.len() as int));
}

} // verus!
