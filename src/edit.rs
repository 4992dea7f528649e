use vstd::prelude::*;
use crate::token::{Token, TokenModel, tokens_view, label, lemma_label_len};
use crate::score::{SCALE, MAX_TOKENS};

verus! {

/// The least number of single-character insertions, deletions and
/// substitutions that turn `a` into `b`.
pub open spec fn edit_distance(a: Seq<char>, b: Seq<char>) -> nat
    decreases a.len() + b.len(),
{
    if a.len() == 0 {
        b.len()
    } else if b.len() == 0 {
        a.len()
    } else {
        let del = edit_distance(a.drop_last(), b) + 1;
        let ins = edit_distance(a, b.drop_last()) + 1;
        let sub = edit_distance(a.drop_last(), b.drop_last()) + if a.last() == b.last() { 0nat } else { 1nat };
        if del <= ins && del <= sub { del } else if ins <= sub { ins } else { sub }
    }
}

/// The category labels of a token sequence, separated by single spaces.
pub open spec fn label_text(ts: Seq<TokenModel>) -> Seq<char>
    decreases ts.len(),
{
    if ts.len() == 0 {
        Seq::empty()
    } else if ts.len() == 1 {
        label(ts[0])
    } else {
        label_text(ts.drop_last()) + " "@ + label(ts.last())
    }
}

/// The length of the longer text.
pub open spec fn max_len(a: Seq<char>, b: Seq<char>) -> nat {
    if a.len() >= b.len() { a.len() } else { b.len() }
}

/// Normalised edit similarity of two strings in millionths: one minus the edit
/// distance over the longer length; two empty strings score the full scale.
pub open spec fn edit_score(a: Seq<char>, b: Seq<char>) -> nat {
    let m = max_len(a, b);
    if m == 0 {
        SCALE as nat
    } else {
        ((SCALE as nat) * ((m - edit_distance(a, b)) as nat)) / m
    }
}

/// Edit similarity of two token sequences, taken over their label texts.
pub open spec fn edit_token_score(a: Seq<TokenModel>, b: Seq<TokenModel>) -> nat {
    edit_score(label_text(a), label_text(b))
}

/// The edit distance does not depend on the order of the texts.
pub proof fn lemma_edit_distance_symmetric(a: Seq<char>, b: Seq<char>)
    ensures
        edit_distance(a, b) == edit_distance(b, a),
    decreases a.len() + b.len(),
{
    if a.len() > 0 && b.len() > 0 {
        lemma_edit_distance_symmetric(a.drop_last(), b);
        lemma_edit_distance_symmetric(a, b.drop_last());
        lemma_edit_distance_symmetric(a.drop_last(), b.drop_last());
    }
}

/// A text is at distance zero from itself.
pub proof fn lemma_edit_distance_self(a: Seq<char>)
    ensures
        edit_distance(a, a) == 0,
    decreases a.len(),
{
    if a.len() > 0 {
        lemma_edit_distance_self(a.drop_last());
    }
}

/// The edit distance is at most the longer length.
pub proof fn lemma_edit_distance_bounded(a: Seq<char>, b: Seq<char>)
    ensures
        edit_distance(a, b) <= max_len(a, b),
    decreases a.len() + b.len(),
{
    if a.len() > 0 && b.len() > 0 {
        lemma_edit_distance_bounded(a.drop_last(), b.drop_last());
    }
}

/// The edit similarity lies within the scale.
pub proof fn lemma_edit_score_bounded(a: Seq<char>, b: Seq<char>)
    ensures
        edit_score(a, b) <= SCALE,
{
    lemma_edit_distance_bounded(a, b);
    let m = max_len(a, b);
    if m > 0 {
        let k = (m - edit_distance(a, b)) as nat;
        let s = SCALE as nat;
        assert(s * k <= s * m) by (nonlinear_arith)
            requires k <= m;
        assert((s * k) / m <= s) by (nonlinear_arith)
            requires s * k <= s * m, m > 0;
    }
}

/// The label text takes at most eleven characters per token.
pub proof fn lemma_label_text_len(ts: Seq<TokenModel>)
    ensures
        label_text(ts).len() <= 11 * ts.len(),
    decreases ts.len(),
{
    if ts.len() == 1 {
        lemma_label_len(ts[0]);
    } else if ts.len() > 1 {
        lemma_label_text_len(ts.drop_last());
        lemma_label_len(ts.last());
        reveal_strlit(" ");
    }
}

/// Relies on strsim::levenshtein: the least number of single-character
/// insertions, deletions and substitutions that turn one string into the other.
#[verifier::external_body]
fn levenshtein(a: &str, b: &str) -> (r: usize)
    ensures
        r == edit_distance(a@, b@),
{
    strsim::levenshtein(a, b)
}

/// The category labels of `ts`, separated by single spaces.
pub fn render_labels(ts: &Vec<Token>) -> (r: String)
    ensures
        r@ == label_text(tokens_view(ts@)),
{
    let ghost v = tokens_view(ts@);
    let mut s = String::new();
    let mut i: usize = 0;
    while i < ts.len()
        invariant
            i <= ts.len(),
            v == tokens_view(ts@),
            s@ == label_text(v.take(i as int)),
        decreases ts.len() - i,
    {
        proof {
            assert(v.take(i + 1).drop_last() =~= v.take(i as int));
            assert(v.take(i + 1).last() == v[i as int]);
            if i == 0 {
                assert(v.take(0) =~= Seq::<TokenModel>::empty());
            }
        }
        if i > 0 {
            s.append(" ");
        }
        s.append(ts[i].as_str());
        proof {
            reveal_strlit(" ");
        }
        i = i + 1;
    }
    proof {
        assert(v.take(ts.len() as int) =~= v);
    }
    s
}

/// Normalised edit similarity of the label texts of two token sequences, in
/// millionths.
pub fn edit_similarity(a: &Vec<Token>, b: &Vec<Token>) -> (r: u64)
    requires
        a.len() <= MAX_TOKENS,
        b.len() <= MAX_TOKENS,
    ensures
        r == edit_token_score(tokens_view(a@), tokens_view(b@)),
        r <= SCALE,
{
    let sa = render_labels(a);
    let sb = render_labels(b);
    proof {
        lemma_label_text_len(tokens_view(a@));
        lemma_label_text_len(tokens_view(b@));
        lemma_edit_distance_bounded(sa@, sb@);
        lemma_edit_score_bounded(sa@, sb@);
    }
    let la = sa.as_str().unicode_len();
    let lb = sb.as_str().unicode_len();
    let m = if la >= lb { la } else { lb };
    if m == 0 {
        SCALE
    } else {
        let d = levenshtein(sa.as_str(), sb.as_str());
        let k = (m - d) as u64;
        assert(SCALE * k <= SCALE * 11 * MAX_TOKENS) by (nonlinear_arith)
            requires k <= 11 * MAX_TOKENS;
        (SCALE * k) / (m as u64)
    }
}

} // verus!
