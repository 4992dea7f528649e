use vstd::prelude::*;
use crate::token::{Token, TokenModel, tokens_view, weight};
use crate::score::{SCALE, MAX_TOKENS};

verus! {

/// Sum of the squared weight of `x` over the positions of `b` that hold `x`.
pub open spec fn row_weight(x: TokenModel, b: Seq<TokenModel>) -> nat
    decreases b.len(),
{
    if b.len() == 0 {
        0
    } else {
        row_weight(x, b.drop_last()) + if x == b.last() { weight(x) * weight(x) } else { 0 }
    }
}

/// The dot product of the weighted category-frequency vectors of `a` and `b`:
/// the squared weight summed over every pair of equal positions.
pub open spec fn cross_weight(a: Seq<TokenModel>, b: Seq<TokenModel>) -> nat
    decreases a.len(),
{
    if a.len() == 0 {
        0
    } else {
        cross_weight(a.drop_last(), b) + row_weight(a.last(), b)
    }
}

/// `r` millionths is at most `dot / sqrt(nn)`.
pub open spec fn cos_fits(r: nat, dot: nat, nn: nat) -> bool {
    r * r * nn <= ((SCALE as nat) * dot) * ((SCALE as nat) * dot)
}

/// The largest value not above `r` that fits.
pub open spec fn largest_fit(r: nat, dot: nat, nn: nat) -> nat
    decreases r,
{
    if r == 0 || cos_fits(r, dot, nn) {
        r
    } else {
        largest_fit((r - 1) as nat, dot, nn)
    }
}

/// Weighted cosine of two token sequences in millionths, rounded down; zero
/// when either weighted vector is zero.
pub open spec fn cosine_score(a: Seq<TokenModel>, b: Seq<TokenModel>) -> nat {
    let n1 = cross_weight(a, a);
    let n2 = cross_weight(b, b);
    if n1 == 0 || n2 == 0 {
        0
    } else {
        largest_fit(SCALE as nat, cross_weight(a, b), n1 * n2)
    }
}

proof fn lemma_weight_bounds(x: TokenModel)
    ensures
        1 <= weight(x) <= 4,
        1 <= weight(x) * weight(x) <= 16,
{
}

/// Each position contributes at most the largest squared weight, 16.
pub proof fn lemma_row_bounded(x: TokenModel, b: Seq<TokenModel>)
    ensures
        row_weight(x, b) <= 16 * b.len(),
    decreases b.len(),
{
    lemma_weight_bounds(x);
    if b.len() > 0 {
        lemma_row_bounded(x, b.drop_last());
    }
}

/// The weighted dot product is at most 16 per pair of positions.
pub proof fn lemma_cross_bounded(a: Seq<TokenModel>, b: Seq<TokenModel>)
    ensures
        cross_weight(a, b) <= 16 * a.len() * b.len(),
    decreases a.len(),
{
    if a.len() > 0 {
        lemma_cross_bounded(a.drop_last(), b);
        lemma_row_bounded(a.last(), b);
        assert(16 * (a.len() - 1) * b.len() + 16 * b.len() == 16 * a.len() * b.len()) by (nonlinear_arith);
    }
}

proof fn lemma_cross_push(a: Seq<TokenModel>, b: Seq<TokenModel>, y: TokenModel)
    ensures
        cross_weight(a, b.push(y)) == cross_weight(a, b) + row_weight(y, a),
    decreases a.len(),
{
    assert(b.push(y).drop_last() =~= b);
    if a.len() > 0 {
        lemma_cross_push(a.drop_last(), b, y);
    }
}

proof fn lemma_cross_empty(a: Seq<TokenModel>)
    ensures
        cross_weight(a, Seq::empty()) == 0,
    decreases a.len(),
{
    if a.len() > 0 {
        lemma_cross_empty(a.drop_last());
    }
}

/// The weighted dot product does not depend on the order of its arguments.
pub proof fn lemma_cross_symmetric(a: Seq<TokenModel>, b: Seq<TokenModel>)
    ensures
        cross_weight(a, b) == cross_weight(b, a),
    decreases b.len(),
{
    if b.len() == 0 {
        lemma_cross_empty(a);
        assert(b =~= Seq::empty());
    } else {
        lemma_cross_symmetric(a, b.drop_last());
        lemma_cross_push(a, b.drop_last(), b.last());
        assert(b.drop_last().push(b.last()) =~= b);
    }
}

proof fn lemma_row_positive(b: Seq<TokenModel>)
    requires
        b.len() > 0,
    ensures
        row_weight(b.last(), b) >= 1,
{
    lemma_weight_bounds(b.last());
}

/// A non-empty sequence has a non-zero weighted norm.
pub proof fn lemma_cross_self_positive(a: Seq<TokenModel>)
    requires
        a.len() > 0,
    ensures
        cross_weight(a, a) >= 1,
{
    lemma_row_positive(a);
}

proof fn lemma_fits_monotone(r1: nat, r2: nat, dot: nat, nn: nat)
    requires
        r1 <= r2,
        cos_fits(r2, dot, nn),
    ensures
        cos_fits(r1, dot, nn),
{
    assert(r1 * r1 * nn <= r2 * r2 * nn) by (nonlinear_arith)
        requires r1 <= r2;
}

proof fn lemma_largest_fit_is(r: nat, lo: nat, dot: nat, nn: nat)
    requires
        lo <= r,
        cos_fits(lo, dot, nn),
        lo == r || !cos_fits(lo + 1, dot, nn),
    ensures
        largest_fit(r, dot, nn) == lo,
    decreases r,
{
    if r > lo {
        if cos_fits(r, dot, nn) {
            lemma_fits_monotone(lo + 1, r, dot, nn);
        }
        if r - 1 == lo {
        } else {
            assert(!cos_fits(lo + 1, dot, nn));
        }
        lemma_largest_fit_is((r - 1) as nat, lo, dot, nn);
    }
}

/// A sequence has weighted cosine one with itself, once it is not empty.
pub proof fn lemma_cosine_self(a: Seq<TokenModel>)
    requires
        a.len() > 0,
    ensures
        cosine_score(a, a) == SCALE,
{
    lemma_cross_self_positive(a);
    let n = cross_weight(a, a);
    let s = SCALE as nat;
    assert(s * s * (n * n) <= (s * n) * (s * n)) by (nonlinear_arith);
    assert(n * n > 0) by (nonlinear_arith)
        requires n >= 1;
}

/// The weighted cosine does not depend on the order of its arguments.
pub proof fn lemma_cosine_symmetric(a: Seq<TokenModel>, b: Seq<TokenModel>)
    ensures
        cosine_score(a, b) == cosine_score(b, a),
{
    lemma_cross_symmetric(a, b);
    let n1 = cross_weight(a, a);
    let n2 = cross_weight(b, b);
    assert(n1 * n2 == n2 * n1) by (nonlinear_arith);
}

/// The weighted cosine never exceeds the full scale.
pub proof fn lemma_cosine_bounded(a: Seq<TokenModel>, b: Seq<TokenModel>)
    ensures
        cosine_score(a, b) <= SCALE,
{
    let n1 = cross_weight(a, a);
    let n2 = cross_weight(b, b);
    if n1 != 0 && n2 != 0 {
        lemma_largest_fit_bounded(SCALE as nat, cross_weight(a, b), n1 * n2);
    }
}

proof fn lemma_largest_fit_bounded(r: nat, dot: nat, nn: nat)
    ensures
        largest_fit(r, dot, nn) <= r,
    decreases r,
{
    if r > 0 && !cos_fits(r, dot, nn) {
        lemma_largest_fit_bounded((r - 1) as nat, dot, nn);
    }
}

/// The weighted dot product of `a` and `b`.
fn cross_weight_of(a: &Vec<Token>, b: &Vec<Token>) -> (r: u64)
    requires
        a.len() <= MAX_TOKENS,
        b.len() <= MAX_TOKENS,
    ensures
        r == cross_weight(tokens_view(a@), tokens_view(b@)),
        r <= 16 * a.len() * b.len(),
{
    let ghost av = tokens_view(a@);
    let ghost bv = tokens_view(b@);
    let m = a.len();
    let n = b.len();
    let mut dot: u64 = 0;
    let mut i: usize = 0;
    while i < m
        invariant
            i <= m,
            m == a.len(),
            n == b.len(),
            m <= MAX_TOKENS,
            n <= MAX_TOKENS,
            av == tokens_view(a@),
            bv == tokens_view(b@),
            dot == cross_weight(av.take(i as int), bv),
        decreases m - i,
    {
        proof {
            lemma_cross_bounded(av.take(i as int), bv);
            assert(16 * i * n <= 16 * MAX_TOKENS * MAX_TOKENS) by (nonlinear_arith)
                requires i <= MAX_TOKENS, n <= MAX_TOKENS;
        }
        let w = a[i].weight();
        let mut j: usize = 0;
        while j < n
            invariant
                i < m,
                j <= n,
                m == a.len(),
                n == b.len(),
                m <= MAX_TOKENS,
                n <= MAX_TOKENS,
                av == tokens_view(a@),
                bv == tokens_view(b@),
                w == weight(av[i as int]),
                dot == cross_weight(av.take(i as int), bv) + row_weight(av[i as int], bv.take(j as int)),
                cross_weight(av.take(i as int), bv) <= 16 * i * n,
                16 * i * n <= 16 * MAX_TOKENS * MAX_TOKENS,
            decreases n - j,
        {
            proof {
                lemma_row_bounded(av[i as int], bv.take(j as int));
                lemma_weight_bounds(av[i as int]);
                assert(bv.take(j + 1).drop_last() =~= bv.take(j as int));
                assert(bv.take(j + 1).last() == bv[j as int]);
            }
            if a[i].same(&b[j]) {
                dot = dot + w * w;
            }
            j = j + 1;
        }
        proof {
            assert(bv.take(n as int) =~= bv);
            assert(av.take(i + 1).drop_last() =~= av.take(i as int));
            assert(av.take(i + 1).last() == av[i as int]);
        }
        i = i + 1;
    }
    proof {
        assert(av.take(m as int) =~= av);
        lemma_cross_bounded(av, bv);
    }
    dot
}

/// Weighted cosine of the category-frequency vectors of two token sequences,
/// in millionths, rounded down.
pub fn weighted_cosine(a: &Vec<Token>, b: &Vec<Token>) -> (r: u64)
    requires
        a.len() <= MAX_TOKENS,
        b.len() <= MAX_TOKENS,
    ensures
        r == cosine_score(tokens_view(a@), tokens_view(b@)),
        r <= SCALE,
{
    let ghost av = tokens_view(a@);
    let ghost bv = tokens_view(b@);
    let n1 = cross_weight_of(a, a);
    let n2 = cross_weight_of(b, b);
    if n1 == 0 || n2 == 0 {
        return 0;
    }
    let dot = cross_weight_of(a, b);
    let ma = a.len() as u128;
    let mb = b.len() as u128;
    assert(n1 as u128 * n2 as u128 <= 256 * (ma * ma) * (mb * mb)) by (nonlinear_arith)
        requires n1 <= 16 * ma * ma, n2 <= 16 * mb * mb;
    assert(256 * (ma * ma) * (mb * mb) <= 256 * 1000000000000 * 1000000000000) by (nonlinear_arith)
        requires ma <= 1000000, mb <= 1000000;
    let nn: u128 = n1 as u128 * n2 as u128;
    assert(dot <= 16 * 1000000000000u64) by (nonlinear_arith)
        requires dot <= 16 * ma * mb, ma <= 1000000, mb <= 1000000;
    let sd: u128 = SCALE as u128 * dot as u128;
    assert(sd <= 16000000000000000000u128) by (nonlinear_arith)
        requires sd == SCALE * dot, dot <= 16 * 1000000000000u64, SCALE == 1000000;
    assert(sd * sd <= 16000000000000000000u128 * 16000000000000000000u128) by (nonlinear_arith)
        requires sd <= 16000000000000000000u128;
    let target: u128 = sd * sd;
    let mut lo: u64 = 0;
    let mut hi: u64 = SCALE + 1;
    proof {
        assert(cos_fits(0, dot as nat, nn as nat)) by (nonlinear_arith);
    }
    while hi - lo > 1
        invariant
            lo < hi <= SCALE + 1,
            cos_fits(lo as nat, dot as nat, nn as nat),
            hi == SCALE + 1 || !cos_fits(hi as nat, dot as nat, nn as nat),
            nn <= 256000000000000000000000000,
            target == ((SCALE as nat) * dot) * ((SCALE as nat) * dot),
        decreases hi - lo,
    {
        let mid = lo + (hi - lo) / 2;
        assert(mid <= 1000000);
        assert(mid as u128 * mid as u128 <= 1000000000000) by (nonlinear_arith)
            requires mid <= 1000000;
        let m2: u128 = mid as u128 * mid as u128;
        assert(m2 * nn <= 1000000000000 * 256000000000000000000000000) by (nonlinear_arith)
            requires m2 == mid * mid, mid <= 1000000, nn <= 256000000000000000000000000;
        if m2 * nn <= target {
            lo = mid;
        } else {
            hi = mid;
        }
    }
    proof {
        lemma_largest_fit_is(SCALE as nat, lo as nat, dot as nat, nn as nat);
    }
    lo
}

} // verus!
