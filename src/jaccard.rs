use vstd::prelude::*;
use crate::token::{Token, TokenModel, tokens_view};
use crate::score::{SCALE, MAX_TOKENS};

verus! {

/// Jaccard index of the sets of categories of two token sequences, in
/// millionths; two empty sequences score the full scale.
pub open spec fn jaccard_score(a: Seq<TokenModel>, b: Seq<TokenModel>) -> nat {
    if a.len() == 0 && b.len() == 0 {
        SCALE as nat
    } else {
        let sa = a.to_set();
        let sb = b.to_set();
        ((SCALE as nat) * sa.intersect(sb).len()) / sa.union(sb).len()
    }
}

/// Whether `t` occurs in `v`.
pub fn contains_token(v: &Vec<Token>, t: &Token) -> (r: bool)
    ensures
        r == tokens_view(v@).contains(t@),
{
    let mut i: usize = 0;
    while i < v.len()
        invariant
            i <= v.len(),
            forall|k: int| 0 <= k < i ==> v@[k]@ != t@,
        decreases v.len() - i,
    {
        if v[i].same(t) {
            assert(tokens_view(v@)[i as int] == t@);
            return true;
        }
        i = i + 1;
    }
    proof {
        if tokens_view(v@).contains(t@) {
            let k = choose|k: int| 0 <= k < tokens_view(v@).len() && tokens_view(v@)[k] == t@;
            assert(v@[k]@ == t@);
        }
    }
    false
}

/// Appends to `distinct` each token of `src` whose category it does not hold yet.
fn absorb_distinct(distinct: &mut Vec<Token>, src: &Vec<Token>)
    requires
        tokens_view(old(distinct)@).no_duplicates(),
    ensures
        tokens_view(final(distinct)@).no_duplicates(),
        tokens_view(final(distinct)@).to_set() == tokens_view(old(distinct)@).to_set().union(
            tokens_view(src@).to_set(),
        ),
        final(distinct).len() <= old(distinct).len() + src.len(),
{
    let ghost start = tokens_view(distinct@).to_set();
    let ghost sv = tokens_view(src@);
    let ghost len0 = distinct.len();
    let mut i: usize = 0;
    while i < src.len()
        invariant
            i <= src.len(),
            sv == tokens_view(src@),
            tokens_view(distinct@).no_duplicates(),
            tokens_view(distinct@).to_set() == start.union(sv.take(i as int).to_set()),
            distinct.len() <= len0 + i,
        decreases src.len() - i,
    {
        let ghost before = tokens_view(distinct@);
        proof {
            assert(sv.take(i + 1) =~= sv.take(i as int).push(sv[i as int]));
            sv.take(i as int).lemma_push_to_set_commute(sv[i as int]);
        }
        if !contains_token(distinct, &src[i]) {
            distinct.push(src[i].duplicate());
            proof {
                assert(tokens_view(distinct@) =~= before.push(sv[i as int]));
                before.lemma_push_to_set_commute(sv[i as int]);
                assert(tokens_view(distinct@).to_set() =~= start.union(sv.take(i + 1).to_set()));
            }
        } else {
            proof {
                assert(tokens_view(distinct@).to_set() =~= start.union(sv.take(i + 1).to_set()));
            }
        }
        i = i + 1;
    }
    proof {
        assert(sv.take(src.len() as int) =~= sv);
    }
}

/// Jaccard index of the category sets of two token sequences, in millionths.
pub fn jaccard_similarity(a: &Vec<Token>, b: &Vec<Token>) -> (r: u64)
    requires
        a.len() <= MAX_TOKENS,
        b.len() <= MAX_TOKENS,
    ensures
        r == jaccard_score(tokens_view(a@), tokens_view(b@)),
        r <= SCALE,
{
    let ghost av = tokens_view(a@);
    let ghost bv = tokens_view(b@);
    if a.len() == 0 && b.len() == 0 {
        return SCALE;
    }
    let mut distinct: Vec<Token> = Vec::new();
    proof {
        assert(tokens_view(distinct@) =~= Seq::<TokenModel>::empty());
        assert(tokens_view(distinct@).to_set() =~= Set::<TokenModel>::empty());
    }
    absorb_distinct(&mut distinct, a);
    absorb_distinct(&mut distinct, b);
    let ghost dv = tokens_view(distinct@);
    let ghost sa = av.to_set();
    let ghost sb = bv.to_set();
    proof {
        assert(dv.to_set() =~= sa.union(sb));
        dv.unique_seq_to_set();
    }
    let mut common: u64 = 0;
    let ghost mut inter: Set<TokenModel> = Set::empty();
    let mut k: usize = 0;
    while k < distinct.len()
        invariant
            k <= distinct.len(),
            dv == tokens_view(distinct@),
            dv.no_duplicates(),
            av == tokens_view(a@),
            bv == tokens_view(b@),
            inter.finite(),
            common as nat == inter.len(),
            common <= k,
            forall|x: TokenModel|
                inter.contains(x) <==> (dv.take(k as int).contains(x) && av.contains(x) && bv.contains(x)),
        decreases distinct.len() - k,
    {
        let ghost d = dv[k as int];
        proof {
            assert(dv.take(k + 1) =~= dv.take(k as int).push(d));
            if dv.take(k as int).contains(d) {
                let p = choose|p: int| 0 <= p < k && dv.take(k as int)[p] == d;
                assert(dv[p] == dv[k as int]);
            }
        }
        if contains_token(a, &distinct[k]) && contains_token(b, &distinct[k]) {
            proof {
                assert(!inter.contains(d));
                inter = inter.insert(d);
            }
            common = common + 1;
        }
        proof {
            let t0 = dv.take(k as int);
            let t1 = dv.take(k + 1);
            assert forall|x: TokenModel| t1.contains(x) <==> (t0.contains(x) || x == d) by {
                if t1.contains(x) {
                    let p = choose|p: int| 0 <= p < t1.len() && t1[p] == x;
                    if p < k {
                        assert(t0[p] == x);
                    }
                }
                if t0.contains(x) {
                    let p = choose|p: int| 0 <= p < t0.len() && t0[p] == x;
                    assert(t1[p] == x);
                }
                if x == d {
                    assert(t1[k as int] == x);
                }
            }
        }
        k = k + 1;
    }
    proof {
        assert(dv.take(distinct.len() as int) =~= dv);
        assert forall|x: TokenModel| inter.contains(x) <==> sa.intersect(sb).contains(x) by {
            if inter.contains(x) {
                assert(sa.contains(x) && sb.contains(x));
            }
            if sa.intersect(sb).contains(x) {
                assert(sa.union(sb).contains(x));
                assert(dv.to_set().contains(x));
            }
        }
        assert(inter =~= sa.intersect(sb));
        assert(sa.union(sb).len() == distinct.len());
        if av.len() > 0 {
            assert(sa.contains(av[0]));
            assert(dv.to_set().contains(av[0]));
        } else {
            assert(sb.contains(bv[0]));
            assert(dv.to_set().contains(bv[0]));
        }
        assert(distinct.len() > 0);
        assert(sa.union(sb).len() > 0);
        vstd::set_lib::lemma_len_subset(sa.intersect(sb), sa.union(sb));
        let s = SCALE as nat;
        let i = inter.len();
        let u = sa.union(sb).len();
        assert(s * i <= s * u) by (nonlinear_arith)
            requires i <= u;
        assert((s * i) / u <= s) by (nonlinear_arith)
            requires s * i <= s * u, u > 0;
    }
    let u = distinct.len() as u64;
    assert(SCALE * common <= SCALE * 2 * MAX_TOKENS) by (nonlinear_arith)
        requires common <= 2 * MAX_TOKENS;
    (SCALE * common) / u
}

} // verus!
