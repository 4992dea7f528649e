use vstd::prelude::*;
use vstd::string::StringExecFns;
use crate::score::SCALE;
use crate::analysis::{AnalyzedFile, analyzed_score, analyze_code, analysable, compare_two_codes_cached};
use crate::syntax::c_syntax;
use crate::normalize::normalized;
use crate::report::{SubmissionError, SubmissionResult, FlagModel, flags_view};
use crate::text::{blank, is_blank};

verus! {

/// A submitted source file: the student it belongs to, its file name and its text.
pub struct SourceFile {
    pub owner: String,
    pub name: String,
    pub content: String,
}

/// An analysed file of a corpus.
pub struct CorpusEntry {
    pub owner: String,
    pub name: String,
    pub analysis: AnalyzedFile,
}

/// Two entries of a corpus, by position (`first < second`), and their score.
pub struct PairScore {
    pub first: usize,
    pub second: usize,
    pub score: u64,
}

/// A flag for the record of the student with the given key.
pub type FlagEvent = (Seq<char>, FlagModel);

/// The values of a list of scored pairs.
pub open spec fn pairs_view(ps: Seq<PairScore>) -> Seq<(int, int, nat)> {
    ps.map_values(|p: PairScore| (p.first as int, p.second as int, p.score as nat))
}

/// Every analysis of the corpus is short enough for the metrics.
pub open spec fn entries_wf(es: Seq<CorpusEntry>) -> bool {
    forall|i: int| 0 <= i < es.len() ==> (#[trigger] es[i]).analysis.wf()
}

/// Whether a score in millionths reaches a threshold in percent.
pub open spec fn meets_threshold(score: nat, threshold: nat) -> bool {
    100 * score >= threshold * SCALE
}

/// The pairs `(i, j)` with `i < j < end` whose score reaches the threshold, by `j`.
pub open spec fn pair_row(es: Seq<CorpusEntry>, threshold: nat, i: int, end: int) -> Seq<(int, int, nat)>
    decreases end - i,
{
    if end <= i + 1 {
        Seq::empty()
    } else {
        let r = pair_row(es, threshold, i, end - 1);
        let s = analyzed_score(es[i].analysis, es[end - 1].analysis);
        if meets_threshold(s, threshold) {
            r.push((i, end - 1, s))
        } else {
            r
        }
    }
}

/// Every pair `(i, j)` with `i < j` and `i < upto` whose score reaches the
/// threshold, in lexicographic order, with its score.
pub open spec fn flagged_pairs(es: Seq<CorpusEntry>, threshold: nat, upto: int) -> Seq<(int, int, nat)>
    decreases if upto <= 0 { 0 } else { upto as nat },
{
    if upto <= 0 {
        Seq::empty()
    } else {
        flagged_pairs(es, threshold, upto - 1) + pair_row(es, threshold, upto - 1, es.len() as int)
    }
}

/// The student keys of a table of results.
pub open spec fn result_keys(rs: Seq<SubmissionResult>) -> Seq<Seq<char>> {
    rs.map_values(|r: SubmissionResult| r.student.profile.email_address@)
}

/// The first position of `key` in a sequence of keys, or -1.
pub open spec fn key_index(keys: Seq<Seq<char>>, key: Seq<char>) -> int
    decreases keys.len(),
{
    if keys.len() == 0 {
        -1
    } else if key_index(keys.drop_last(), key) >= 0 {
        key_index(keys.drop_last(), key)
    } else if keys.last() == key {
        keys.len() - 1
    } else {
        -1
    }
}

/// The flags of the events for `key`, in order.
pub open spec fn flags_for(events: Seq<FlagEvent>, key: Seq<char>) -> Seq<FlagModel>
    decreases events.len(),
{
    if events.len() == 0 {
        Seq::empty()
    } else if events.last().0 == key {
        flags_for(events.drop_last(), key).push(events.last().1)
    } else {
        flags_for(events.drop_last(), key)
    }
}

/// `new` is `old` with each event's flag appended to the first record of its
/// key; an event whose key has no record changes nothing.
pub open spec fn appended(old: Seq<SubmissionResult>, new: Seq<SubmissionResult>, events: Seq<FlagEvent>) -> bool {
    &&& new.len() == old.len()
    &&& forall|k: int| #![trigger new[k]] 0 <= k < old.len() ==> {
        &&& new[k].student == old[k].student
        &&& new[k].comments == old[k].comments
        &&& new[k].solved == old[k].solved
        &&& flags_view(new[k].errors@) == flags_view(old[k].errors@) + if key_index(result_keys(old), result_keys(old)[k]) == k {
            flags_for(events, result_keys(old)[k])
        } else {
            Seq::empty()
        }
    }
}

/// An empty-file flag for each blank file, in order.
pub open spec fn empty_file_events(files: Seq<SourceFile>) -> Seq<FlagEvent>
    decreases files.len(),
{
    if files.len() == 0 {
        Seq::empty()
    } else if blank(files.last().content@) {
        empty_file_events(files.drop_last()).push((files.last().owner@, FlagModel::EmptyFile(files.last().name@)))
    } else {
        empty_file_events(files.drop_last())
    }
}

/// The positions of the files that are not blank, in order.
pub open spec fn comparable_files(files: Seq<SourceFile>) -> Seq<int>
    decreases files.len(),
{
    if files.len() == 0 {
        Seq::empty()
    } else if blank(files.last().content@) {
        comparable_files(files.drop_last())
    } else {
        comparable_files(files.drop_last()).push(files.len() - 1)
    }
}

/// For each flagged pair, a plagiarism flag on each side, naming the other file.
pub open spec fn pair_events(es: Seq<CorpusEntry>, pairs: Seq<(int, int, nat)>) -> Seq<FlagEvent>
    decreases pairs.len(),
{
    if pairs.len() == 0 {
        Seq::empty()
    } else {
        let (i, j, s) = pairs.last();
        pair_events(es, pairs.drop_last())
            .push((es[i].owner@, FlagModel::PlagiarismDetected(es[i].name@, es[j].name@, s)))
            .push((es[j].owner@, FlagModel::PlagiarismDetected(es[j].name@, es[i].name@, s)))
    }
}

/// Appending no events leaves the records as they are.
pub proof fn lemma_appended_none(rs: Seq<SubmissionResult>)
    ensures
        appended(rs, rs, Seq::empty()),
{
    assert forall|k: int| 0 <= k < rs.len() implies flags_view(rs[k].errors@) == flags_view(rs[k].errors@) + if key_index(result_keys(rs), result_keys(rs)[k]) == k {
        flags_for(Seq::empty(), result_keys(rs)[k])
    } else {
        Seq::empty()
    } by {
        assert(flags_view(rs[k].errors@) + Seq::<FlagModel>::empty() =~= flags_view(rs[k].errors@));
    }
}

proof fn lemma_flags_for_single(e: FlagEvent, key: Seq<char>)
    ensures
        flags_for(seq![e], key) == if e.0 == key { seq![e.1] } else { Seq::<FlagModel>::empty() },
{
    let s = seq![e];
    assert(s.drop_last() =~= Seq::<FlagEvent>::empty());
    assert(s.last() == e);
    assert(flags_for(s.drop_last(), key) == Seq::<FlagModel>::empty());
    assert(Seq::<FlagModel>::empty().push(e.1) =~= seq![e.1]);
}

proof fn lemma_appended_step(
    r0: Seq<SubmissionResult>,
    r1: Seq<SubmissionResult>,
    r2: Seq<SubmissionResult>,
    events: Seq<FlagEvent>,
    e: FlagEvent,
)
    requires
        appended(r0, r1, events),
        appended(r1, r2, seq![e]),
    ensures
        appended(r0, r2, events.push(e)),
{
    assert(result_keys(r1) =~= result_keys(r0));
    assert(events.push(e).drop_last() =~= events);
    assert(seq![e].drop_last() =~= Seq::<FlagEvent>::empty());
    assert forall|k: int| #![trigger r2[k]] 0 <= k < r0.len() implies {
        &&& r2[k].student == r0[k].student
        &&& r2[k].comments == r0[k].comments
        &&& r2[k].solved == r0[k].solved
        &&& flags_view(r2[k].errors@) == flags_view(r0[k].errors@) + if key_index(result_keys(r0), result_keys(r0)[k]) == k {
            flags_for(events.push(e), result_keys(r0)[k])
        } else {
            Seq::empty()
        }
    } by {
        assert(r1[k].student == r0[k].student);
        assert(r2[k].student == r1[k].student);
        let key = result_keys(r0)[k];
        assert(result_keys(r1)[k] == key);
        lemma_flags_for_single(e, key);
        assert(flags_view(r2[k].errors@) =~= flags_view(r0[k].errors@) + if key_index(result_keys(r0), key) == k {
            flags_for(events.push(e), key)
        } else {
            Seq::empty()
        });
    }
}

proof fn lemma_key_index(keys: Seq<Seq<char>>, key: Seq<char>, k: int)
    requires
        0 <= k <= keys.len(),
        forall|p: int| 0 <= p < k ==> (#[trigger] keys[p]) != key,
        k < keys.len() ==> keys[k] == key,
    ensures
        key_index(keys, key) == if k < keys.len() { k } else { -1 },
    decreases keys.len(),
{
    if keys.len() > 0 {
        if k < keys.len() - 1 {
            lemma_key_index(keys.drop_last(), key, k);
        } else {
            lemma_key_index(keys.drop_last(), key, keys.len() - 1);
        }
    }
}

proof fn lemma_key_index_range(keys: Seq<Seq<char>>, key: Seq<char>)
    ensures
        -1 <= key_index(keys, key) < keys.len(),
        key_index(keys, key) >= 0 ==> keys[key_index(keys, key)] == key,
    decreases keys.len(),
{
    if keys.len() > 0 {
        lemma_key_index_range(keys.drop_last(), key);
    }
}

/// The position of the first record of the student with key `key`.
pub fn find_result(results: &Vec<SubmissionResult>, key: &String) -> (r: Option<usize>)
    ensures
        match r {
            Some(k) => k < results.len() && key_index(result_keys(results@), key@) == k as int,
            None => key_index(result_keys(results@), key@) == -1,
        },
{
    let ghost keys = result_keys(results@);
    let mut k: usize = 0;
    while k < results.len()
        invariant
            k <= results.len(),
            keys == result_keys(results@),
            forall|p: int| 0 <= p < k ==> (#[trigger] keys[p]) != key@,
        decreases results.len() - k,
    {
        if <String as PartialEq>::eq(&results[k].student.profile.email_address, key) {
            proof {
                lemma_key_index(keys, key@, k as int);
            }
            return Some(k);
        }
        k = k + 1;
    }
    proof {
        lemma_key_index(keys, key@, k as int);
    }
    None
}

/// Appends `flag` to the first record of the student with key `key`, if any.
pub fn append_flag(results: &mut Vec<SubmissionResult>, key: &String, flag: SubmissionError)
    ensures
        appended(old(results)@, final(results)@, seq![(key@, flag@)]),
{
    let ghost r0 = results@;
    let ghost e: FlagEvent = (key@, flag@);
    proof {
        assert(seq![e].drop_last() =~= Seq::<FlagEvent>::empty());
    }
    match find_result(results, key) {
        Some(idx) => {
            results[idx].errors.push(flag);
            proof {
                assert forall|k: int| #![trigger results@[k]] 0 <= k < r0.len() implies {
                    &&& results@[k].student == r0[k].student
                    &&& results@[k].comments == r0[k].comments
                    &&& results@[k].solved == r0[k].solved
                    &&& flags_view(results@[k].errors@) == flags_view(r0[k].errors@) + if key_index(result_keys(r0), result_keys(r0)[k]) == k {
                        flags_for(seq![e], result_keys(r0)[k])
                    } else {
                        Seq::empty()
                    }
                } by {
                    let kk = result_keys(r0)[k];
                    lemma_flags_for_single(e, kk);
                    lemma_key_index_range(result_keys(r0), key@);
                    if k == idx {
                        assert(kk == key@);
                        assert(flags_view(results@[k].errors@) =~= flags_view(r0[k].errors@).push(e.1));
                        assert(flags_for(seq![e], kk) =~= seq![e.1]);
                        assert(flags_view(results@[k].errors@) =~= flags_view(r0[k].errors@) + flags_for(seq![e], kk));
                    } else {
                        if key_index(result_keys(r0), kk) == k {
                            assert(kk != key@);
                            assert(flags_for(seq![e], kk) =~= Seq::<FlagModel>::empty());
                        }
                        assert(flags_view(results@[k].errors@) =~= flags_view(r0[k].errors@) + if key_index(result_keys(r0), kk) == k {
                            flags_for(seq![e], kk)
                        } else {
                            Seq::empty()
                        });
                    }
                }
            }
        },
        None => {
            proof {
                assert forall|k: int| #![trigger results@[k]] 0 <= k < r0.len() implies
                    flags_view(results@[k].errors@) == flags_view(r0[k].errors@) + if key_index(result_keys(r0), result_keys(r0)[k]) == k {
                        flags_for(seq![e], result_keys(r0)[k])
                    } else {
                        Seq::empty()
                    } by {
                    let kk = result_keys(r0)[k];
                    lemma_flags_for_single(e, kk);
                    if key_index(result_keys(r0), kk) == k {
                        lemma_key_index_range(result_keys(r0), key@);
                        assert(kk != key@);
                        assert(flags_for(seq![e], kk) =~= Seq::<FlagModel>::empty());
                    }
                    assert(flags_view(results@[k].errors@) =~= flags_view(r0[k].errors@) + if key_index(result_keys(r0), kk) == k {
                        flags_for(seq![e], kk)
                    } else {
                        Seq::empty()
                    });
                }
            }
        },
    }
}

proof fn lemma_flags_for_concat(a: Seq<FlagEvent>, b: Seq<FlagEvent>, key: Seq<char>)
    ensures
        flags_for(a + b, key) == flags_for(a, key) + flags_for(b, key),
    decreases b.len(),
{
    if b.len() == 0 {
        assert(a + b =~= a);
        assert(flags_for(a, key) + flags_for(b, key) =~= flags_for(a, key));
    } else {
        lemma_flags_for_concat(a, b.drop_last(), key);
        assert((a + b).drop_last() =~= a + b.drop_last());
        assert((a + b).last() == b.last());
        if b.last().0 == key {
            assert(flags_for(a, key) + flags_for(b.drop_last(), key).push(b.last().1) =~= (flags_for(a, key)
                + flags_for(b.drop_last(), key)).push(b.last().1));
        }
    }
}

/// Two rounds of appending compose into one.
pub proof fn lemma_appended_concat(
    r0: Seq<SubmissionResult>,
    r1: Seq<SubmissionResult>,
    r2: Seq<SubmissionResult>,
    a: Seq<FlagEvent>,
    b: Seq<FlagEvent>,
)
    requires
        appended(r0, r1, a),
        appended(r1, r2, b),
    ensures
        appended(r0, r2, a + b),
{
    assert(result_keys(r1) =~= result_keys(r0));
    assert forall|k: int| #![trigger r2[k]] 0 <= k < r0.len() implies {
        &&& r2[k].student == r0[k].student
        &&& r2[k].comments == r0[k].comments
        &&& r2[k].solved == r0[k].solved
        &&& flags_view(r2[k].errors@) == flags_view(r0[k].errors@) + if key_index(result_keys(r0), result_keys(r0)[k]) == k {
            flags_for(a + b, result_keys(r0)[k])
        } else {
            Seq::empty()
        }
    } by {
        assert(r1[k].student == r0[k].student);
        assert(r2[k].student == r1[k].student);
        let key = result_keys(r0)[k];
        assert(result_keys(r1)[k] == key);
        lemma_flags_for_concat(a, b, key);
        assert(flags_view(r2[k].errors@) =~= flags_view(r0[k].errors@) + if key_index(result_keys(r0), key) == k {
            flags_for(a + b, key)
        } else {
            Seq::empty()
        });
    }
}

fn copy_text(s: &String) -> (r: String)
    ensures
        r@ == s@,
{
    <String as StringExecFns>::from_str(s.as_str())
}

/// Compares entries `i` and `j`: their scored pair where the score reaches
/// `threshold` percent, else `None`.
pub fn score_pair(entries: &Vec<CorpusEntry>, threshold: u32, i: usize, j: usize) -> (r: Option<PairScore>)
    requires
        entries_wf(entries@),
        i < entries.len(),
        j < entries.len(),
    ensures
        r is Some <==> meets_threshold(analyzed_score(entries@[i as int].analysis, entries@[j as int].analysis), threshold as nat),
        r matches Some(p) ==> p.first == i && p.second == j && p.score == analyzed_score(
            entries@[i as int].analysis,
            entries@[j as int].analysis,
        ),
{
    assert(entries@[i as int].analysis.wf());
    assert(entries@[j as int].analysis.wf());
    let score = compare_two_codes_cached(&entries[i].analysis, &entries[j].analysis);
    if 100 * score >= threshold as u64 * SCALE {
        Some(PairScore { first: i, second: j, score })
    } else {
        None
    }
}

/// The pairs `(i, j)` with `i < j` whose score reaches `threshold` percent,
/// by `j`, with their scores: one row of the comparison.
pub fn pairs_in_row(entries: &Vec<CorpusEntry>, threshold: u32, i: usize) -> (r: Vec<PairScore>)
    requires
        entries_wf(entries@),
        i < entries.len(),
    ensures
        pairs_view(r@) == pair_row(entries@, threshold as nat, i as int, entries.len() as int),
        forall|k: int| 0 <= k < r.len() ==> (#[trigger] r@[k]).first == i && i < r@[k].second < entries.len(),
{
    let ghost es = entries@;
    let ghost thr = threshold as nat;
    let n = entries.len();
    let mut out: Vec<PairScore> = Vec::new();
    let mut j: usize = i + 1;
    proof {
        assert(pairs_view(out@) =~= pair_row(es, thr, i as int, j as int));
    }
    while j < n
        invariant
            i < n,
            i + 1 <= j <= n,
            n == entries.len(),
            es == entries@,
            thr == threshold as nat,
            entries_wf(es),
            pairs_view(out@) == pair_row(es, thr, i as int, j as int),
            forall|k: int| 0 <= k < out.len() ==> (#[trigger] out@[k]).first == i && i < out@[k].second < n,
        decreases n - j,
    {
        let ghost before = out@;
        match score_pair(entries, threshold, i, j) {
            Some(p) => {
                out.push(p);
                proof {
                    assert(pairs_view(out@) =~= pairs_view(before).push(
                        (i as int, j as int, analyzed_score(es[i as int].analysis, es[j as int].analysis)),
                    ));
                }
            },
            None => {},
        }
        j = j + 1;
    }
    out
}

/// Every pair of entries, each taken once, whose score reaches `threshold`
/// percent, in lexicographic order of positions, with its score.
pub fn similar_pairs(entries: &Vec<CorpusEntry>, threshold: u32) -> (r: Vec<PairScore>)
    requires
        entries_wf(entries@),
    ensures
        pairs_view(r@) == flagged_pairs(entries@, threshold as nat, entries.len() as int),
        forall|k: int| 0 <= k < r.len() ==> (#[trigger] r@[k]).first < r@[k].second < entries.len(),
{
    let ghost es = entries@;
    let ghost thr = threshold as nat;
    let n = entries.len();
    let mut out: Vec<PairScore> = Vec::new();
    let mut i: usize = 0;
    while i < n
        invariant
            i <= n,
            n == entries.len(),
            es == entries@,
            thr == threshold as nat,
            entries_wf(es),
            pairs_view(out@) == flagged_pairs(es, thr, i as int),
            forall|k: int| 0 <= k < out.len() ==> (#[trigger] out@[k]).first < out@[k].second < n,
        decreases n - i,
    {
        let mut row = pairs_in_row(entries, threshold, i);
        let ghost before = out@;
        let ghost rv = row@;
        out.append(&mut row);
        proof {
            assert(out@ == before + rv);
            assert(pairs_view(out@) =~= pairs_view(before) + pairs_view(rv));
            assert forall|k: int| 0 <= k < out.len() implies (#[trigger] out@[k]).first < out@[k].second < n by {
                if k >= before.len() {
                    assert(out@[k] == rv[k - before.len()]);
                }
            }
        }
        i = i + 1;
    }
    out
}

/// Records a plagiarism flag on both sides of each flagged pair, each naming
/// the other file and the score.
pub fn record_similar_pairs(results: &mut Vec<SubmissionResult>, entries: &Vec<CorpusEntry>, pairs: &Vec<PairScore>)
    requires
        forall|k: int| 0 <= k < pairs.len() ==> (#[trigger] pairs@[k]).first < pairs@[k].second < entries.len(),
    ensures
        appended(old(results)@, final(results)@, pair_events(entries@, pairs_view(pairs@))),
{
    let ghost r0 = results@;
    let ghost es = entries@;
    let ghost pv = pairs_view(pairs@);
    proof {
        lemma_appended_none(r0);
        assert(pair_events(es, pv.take(0)) =~= Seq::<FlagEvent>::empty()) by {
            assert(pv.take(0).len() == 0);
        }
    }
    let mut k: usize = 0;
    while k < pairs.len()
        invariant
            k <= pairs.len(),
            es == entries@,
            pv == pairs_view(pairs@),
            forall|q: int| 0 <= q < pairs.len() ==> (#[trigger] pairs@[q]).first < pairs@[q].second < entries.len(),
            appended(r0, results@, pair_events(es, pv.take(k as int))),
        decreases pairs.len() - k,
    {
        let p = &pairs[k];
        let a = &entries[p.first];
        let b = &entries[p.second];
        let ghost ev = pair_events(es, pv.take(k as int));
        let ghost r1 = results@;
        let e1 = SubmissionError::PlagiarismDetected(copy_text(&a.name), copy_text(&b.name), p.score);
        let ghost g1: FlagEvent = (a.owner@, e1@);
        append_flag(results, &a.owner, e1);
        proof {
            lemma_appended_step(r0, r1, results@, ev, g1);
        }
        let ghost r2 = results@;
        let e2 = SubmissionError::PlagiarismDetected(copy_text(&b.name), copy_text(&a.name), p.score);
        let ghost g2: FlagEvent = (b.owner@, e2@);
        append_flag(results, &b.owner, e2);
        proof {
            lemma_appended_step(r0, r2, results@, ev.push(g1), g2);
            assert(pv.take(k + 1).drop_last() =~= pv.take(k as int));
            assert(pv.take(k + 1).last() == pv[k as int]);
        }
        k = k + 1;
    }
    proof {
        assert(pv.take(pairs.len() as int) =~= pv);
    }
}

/// Records an empty-file flag for each blank file on its owner's record, and
/// returns the positions of the other files, in order.
pub fn flag_empty_files(files: &Vec<SourceFile>, results: &mut Vec<SubmissionResult>) -> (r: Vec<usize>)
    ensures
        appended(old(results)@, final(results)@, empty_file_events(files@)),
        r@.map_values(|i: usize| i as int) == comparable_files(files@),
        forall|k: int| 0 <= k < r.len() ==> (#[trigger] r@[k]) < files.len() && !blank(files@[r@[k] as int].content@),
{
    let ghost r0 = results@;
    let ghost fs = files@;
    let mut kept: Vec<usize> = Vec::new();
    proof {
        lemma_appended_none(r0);
        assert(fs.take(0) =~= Seq::<SourceFile>::empty());
        assert(kept@.map_values(|i: usize| i as int) =~= Seq::<int>::empty());
    }
    let mut i: usize = 0;
    while i < files.len()
        invariant
            i <= files.len(),
            fs == files@,
            appended(r0, results@, empty_file_events(fs.take(i as int))),
            kept@.map_values(|i: usize| i as int) == comparable_files(fs.take(i as int)),
            forall|k: int| 0 <= k < kept.len() ==> (#[trigger] kept@[k]) < files.len() && !blank(fs[kept@[k] as int].content@),
        decreases files.len() - i,
    {
        let ghost r1 = results@;
        let ghost before = kept@;
        proof {
            assert(fs.take(i + 1).drop_last() =~= fs.take(i as int));
            assert(fs.take(i + 1).last() == fs[i as int]);
        }
        let f = &files[i];
        if is_blank(f.content.as_str()) {
            let flag = SubmissionError::EmptyFile(copy_text(&f.name));
            let ghost g: FlagEvent = (f.owner@, flag@);
            append_flag(results, &f.owner, flag);
            proof {
                lemma_appended_step(r0, r1, results@, empty_file_events(fs.take(i as int)), g);
            }
        } else {
            kept.push(i);
            proof {
                assert(kept@.map_values(|i: usize| i as int) =~= before.map_values(|i: usize| i as int).push(i as int));
            }
        }
        i = i + 1;
    }
    proof {
        assert(fs.take(files.len() as int) =~= fs);
    }
    kept
}

/// The positions, in order, whose file can be analysed.
pub open spec fn analysable_positions(files: Seq<SourceFile>, ps: Seq<int>) -> Seq<int>
    decreases ps.len(),
{
    if ps.len() == 0 {
        Seq::empty()
    } else if analysable(files[ps.last()].content@) {
        analysable_positions(files, ps.drop_last()).push(ps.last())
    } else {
        analysable_positions(files, ps.drop_last())
    }
}

/// An invalid-format flag for the owner of each position, in order, whose
/// file cannot be analysed.
pub open spec fn format_events_of(files: Seq<SourceFile>, ps: Seq<int>) -> Seq<FlagEvent>
    decreases ps.len(),
{
    if ps.len() == 0 {
        Seq::empty()
    } else if analysable(files[ps.last()].content@) {
        format_events_of(files, ps.drop_last())
    } else {
        format_events_of(files, ps.drop_last()).push((files[ps.last()].owner@, FlagModel::InvalidFormat))
    }
}

/// `e` is the entry of the file at position `i`: its owner, its name and the
/// analysis of its normalised text.
pub open spec fn entry_of(files: Seq<SourceFile>, i: int, e: CorpusEntry) -> bool {
    &&& 0 <= i < files.len()
    &&& e.owner@ == files[i].owner@
    &&& e.name@ == files[i].name@
    &&& e.analysis.wf()
    &&& e.analysis.analyses(c_syntax(normalized(files[i].content@)))
}

/// `es` holds the entries of the files at positions `ps`, one each, in order.
pub open spec fn entries_for(files: Seq<SourceFile>, ps: Seq<int>, es: Seq<CorpusEntry>) -> bool {
    es.len() == ps.len() && forall|j: int| 0 <= j < es.len() ==> entry_of(files, ps[j], #[trigger] es[j])
}

/// The positions of the files that are compared: those that are not blank
/// and can be analysed, in order.
pub open spec fn compared_files(files: Seq<SourceFile>) -> Seq<int> {
    analysable_positions(files, comparable_files(files))
}

/// Analyses the files at the given positions. A file that cannot be analysed
/// is left out and gets an invalid-format flag on its owner's record.
pub fn analyze_corpus(files: &Vec<SourceFile>, positions: &Vec<usize>, results: &mut Vec<SubmissionResult>) -> (r: Vec<CorpusEntry>)
    requires
        forall|k: int| 0 <= k < positions.len() ==> (#[trigger] positions@[k]) < files.len(),
    ensures
        entries_wf(r@),
        entries_for(files@, analysable_positions(files@, positions@.map_values(|i: usize| i as int)), r@),
        appended(old(results)@, final(results)@, format_events_of(files@, positions@.map_values(|i: usize| i as int))),
{
    let ghost r0 = results@;
    let ghost pv = positions@.map_values(|i: usize| i as int);
    proof {
        lemma_appended_none(r0);
        assert(pv.take(0) =~= Seq::<int>::empty());
    }
    let mut entries: Vec<CorpusEntry> = Vec::new();
    let mut k: usize = 0;
    while k < positions.len()
        invariant
            k <= positions.len(),
            pv == positions@.map_values(|i: usize| i as int),
            forall|q: int| 0 <= q < positions.len() ==> (#[trigger] positions@[q]) < files.len(),
            entries_wf(entries@),
            entries_for(files@, analysable_positions(files@, pv.take(k as int)), entries@),
            appended(r0, results@, format_events_of(files@, pv.take(k as int))),
        decreases positions.len() - k,
    {
        let ghost before = entries@;
        proof {
            assert(pv.take(k + 1).drop_last() =~= pv.take(k as int));
            assert(pv.take(k + 1).last() == positions@[k as int] as int);
        }
        let f = &files[positions[k]];
        match analyze_code(f.content.as_str()) {
            Some(analysis) => {
                entries.push(CorpusEntry { owner: copy_text(&f.owner), name: copy_text(&f.name), analysis });
                proof {
                    let ap = analysable_positions(files@, pv.take(k + 1));
                    assert forall|j: int| 0 <= j < entries.len() implies entry_of(files@, ap[j], #[trigger] entries@[j]) by {
                        if j < before.len() {
                            assert(entries@[j] == before[j]);
                        }
                    }
                }
            },
            None => {
                let ghost r1 = results@;
                let ghost g: FlagEvent = (f.owner@, FlagModel::InvalidFormat);
                append_flag(results, &f.owner, SubmissionError::InvalidFormat);
                proof {
                    lemma_appended_step(r0, r1, results@, format_events_of(files@, pv.take(k as int)), g);
                }
            },
        }
        k = k + 1;
    }
    proof {
        assert(pv.take(positions.len() as int) =~= pv);
    }
    entries
}

/// The outcome of a corpus scan: the files that were compared, and the pairs
/// of them that were flagged.
pub struct CorpusScan {
    pub entries: Vec<CorpusEntry>,
    pub flagged: Vec<PairScore>,
}

/// Scans a corpus: blank files get an empty-file flag and files that cannot
/// be analysed an invalid-format flag; every other pair of files, each pair
/// once, is compared, and each pair whose score reaches `threshold` percent
/// gets a plagiarism flag on both owners' records.
pub fn scan_corpus(files: &Vec<SourceFile>, threshold: u32, results: &mut Vec<SubmissionResult>) -> (r: CorpusScan)
    ensures
        entries_wf(r.entries@),
        entries_for(files@, compared_files(files@), r.entries@),
        pairs_view(r.flagged@) == flagged_pairs(r.entries@, threshold as nat, r.entries.len() as int),
        appended(
            old(results)@,
            final(results)@,
            empty_file_events(files@) + format_events_of(files@, comparable_files(files@)) + pair_events(
                r.entries@,
                pairs_view(r.flagged@),
            ),
        ),
{
    let ghost r0 = results@;
    let positions = flag_empty_files(files, results);
    let ghost r1 = results@;
    let entries = analyze_corpus(files, &positions, results);
    let ghost r2 = results@;
    let flagged = similar_pairs(&entries, threshold);
    record_similar_pairs(results, &entries, &flagged);
    proof {
        let pv = positions@.map_values(|i: usize| i as int);
        lemma_appended_concat(r0, r1, r2, empty_file_events(files@), format_events_of(files@, pv));
        lemma_appended_concat(
            r0,
            r2,
            results@,
            empty_file_events(files@) + format_events_of(files@, pv),
            pair_events(entries@, pairs_view(flagged@)),
        );
    }
    CorpusScan { entries, flagged }
}

} // verus!
