use vstd::prelude::*;
use crate::report::{SubmissionError, SubmissionResult, FlagModel, flags_view};
use crate::corpus::result_keys;

verus! {

/// One line of the exercise platform's class report.
pub struct BeecrowdRecord {
    pub email: String,
    pub exercises: i32,
    pub solved: i32,
}

/// The conditions recorded for a student given their line of the class report
/// (exercises, solved), if listed, and the number of exercises handed in.
pub open spec fn beecrowd_flags(record: Option<(int, int)>, handed_in: int) -> Seq<FlagModel> {
    match record {
        None => seq![FlagModel::NoBeecrowd],
        Some((exercises, solved)) => {
            let a = if solved == 0 { seq![FlagModel::NoBeecrowdSubmission] } else { Seq::empty() };
            let b = if solved < exercises { a.push(FlagModel::IncompleteBeecrowdSubmission) } else { a };
            if handed_in < exercises { b.push(FlagModel::IncompleteClassroomSubmission) } else { b }
        },
    }
}

/// The position of the last line of the report for `email`, or -1.
pub open spec fn last_record_index(records: Seq<BeecrowdRecord>, email: Seq<char>) -> int
    decreases records.len(),
{
    if records.len() == 0 {
        -1
    } else if records.last().email@ == email {
        records.len() - 1
    } else {
        last_record_index(records.drop_last(), email)
    }
}

/// The (exercises, solved) of the last line of the report for `email`.
pub open spec fn record_for(records: Seq<BeecrowdRecord>, email: Seq<char>) -> Option<(int, int)> {
    let k = last_record_index(records, email);
    if k >= 0 {
        Some((records[k].exercises as int, records[k].solved as int))
    } else {
        None
    }
}

proof fn lemma_last_record_index_range(records: Seq<BeecrowdRecord>, email: Seq<char>)
    ensures
        -1 <= last_record_index(records, email) < records.len(),
    decreases records.len(),
{
    if records.len() > 0 {
        lemma_last_record_index_range(records.drop_last(), email);
    }
}

/// The position of the last line of the report for `email`.
fn find_record(records: &Vec<BeecrowdRecord>, email: &String) -> (r: Option<usize>)
    ensures
        match r {
            Some(k) => k < records.len() && last_record_index(records@, email@) == k as int,
            None => last_record_index(records@, email@) == -1,
        },
{
    let mut k: usize = records.len();
    assert(records@.take(k as int) =~= records@);
    while k > 0
        invariant
            k <= records.len(),
            last_record_index(records@, email@) == last_record_index(records@.take(k as int), email@),
        decreases k,
    {
        let ghost t = records@.take(k as int);
        proof {
            assert(t.drop_last() =~= records@.take(k - 1));
            assert(t.last() == records@[k - 1]);
        }
        if <String as PartialEq>::eq(&records[k - 1].email, email) {
            return Some(k - 1);
        }
        k = k - 1;
    }
    None
}

/// Records the conditions of the class report on one result.
pub fn check_beecrowd(result: &mut SubmissionResult, record: Option<&BeecrowdRecord>)
    ensures
        final(result).student == old(result).student,
        final(result).comments == old(result).comments,
        final(result).solved == old(result).solved,
        flags_view(final(result).errors@) == flags_view(old(result).errors@) + beecrowd_flags(
            match record {
                Some(b) => Some((b.exercises as int, b.solved as int)),
                None => None,
            },
            old(result).solved as int,
        ),
{
    let ghost e0 = flags_view(result.errors@);
    match record {
        Some(b) => {
            if b.solved == 0 {
                result.errors.push(SubmissionError::NoBeecrowdSubmission);
            }
            if b.solved < b.exercises {
                result.errors.push(SubmissionError::IncompleteBeecrowdSubmission);
            }
            if result.solved < b.exercises {
                result.errors.push(SubmissionError::IncompleteClassroomSubmission);
            }
        },
        None => {
            result.errors.push(SubmissionError::NoBeecrowd);
        },
    }
    proof {
        assert(flags_view(result.errors@) =~= e0 + beecrowd_flags(
            match record {
                Some(b) => Some((b.exercises as int, b.solved as int)),
                None => None,
            },
            result.solved as int,
        ));
    }
}

/// Records the conditions of the class report on every result: each student
/// is looked up by e-mail address, the last line for an address counting.
pub fn apply_beecrowd_report(results: &mut Vec<SubmissionResult>, records: &Vec<BeecrowdRecord>)
    ensures
        final(results).len() == old(results).len(),
        forall|k: int| #![trigger final(results)@[k]] 0 <= k < old(results).len() ==> {
            &&& final(results)@[k].student == old(results)@[k].student
            &&& final(results)@[k].comments == old(results)@[k].comments
            &&& final(results)@[k].solved == old(results)@[k].solved
            &&& flags_view(final(results)@[k].errors@) == flags_view(old(results)@[k].errors@) + beecrowd_flags(
                record_for(records@, result_keys(old(results)@)[k]),
                old(results)@[k].solved as int,
            )
        },
{
    let ghost r0 = results@;
    let mut i: usize = 0;
    while i < results.len()
        invariant
            i <= results.len(),
            results.len() == r0.len(),
            r0 == old(results)@,
            forall|k: int| #![trigger results@[k]] i <= k < r0.len() ==> results@[k] == r0[k],
            forall|k: int| #![trigger results@[k]] 0 <= k < i ==> {
                &&& results@[k].student == r0[k].student
                &&& results@[k].comments == r0[k].comments
                &&& results@[k].solved == r0[k].solved
                &&& flags_view(results@[k].errors@) == flags_view(r0[k].errors@) + beecrowd_flags(
                    record_for(records@, result_keys(r0)[k]),
                    r0[k].solved as int,
                )
            },
        decreases results.len() - i,
    {
        assert(results@[i as int] == r0[i as int]);
        let found = find_record(records, &results[i].student.profile.email_address);
        proof {
            lemma_last_record_index_range(records@, result_keys(r0)[i as int]);
        }
        match found {
            Some(k) => check_beecrowd(&mut results[i], Some(&records[k])),
            None => check_beecrowd(&mut results[i], None),
        }
        i = i + 1;
    }
}

} // verus!
