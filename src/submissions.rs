use vstd::prelude::*;
use crate::models::{Student, StudentSubmission, StudentSubmissions, SubmissionState};
use crate::report::{SubmissionError, SubmissionResult, FlagModel, flags_view};

verus! {

/// A submission that can be downloaded: turned in, with attachments.
pub open spec fn valid_submission(s: StudentSubmission) -> bool {
    s.state == SubmissionState::TurnedIn && match s.assignment_submission {
        Some(a) => a.attachments is Some,
        None => false,
    }
}

/// The submissions that can be downloaded, in order.
pub open spec fn valid_only(ss: Seq<StudentSubmission>) -> Seq<StudentSubmission>
    decreases ss.len(),
{
    if ss.len() == 0 {
        Seq::empty()
    } else if valid_submission(ss.last()) {
        valid_only(ss.drop_last()).push(ss.last())
    } else {
        valid_only(ss.drop_last())
    }
}

/// `rs` holds a record of the student with key `email` whose only condition
/// is a missing submission, with no comments and nothing handed in.
pub open spec fn has_no_submission_record(rs: Seq<SubmissionResult>, email: Seq<char>) -> bool {
    exists|k: int|
        0 <= k < rs.len() && (#[trigger] rs[k]).student.profile.email_address@ == email
            && flags_view(rs[k].errors@) == seq![FlagModel::NoSubmission] && rs[k].comments@.len() == 0
            && rs[k].solved == 0
}

/// The student with the given user identifier is listed.
pub open spec fn listed(students: Seq<Student>, user_id: Seq<char>) -> bool {
    exists|j: int| 0 <= j < students.len() && (#[trigger] students[j]).user_id@ == user_id
}

/// Whether a submission can be downloaded.
pub fn is_valid_submission(s: &StudentSubmission) -> (r: bool)
    ensures
        r == valid_submission(*s),
{
    if s.state != SubmissionState::TurnedIn {
        return false;
    }
    match &s.assignment_submission {
        Some(a) => a.attachments.is_some(),
        None => false,
    }
}

/// The position of the first listed student with the given user identifier.
fn find_student(students: &Vec<Student>, user_id: &String) -> (r: Option<usize>)
    ensures
        match r {
            Some(j) => j < students.len() && students@[j as int].user_id@ == user_id@,
            None => !listed(students@, user_id@),
        },
{
    let mut j: usize = 0;
    while j < students.len()
        invariant
            j <= students.len(),
            forall|p: int| 0 <= p < j ==> (#[trigger] students@[p]).user_id@ != user_id@,
        decreases students.len() - j,
    {
        if <String as PartialEq>::eq(&students[j].user_id, user_id) {
            return Some(j);
        }
        j = j + 1;
    }
    None
}

/// No two records belong to the same student.
pub open spec fn unique_keys(rs: Seq<SubmissionResult>) -> bool {
    forall|i: int, j: int|
        0 <= i < rs.len() && 0 <= j < rs.len() && i != j ==> (#[trigger] rs[i]).student.profile.email_address@
            != (#[trigger] rs[j]).student.profile.email_address@
}

/// Replaces the first record of the same student with `r`, or adds `r`.
pub fn upsert_result(results: &mut Vec<SubmissionResult>, r: SubmissionResult)
    ensures
        exists|k: int| 0 <= k < final(results).len() && final(results)@[k] == r,
        forall|k: int| 0 <= k < old(results).len() ==> {
            ||| final(results)@[k] == old(results)@[k]
            ||| old(results)@[k].student.profile.email_address@ == r.student.profile.email_address@
        },
        final(results).len() >= old(results).len(),
        unique_keys(old(results)@) ==> unique_keys(final(results)@),
{
    let ghost r0 = results@;
    let mut k: usize = 0;
    while k < results.len()
        invariant
            k <= results.len(),
            results@ == r0,
            r0 == old(results)@,
            forall|p: int| 0 <= p < k ==> (#[trigger] r0[p]).student.profile.email_address@ != r.student.profile.email_address@,
        decreases results.len() - k,
    {
        if <String as PartialEq>::eq(&results[k].student.profile.email_address, &r.student.profile.email_address) {
            let ghost rv = r;
            results.set(k, r);
            assert(results@ == r0.update(k as int, rv));
            assert(results@[k as int] == rv);
            assert forall|i: int| 0 <= i < results.len() implies (#[trigger] results@[i]).student.profile.email_address@
                == r0[i].student.profile.email_address@ by {}
            return;
        }
        k = k + 1;
    }
    let ghost rv = r;
    results.push(r);
    assert(results@[results.len() - 1] == rv);
}

/// Keeps the submissions that can be downloaded, in order, and records a
/// missing submission for the student of each of the others.
pub fn validate_submissions(
    students: &Vec<Student>,
    submissions: StudentSubmissions,
    results: &mut Vec<SubmissionResult>,
) -> (r: Vec<StudentSubmission>)
    requires
        forall|i: int| 0 <= i < submissions.student_submissions.len()
            ==> listed(students@, (#[trigger] submissions.student_submissions@[i]).user_id@),
    ensures
        r@ == valid_only(submissions.student_submissions@),
        forall|i: int| 0 <= i < submissions.student_submissions.len()
            && !valid_submission(#[trigger] submissions.student_submissions@[i])
            ==> exists|j: int| 0 <= j < students.len()
                && students@[j].user_id@ == submissions.student_submissions@[i].user_id@
                && has_no_submission_record(final(results)@, #[trigger] students@[j].profile.email_address@),
        unique_keys(old(results)@) ==> unique_keys(final(results)@),
{
    let ghost all = submissions.student_submissions@;
    let ghost unique0 = unique_keys(results@);
    let mut rest = submissions.student_submissions;
    let mut kept: Vec<StudentSubmission> = Vec::new();
    let mut i: usize = 0;
    let n = rest.len();
    while i < n
        invariant
            i <= n,
            n == all.len(),
            rest@ == all.subrange(i as int, n as int),
            unique0 == unique_keys(old(results)@),
            unique0 ==> unique_keys(results@),
            kept@ == valid_only(all.take(i as int)),
            forall|p: int| 0 <= p < n ==> listed(students@, (#[trigger] all[p]).user_id@),
            forall|p: int| 0 <= p < i && !valid_submission(#[trigger] all[p])
                ==> exists|j: int| 0 <= j < students.len()
                    && students@[j].user_id@ == all[p].user_id@
                    && has_no_submission_record(results@, #[trigger] students@[j].profile.email_address@),
        decreases n - i,
    {
        let s = rest.remove(0);
        proof {
            assert(s == all[i as int]);
            assert(rest@ =~= all.subrange(i + 1, n as int));
            assert(all.take(i + 1).drop_last() =~= all.take(i as int));
            assert(all.take(i + 1).last() == all[i as int]);
        }
        if is_valid_submission(&s) {
            kept.push(s);
        } else {
            assert(listed(students@, all[i as int].user_id@));
            match find_student(students, &s.user_id) {
                Some(j) => {
                    let ghost before = results@;
                    let record = SubmissionResult {
                        student: students[j].duplicate(),
                        comments: Vec::new(),
                        errors: vec![SubmissionError::NoSubmission],
                        solved: 0,
                    };
                    let ghost rv = record;
                    proof {
                        assert(flags_view(rv.errors@) =~= seq![FlagModel::NoSubmission]);
                    }
                    upsert_result(results, record);
                    proof {
                        assert forall|p: int| 0 <= p < i + 1 && !valid_submission(#[trigger] all[p])
                            implies exists|q: int| 0 <= q < students.len()
                                && students@[q].user_id@ == all[p].user_id@
                                && has_no_submission_record(results@, #[trigger] students@[q].profile.email_address@) by {
                            if p == i {
                                let k = choose|k: int| 0 <= k < results.len() && results@[k] == rv;
                                assert(results@[k].student.profile.email_address@ == students@[j as int].profile.email_address@);
                                assert(has_no_submission_record(results@, students@[j as int].profile.email_address@));
                            } else {
                                let q = choose|q: int| 0 <= q < students.len()
                                    && students@[q].user_id@ == all[p].user_id@
                                    && has_no_submission_record(before, #[trigger] students@[q].profile.email_address@);
                                let e = students@[q].profile.email_address@;
                                let k = choose|k: int| 0 <= k < before.len() && (#[trigger] before[k]).student.profile.email_address@ == e
                                    && flags_view(before[k].errors@) == seq![FlagModel::NoSubmission]
                                    && before[k].comments@.len() == 0 && before[k].solved == 0;
                                if results@[k] == before[k] {
                                    assert(has_no_submission_record(results@, e));
                                } else {
                                    let k2 = choose|k2: int| 0 <= k2 < results.len() && results@[k2] == rv;
                                    assert(results@[k2].student.profile.email_address@ == e);
                                    assert(has_no_submission_record(results@, e));
                                }
                            }
                        }
                    }
                },
                None => {},
            }
        }
        i = i + 1;
    }
    proof {
        assert(all.take(n as int) =~= all);
    }
    kept
}

/// The conditions recorded for a downloaded submission: an archive that is no
/// zip archive, or one that could not be extracted, and a late hand-in.
pub open spec fn download_flags(is_zip: bool, extracted: bool, late: bool) -> Seq<FlagModel> {
    let first = if !is_zip {
        seq![FlagModel::InvalidZip]
    } else if !extracted {
        seq![FlagModel::ZipError]
    } else {
        Seq::empty()
    };
    if late { first.push(FlagModel::Late) } else { first }
}

/// The result of a downloaded submission: `extracted` is the number of source
/// files taken out of the archive, `None` where extracting failed.
pub fn downloaded_submission_result(student: Student, is_zip: bool, extracted: Option<i32>, late: bool) -> (r: SubmissionResult)
    ensures
        r.student == student,
        r.comments@.len() == 0,
        flags_view(r.errors@) == download_flags(is_zip, extracted is Some, late),
        r.solved == match extracted {
            Some(n) if is_zip => n,
            _ => 0i32,
        },
{
    let mut errors: Vec<SubmissionError> = Vec::new();
    let mut solved: i32 = 0;
    if is_zip {
        match extracted {
            Some(n) => solved = n,
            None => errors.push(SubmissionError::ZipError),
        }
    } else {
        errors.push(SubmissionError::InvalidZip);
    }
    if late {
        errors.push(SubmissionError::Late);
    }
    proof {
        assert(flags_view(errors@) =~= download_flags(is_zip, extracted is Some, late));
    }
    SubmissionResult { student, comments: Vec::new(), errors, solved }
}

/// Whether the bytes open with the signature of a zip archive, `PK\x03\x04`.
pub fn is_zip_archive(bytes: &[u8]) -> (r: bool)
    ensures
        r == (bytes@.len() >= 4 && bytes@[0] == 0x50u8 && bytes@[1] == 0x4bu8 && bytes@[2] == 0x03u8
            && bytes@[3] == 0x04u8),
{
    bytes.len() >= 4 && bytes[0] == 0x50u8 && bytes[1] == 0x4bu8 && bytes[2] == 0x03u8 && bytes[3] == 0x04u8
}

} // verus!
