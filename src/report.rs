use vstd::prelude::*;
use vstd::string::StringExecFns;
use crate::models::Student;

verus! {

/// A condition recorded on a student's result.
#[derive(Debug)]
pub enum SubmissionError {
    NoSubmission,
    InvalidSubmission,
    InvalidZip,
    InvalidFormat,
    /// This file, the other file, and their score in millionths.
    PlagiarismDetected(String, String, u64),
    ZipError,
    Late,
    EmptyFile(String),
    NoBeecrowd,
    NoBeecrowdSubmission,
    IncompleteBeecrowdSubmission,
    IncompleteClassroomSubmission,
}

/// The value of a recorded condition, file names held as characters.
pub enum FlagModel {
    NoSubmission,
    InvalidSubmission,
    InvalidZip,
    InvalidFormat,
    PlagiarismDetected(Seq<char>, Seq<char>, nat),
    ZipError,
    Late,
    EmptyFile(Seq<char>),
    NoBeecrowd,
    NoBeecrowdSubmission,
    IncompleteBeecrowdSubmission,
    IncompleteClassroomSubmission,
}

impl View for SubmissionError {
    type V = FlagModel;

    open spec fn view(&self) -> FlagModel {
        match self {
            SubmissionError::NoSubmission => FlagModel::NoSubmission,
            SubmissionError::InvalidSubmission => FlagModel::InvalidSubmission,
            SubmissionError::InvalidZip => FlagModel::InvalidZip,
            SubmissionError::InvalidFormat => FlagModel::InvalidFormat,
            SubmissionError::PlagiarismDetected(a, b, s) => FlagModel::PlagiarismDetected(a@, b@, *s as nat),
            SubmissionError::ZipError => FlagModel::ZipError,
            SubmissionError::Late => FlagModel::Late,
            SubmissionError::EmptyFile(f) => FlagModel::EmptyFile(f@),
            SubmissionError::NoBeecrowd => FlagModel::NoBeecrowd,
            SubmissionError::NoBeecrowdSubmission => FlagModel::NoBeecrowdSubmission,
            SubmissionError::IncompleteBeecrowdSubmission => FlagModel::IncompleteBeecrowdSubmission,
            SubmissionError::IncompleteClassroomSubmission => FlagModel::IncompleteClassroomSubmission,
        }
    }
}

/// The values of a list of recorded conditions.
pub open spec fn flags_view(es: Seq<SubmissionError>) -> Seq<FlagModel> {
    es.map_values(|e: SubmissionError| e@)
}

/// One student's outcome: the student, free comments, the recorded
/// conditions, and the number of exercises handed in.
#[derive(Debug)]
pub struct SubmissionResult {
    pub student: Student,
    pub comments: Vec<String>,
    pub errors: Vec<SubmissionError>,
    pub solved: i32,
}

/// The decimal digit for a value below ten.
pub open spec fn digit_char(d: nat) -> char {
    if d == 0 { '0' }
    else if d == 1 { '1' }
    else if d == 2 { '2' }
    else if d == 3 { '3' }
    else if d == 4 { '4' }
    else if d == 5 { '5' }
    else if d == 6 { '6' }
    else if d == 7 { '7' }
    else if d == 8 { '8' }
    else { '9' }
}

/// The decimal digits of `n`.
pub open spec fn decimal(n: nat) -> Seq<char>
    decreases n,
{
    if n < 10 {
        seq![digit_char(n)]
    } else {
        decimal(n / 10).push(digit_char(n % 10))
    }
}

/// A score in millionths as a percentage with two decimals, rounded half up.
pub open spec fn percent_text(score: nat) -> Seq<char> {
    let h = (score + 50) / 100;
    decimal(h / 100) + "."@ + seq![digit_char((h % 100) / 10), digit_char(h % 10)]
}

/// The report text of a recorded condition.
pub open spec fn message_text(e: FlagModel) -> Seq<char> {
    match e {
        FlagModel::NoSubmission => "NO SUBMISSION"@,
        FlagModel::InvalidSubmission => "INVALID SUBMISSION"@,
        FlagModel::InvalidZip => "INVALID ZIP"@,
        FlagModel::InvalidFormat => "INVALID FORMAT"@,
        FlagModel::PlagiarismDetected(a, b, s) =>
            "PLAGIARISM DETECTED "@ + a + " WITH "@ + b + " ("@ + percent_text(s) + "%)"@,
        FlagModel::EmptyFile(f) => "EMPTY FILE "@ + f,
        FlagModel::ZipError => "ERROR WHILE EXTRACTING ZIP"@,
        FlagModel::Late => "LATE SUBMISSION"@,
        FlagModel::NoBeecrowd => "NOT LISTED IN BEECROWD CLASS"@,
        FlagModel::NoBeecrowdSubmission => "NO BEECROWD SUBMISSION"@,
        FlagModel::IncompleteBeecrowdSubmission => "INCOMPLETE BEECROWD SUBMISSION"@,
        FlagModel::IncompleteClassroomSubmission => "INCOMPLETE CLASSROOM SUBMISSION"@,
    }
}

fn digit_str(d: u64) -> (r: &'static str)
    requires
        d < 10,
    ensures
        r@ == seq![digit_char(d as nat)],
{
    proof {
        reveal_strlit("0");
        reveal_strlit("1");
        reveal_strlit("2");
        reveal_strlit("3");
        reveal_strlit("4");
        reveal_strlit("5");
        reveal_strlit("6");
        reveal_strlit("7");
        reveal_strlit("8");
        reveal_strlit("9");
    }
    if d == 0 { "0" }
    else if d == 1 { "1" }
    else if d == 2 { "2" }
    else if d == 3 { "3" }
    else if d == 4 { "4" }
    else if d == 5 { "5" }
    else if d == 6 { "6" }
    else if d == 7 { "7" }
    else if d == 8 { "8" }
    else { "9" }
}

/// The decimal digits of `n`.
pub fn decimal_text(n: u64) -> (r: String)
    ensures
        r@ == decimal(n as nat),
    decreases n,
{
    if n < 10 {
        <String as StringExecFns>::from_str(digit_str(n))
    } else {
        let mut s = decimal_text(n / 10);
        s.append(digit_str(n % 10));
        s
    }
}

/// A score in millionths as a percentage with two decimals, rounded half up.
pub fn percent_of(score: u64) -> (r: String)
    ensures
        r@ == percent_text(score as nat),
{
    let h = ((score as u128 + 50) / 100) as u64;
    let mut s = decimal_text(h / 100);
    s.append(".");
    s.append(digit_str((h % 100) / 10));
    s.append(digit_str(h % 10));
    proof {
        reveal_strlit(".");
        assert(s@ =~= percent_text(score as nat));
    }
    s
}

impl SubmissionError {
    /// The report text of this condition.
    pub fn message(&self) -> (r: String)
        ensures
            r@ == message_text(self@),
    {
        match self {
            SubmissionError::NoSubmission => "NO SUBMISSION".to_string(),
            SubmissionError::InvalidSubmission => "INVALID SUBMISSION".to_string(),
            SubmissionError::InvalidZip => "INVALID ZIP".to_string(),
            SubmissionError::InvalidFormat => "INVALID FORMAT".to_string(),
            SubmissionError::PlagiarismDetected(f1, f2, score) => {
                let mut s = "PLAGIARISM DETECTED ".to_string();
                s.append(f1.as_str());
                s.append(" WITH ");
                s.append(f2.as_str());
                s.append(" (");
                let p = percent_of(*score);
                s.append(p.as_str());
                s.append("%)");
                proof {
                    assert(s@ =~= message_text(self@));
                }
                s
            },
            SubmissionError::EmptyFile(f) => {
                let mut s = "EMPTY FILE ".to_string();
                s.append(f.as_str());
                s
            },
            SubmissionError::ZipError => "ERROR WHILE EXTRACTING ZIP".to_string(),
            SubmissionError::Late => "LATE SUBMISSION".to_string(),
            SubmissionError::NoBeecrowd => "NOT LISTED IN BEECROWD CLASS".to_string(),
            SubmissionError::NoBeecrowdSubmission => "NO BEECROWD SUBMISSION".to_string(),
            SubmissionError::IncompleteBeecrowdSubmission => "INCOMPLETE BEECROWD SUBMISSION".to_string(),
            SubmissionError::IncompleteClassroomSubmission => "INCOMPLETE CLASSROOM SUBMISSION".to_string(),
        }
    }
}

/// Texts joined with a separator.
pub open spec fn join_with(parts: Seq<Seq<char>>, sep: Seq<char>) -> Seq<char>
    decreases parts.len(),
{
    if parts.len() == 0 {
        Seq::empty()
    } else if parts.len() == 1 {
        parts[0]
    } else {
        join_with(parts.drop_last(), sep) + sep + parts.last()
    }
}

/// The comment column of a student's report line: the comments joined with
/// `, `, then, after a further `, ` where both are present, the messages of
/// the recorded conditions joined with line feeds.
pub open spec fn report_text(comments: Seq<Seq<char>>, messages: Seq<Seq<char>>) -> Seq<char> {
    let c = join_with(comments, ", "@);
    let e = join_with(messages, "\n"@);
    if e.len() == 0 {
        c
    } else if c.len() == 0 {
        e
    } else {
        c + ", "@ + e
    }
}

/// Texts joined with a separator.
pub fn join_texts(parts: &Vec<String>, sep: &str) -> (r: String)
    ensures
        r@ == join_with(parts@.map_values(|s: String| s@), sep@),
{
    let ghost pv = parts@.map_values(|s: String| s@);
    let mut out = String::new();
    let mut i: usize = 0;
    while i < parts.len()
        invariant
            i <= parts.len(),
            pv == parts@.map_values(|s: String| s@),
            out@ == join_with(pv.take(i as int), sep@),
        decreases parts.len() - i,
    {
        proof {
            assert(pv.take(i + 1).drop_last() =~= pv.take(i as int));
            assert(pv.take(i + 1).last() == parts@[i as int]@);
        }
        if i > 0 {
            out.append(sep);
        }
        out.append(parts[i].as_str());
        i = i + 1;
    }
    proof {
        assert(pv.take(parts.len() as int) =~= pv);
    }
    out
}

/// The messages of the recorded conditions, in order.
pub open spec fn messages_of(es: Seq<SubmissionError>) -> Seq<Seq<char>> {
    es.map_values(|e: SubmissionError| message_text(e@))
}

/// The comment column of a student's report line.
pub fn report_comments(result: &SubmissionResult) -> (r: String)
    ensures
        r@ == report_text(result.comments@.map_values(|s: String| s@), messages_of(result.errors@)),
{
    let comments = join_texts(&result.comments, ", ");
    let mut messages: Vec<String> = Vec::new();
    let mut i: usize = 0;
    while i < result.errors.len()
        invariant
            i <= result.errors.len(),
            messages.len() == i,
            messages@.map_values(|s: String| s@) == messages_of(result.errors@).take(i as int),
        decreases result.errors.len() - i,
    {
        let ghost before = messages@;
        let m = result.errors[i].message();
        let ghost mv = m;
        messages.push(m);
        proof {
            assert(messages@ == before.push(mv));
            assert(mv@ == message_text(result.errors@[i as int]@));
            assert(messages@[i as int]@ == messages_of(result.errors@)[i as int]);
            assert forall|k: int| 0 <= k < i implies messages@[k]@ == messages_of(result.errors@)[k] by {
                assert(messages@[k] == before[k]);
                assert(before.map_values(|s: String| s@)[k] == messages_of(result.errors@).take(i as int)[k]);
            }
            assert(messages@.map_values(|s: String| s@) =~= messages_of(result.errors@).take(i + 1));
        }
        i = i + 1;
    }
    proof {
        assert(messages_of(result.errors@).take(result.errors.len() as int) =~= messages_of(result.errors@));
    }
    let errors = join_texts(&messages, "\n");
    let mut out = comments;
    if errors.as_str().unicode_len() > 0 {
        if out.as_str().unicode_len() > 0 {
            out.append(", ");
        } else {
            return errors;
        }
        out.append(errors.as_str());
    }
    out
}

} // verus!
