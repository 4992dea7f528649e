use subgrader::beecrowd::{apply_beecrowd_report, check_beecrowd, BeecrowdRecord};
use subgrader::client::ClassroomClient;
use subgrader::models::{
    Attachment, AssignmentSubmission, DriveFile, Name, Student, StudentSubmission, StudentSubmissions,
    SubmissionState, UserProfile,
};
use subgrader::report::{percent_of, report_comments, SubmissionError, SubmissionResult};
use subgrader::submissions::{downloaded_submission_result, is_valid_submission, is_zip_archive, validate_submissions};

fn student(user: &str, email: &str) -> Student {
    Student {
        user_id: user.to_string(),
        profile: UserProfile {
            id: user.to_string(),
            email_address: email.to_string(),
            name: Name { full_name: "Someone".to_string() },
        },
    }
}

fn result_for(email: &str, solved: i32) -> SubmissionResult {
    SubmissionResult { student: student(email, email), comments: vec![], errors: vec![], solved }
}

fn messages(r: &SubmissionResult) -> Vec<String> {
    r.errors.iter().map(|e| e.message()).collect()
}

#[test]
fn every_message() {
    let cases = vec![
        (SubmissionError::NoSubmission, "NO SUBMISSION"),
        (SubmissionError::InvalidSubmission, "INVALID SUBMISSION"),
        (SubmissionError::InvalidZip, "INVALID ZIP"),
        (SubmissionError::InvalidFormat, "INVALID FORMAT"),
        (SubmissionError::ZipError, "ERROR WHILE EXTRACTING ZIP"),
        (SubmissionError::Late, "LATE SUBMISSION"),
        (SubmissionError::NoBeecrowd, "NOT LISTED IN BEECROWD CLASS"),
        (SubmissionError::NoBeecrowdSubmission, "NO BEECROWD SUBMISSION"),
        (SubmissionError::IncompleteBeecrowdSubmission, "INCOMPLETE BEECROWD SUBMISSION"),
        (SubmissionError::IncompleteClassroomSubmission, "INCOMPLETE CLASSROOM SUBMISSION"),
        (SubmissionError::EmptyFile("q1_a.c".to_string()), "EMPTY FILE q1_a.c"),
        (
            SubmissionError::PlagiarismDetected("q1_a.c".to_string(), "q1_b.c".to_string(), 912345),
            "PLAGIARISM DETECTED q1_a.c WITH q1_b.c (91.23%)",
        ),
    ];
    for (e, text) in cases {
        assert_eq!(e.message(), text);
    }
}

#[test]
fn percentages_round_half_up() {
    assert_eq!(percent_of(1000000), "100.00");
    assert_eq!(percent_of(0), "0.00");
    assert_eq!(percent_of(123450), "12.35");
    assert_eq!(percent_of(123449), "12.34");
    assert_eq!(percent_of(5), "0.00");
}

#[test]
fn report_comment_column() {
    let mut r = result_for("a@x", 0);
    assert_eq!(report_comments(&r), "");
    r.comments = vec!["good".to_string(), "tidy".to_string()];
    assert_eq!(report_comments(&r), "good, tidy");
    r.errors = vec![SubmissionError::Late, SubmissionError::InvalidZip];
    assert_eq!(report_comments(&r), "good, tidy, LATE SUBMISSION\nINVALID ZIP");
    r.comments = vec![];
    assert_eq!(report_comments(&r), "LATE SUBMISSION\nINVALID ZIP");
}

#[test]
fn beecrowd_rules() {
    let rec = BeecrowdRecord { email: "a@x".to_string(), exercises: 3, solved: 0 };
    let mut r = result_for("a@x", 1);
    check_beecrowd(&mut r, Some(&rec));
    assert_eq!(messages(&r), vec!["NO BEECROWD SUBMISSION", "INCOMPLETE BEECROWD SUBMISSION", "INCOMPLETE CLASSROOM SUBMISSION"]);
    let mut r = result_for("a@x", 3);
    check_beecrowd(&mut r, Some(&BeecrowdRecord { email: "a@x".to_string(), exercises: 3, solved: 3 }));
    assert!(r.errors.is_empty());
    let mut r = result_for("a@x", 3);
    check_beecrowd(&mut r, None);
    assert_eq!(messages(&r), vec!["NOT LISTED IN BEECROWD CLASS"]);
}

#[test]
fn beecrowd_report_uses_last_line_per_address() {
    let records = vec![
        BeecrowdRecord { email: "a@x".to_string(), exercises: 2, solved: 0 },
        BeecrowdRecord { email: "a@x".to_string(), exercises: 2, solved: 2 },
    ];
    let mut results = vec![result_for("a@x", 2), result_for("b@x", 2)];
    apply_beecrowd_report(&mut results, &records);
    assert!(results[0].errors.is_empty());
    assert_eq!(messages(&results[1]), vec!["NOT LISTED IN BEECROWD CLASS"]);
}

fn submission(user: &str, state: SubmissionState, attachments: Option<Vec<Attachment>>) -> StudentSubmission {
    StudentSubmission {
        user_id: user.to_string(),
        late: None,
        state,
        assignment_submission: Some(AssignmentSubmission { attachments }),
    }
}

fn attachment() -> Attachment {
    Attachment { drive_file: DriveFile { id: "f".to_string(), title: "t.zip".to_string(), drive_link: "l".to_string() } }
}

#[test]
fn submissions_are_validated() {
    let students = vec![student("u1", "a@x"), student("u2", "b@x"), student("u3", "c@x")];
    let subs = StudentSubmissions {
        student_submissions: vec![
            submission("u1", SubmissionState::TurnedIn, Some(vec![attachment()])),
            submission("u2", SubmissionState::TurnedIn, None),
            submission("u3", SubmissionState::Created, Some(vec![attachment()])),
        ],
    };
    assert!(is_valid_submission(&subs.student_submissions[0]));
    assert!(!is_valid_submission(&subs.student_submissions[1]));
    let mut results = vec![];
    let kept = validate_submissions(&students, subs, &mut results);
    assert_eq!(kept.len(), 1);
    assert_eq!(kept[0].user_id, "u1");
    assert_eq!(results.len(), 2);
    assert_eq!(results[0].student.profile.email_address, "b@x");
    assert_eq!(messages(&results[0]), vec!["NO SUBMISSION"]);
    assert_eq!(results[1].student.profile.email_address, "c@x");
    assert_eq!(messages(&results[1]), vec!["NO SUBMISSION"]);
}

#[test]
fn download_outcomes() {
    let r = downloaded_submission_result(student("u", "a@x"), true, Some(4), false);
    assert_eq!(r.solved, 4);
    assert!(r.errors.is_empty());
    let r = downloaded_submission_result(student("u", "a@x"), true, None, true);
    assert_eq!(r.solved, 0);
    assert_eq!(messages(&r), vec!["ERROR WHILE EXTRACTING ZIP", "LATE SUBMISSION"]);
    let r = downloaded_submission_result(student("u", "a@x"), false, Some(2), false);
    assert_eq!(r.solved, 0);
    assert_eq!(messages(&r), vec!["INVALID ZIP"]);
}

#[test]
fn zip_signature() {
    assert!(is_zip_archive(b"PK\x03\x04rest"));
    assert!(!is_zip_archive(b"PK\x03"));
    assert!(!is_zip_archive(b"%PDF-1.4"));
}

#[test]
fn client_token() {
    let mut c = ClassroomClient::new();
    assert_eq!(c.token(), None);
    c.set_token("SECRET-REDACTED".to_string());
    assert_eq!(c.token(), Some("SECRET-REDACTED"));
    assert_eq!(ClassroomClient::default().token(), None);
}
