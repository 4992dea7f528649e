use subgrader::corpus::{scan_corpus, similar_pairs, CorpusEntry, SourceFile};
use subgrader::analysis::analyze_code;
use subgrader::models::{Name, Student, UserProfile};
use subgrader::naming::student_of_file;
use subgrader::report::{SubmissionError, SubmissionResult};

fn student(email: &str) -> Student {
    Student {
        user_id: format!("id-{email}"),
        profile: UserProfile {
            id: format!("p-{email}"),
            email_address: email.to_string(),
            name: Name { full_name: email.to_uppercase() },
        },
    }
}

fn record(email: &str) -> SubmissionResult {
    SubmissionResult { student: student(email), comments: vec![], errors: vec![], solved: 0 }
}

fn file(owner: &str, name: &str, content: &str) -> SourceFile {
    SourceFile { owner: owner.to_string(), name: name.to_string(), content: content.to_string() }
}

const PROGRAM: &str = "int main() {\n  int n = 0;\n  for (int i = 0; i < 5; i++) { n = n + i; }\n  printf(\"%d\", n);\n  return 0;\n}\n";
const OTHER: &str = "double area(double r) {\n  if (r < 0) { return -1; }\n  return r * r * 3.14;\n}\n";

fn plagiarism(e: &SubmissionError) -> Option<(String, String)> {
    match e {
        SubmissionError::PlagiarismDetected(a, b, _) => Some((a.clone(), b.clone())),
        _ => None,
    }
}

#[test]
fn identical_pair_is_flagged_on_both_sides() {
    let files = vec![
        file("ana", "q1_ana.c", PROGRAM),
        file("bia", "q1_bia.c", PROGRAM),
        file("caio", "q1_caio.c", OTHER),
    ];
    let mut results = vec![record("ana"), record("bia"), record("caio")];
    let scan = scan_corpus(&files, 90, &mut results);
    assert_eq!(scan.flagged.len(), 1);
    assert_eq!(scan.flagged[0].first, 0);
    assert_eq!(scan.flagged[0].second, 1);
    assert_eq!(scan.flagged[0].score, 1000000);
    assert_eq!(results[0].errors.len(), 1);
    assert_eq!(plagiarism(&results[0].errors[0]), Some(("q1_ana.c".to_string(), "q1_bia.c".to_string())));
    assert_eq!(results[1].errors.len(), 1);
    assert_eq!(plagiarism(&results[1].errors[0]), Some(("q1_bia.c".to_string(), "q1_ana.c".to_string())));
    assert!(results[2].errors.is_empty());
}

#[test]
fn whitespace_file_gets_one_empty_flag() {
    let files = vec![
        file("ana", "q1_ana.c", PROGRAM),
        file("bia", "q1_bia.c", " \n\t\n"),
        file("caio", "q1_caio.c", PROGRAM),
    ];
    let mut results = vec![record("ana"), record("bia"), record("caio")];
    let scan = scan_corpus(&files, 0, &mut results);
    assert_eq!(scan.entries.len(), 2);
    assert!(scan.entries.iter().all(|e| e.name != "q1_bia.c"));
    assert_eq!(scan.flagged.len(), 1);
    assert_eq!(results[1].errors.len(), 1);
    assert!(matches!(&results[1].errors[0], SubmissionError::EmptyFile(f) if f == "q1_bia.c"));
    assert!(results[0].errors.iter().all(|e| !matches!(e, SubmissionError::EmptyFile(_))));
}

#[test]
fn rescanning_flags_the_same_pairs() {
    let files = vec![
        file("ana", "q1_ana.c", PROGRAM),
        file("bia", "q1_bia.c", PROGRAM),
        file("caio", "q1_caio.c", OTHER),
        file("ana", "q2_ana.c", OTHER),
    ];
    let mut first = vec![record("ana"), record("bia"), record("caio")];
    let mut second = vec![record("ana"), record("bia"), record("caio")];
    let a = scan_corpus(&files, 50, &mut first);
    let b = scan_corpus(&files, 50, &mut second);
    let pairs = |s: &subgrader::corpus::CorpusScan| {
        s.flagged.iter().map(|p| (p.first, p.second, p.score)).collect::<Vec<_>>()
    };
    assert_eq!(pairs(&a), pairs(&b));
    assert!(pairs(&a).contains(&(0, 1, 1000000)));
    assert!(pairs(&a).contains(&(2, 3, 1000000)));
    for k in 0..3 {
        let x: Vec<_> = first[k].errors.iter().map(|e| e.message()).collect();
        let y: Vec<_> = second[k].errors.iter().map(|e| e.message()).collect();
        assert_eq!(x, y);
    }
}

#[test]
fn threshold_is_inclusive_and_in_percent() {
    let entries: Vec<CorpusEntry> = ["int f(int a) { return a + 1; }", "int g(int b) { if (b) { return 0; } return b; }"]
        .iter()
        .enumerate()
        .map(|(i, c)| CorpusEntry { owner: format!("s{i}"), name: format!("q1_s{i}.c"), analysis: analyze_code(c).unwrap() })
        .collect();
    let all = similar_pairs(&entries, 0);
    assert_eq!(all.len(), 1);
    let score = all[0].score;
    let exact = (score * 100 / 1000000) as u32;
    assert_eq!(similar_pairs(&entries, exact).len(), 1);
    assert_eq!(similar_pairs(&entries, exact + 1).len(), 0);
    assert_eq!(similar_pairs(&entries, 101).len(), 0);
}

#[test]
fn owner_without_record_is_skipped() {
    let files = vec![file("ana", "q1_ana.c", PROGRAM), file("zed", "q1_zed.c", PROGRAM)];
    let mut results = vec![record("ana")];
    let scan = scan_corpus(&files, 100, &mut results);
    assert_eq!(scan.flagged.len(), 1);
    assert_eq!(results.len(), 1);
    assert_eq!(results[0].errors.len(), 1);
}

#[test]
fn student_key_from_file_name() {
    assert_eq!(student_of_file("q1_maria.c"), Some("maria".to_string()));
    assert_eq!(student_of_file("q12_joao.silva.c"), Some("joao.silva".to_string()));
    assert_eq!(student_of_file("q1_ana_b.c"), Some("a".to_string()));
    assert_eq!(student_of_file("nounderscore.c"), None);
    assert_eq!(student_of_file("q1_x"), None);
}
