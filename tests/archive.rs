use subgrader::archive::{extracted_file_name, is_macos_metadata};

#[test]
fn extracted_names() {
    assert_eq!(extracted_file_name("Q1_main.c", "Maria"), Some("q1_maria.c".to_string()));
    assert_eq!(extracted_file_name("src/lista/q12.c", "joao"), Some("q12_joao.c".to_string()));
    assert_eq!(extracted_file_name("main.c", "Ana"), Some("unknown-number_ana.c".to_string()));
    assert_eq!(extracted_file_name("ex_q3_q4.c", "bia"), Some("q3_bia.c".to_string()));
}

#[test]
fn entries_that_are_not_extracted() {
    assert_eq!(extracted_file_name("__MACOSX/q1.c", "x"), None);
    assert_eq!(extracted_file_name("a/__MACOSX/._q1.c", "x"), None);
    assert_eq!(extracted_file_name("q1.txt", "x"), None);
    assert_eq!(extracted_file_name(".c", "x"), None);
    assert_eq!(extracted_file_name("dir/", "x"), None);
    assert_eq!(extracted_file_name("q1.cpp", "x"), None);
}

#[test]
fn macos_metadata_parts() {
    assert!(is_macos_metadata("__MACOSX"));
    assert!(is_macos_metadata("a/__MACOSX/b.c"));
    assert!(!is_macos_metadata("__MACOSXy/b.c"));
    assert!(!is_macos_metadata("a/x__MACOSX"));
    assert!(!is_macos_metadata(""));
}
