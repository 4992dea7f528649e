use subgrader::analysis::{analyze_code, compare_two_codes, compare_two_codes_cached};
use subgrader::normalize::{preprocess_code, remove_comments, remove_hashtags};
use subgrader::score::SCALE;
use subgrader::text::is_blank;
use subgrader::token::Token;

#[test]
fn comments_are_removed() {
    let r = remove_comments("int a; /* block */ int b; // line\nint c;");
    assert_eq!(r, "int a;  int b; \nint c;");
    let r = remove_comments("int a; /* one\ntwo */ int b;");
    assert_eq!(r, "int a;  int b;");
}

#[test]
fn preprocessor_lines_are_removed() {
    assert_eq!(remove_hashtags("#include <stdio.h>\nint a;\n  #define N 3\nint b;"), "int a;\nint b;");
    assert_eq!(remove_hashtags(""), "");
    assert_eq!(remove_hashtags("x # y\n"), "x # y");
    assert_eq!(remove_hashtags("a\r\n#x\r\n\nb\r"), "a\n\nb\r");
}

#[test]
fn preprocessing_drops_aliases() {
    let r = preprocess_code("typedef int num;\nnum x; // c\n");
    assert_eq!(r, "\nnum x; ");
}

#[test]
fn blank_texts() {
    assert!(is_blank(""));
    assert!(is_blank(" \n\t \r\n"));
    assert!(!is_blank("  x "));
    assert!(is_blank("\u{3000}\u{a0}\u{2028}\u{85}"));
    assert!(!is_blank("\u{200b}"));
}

#[test]
fn tokens_of_a_small_program() {
    let f = analyze_code("int main() { return a + 1; }").unwrap();
    let expected = vec![Token::Func, Token::Var, Token::ArithOp, Token::Var, Token::ConstInt];
    assert_eq!(f.file_tokens, expected);
    assert_eq!(f.functions.len(), 1);
    assert_eq!(f.functions[0].0, "main");
    assert_eq!(f.functions[0].1, expected);
}

#[test]
fn number_literals_are_tokens() {
    let f = analyze_code("int f(){return 1+2;}").unwrap();
    let expected = vec![Token::Func, Token::Var, Token::ArithOp, Token::ConstInt, Token::ConstInt];
    assert_eq!(f.file_tokens, expected);
    assert_eq!(f.functions[0].1, expected);
    let g = analyze_code("double g(){return 1.5 * 2e3 - 0x1p2 + 0x1e + 7u;}").unwrap();
    let numbers: Vec<Token> = g
        .file_tokens
        .iter()
        .filter(|t| matches!(t, Token::ConstInt | Token::ConstFloat))
        .cloned()
        .collect();
    assert_eq!(numbers, vec![Token::ConstFloat, Token::ConstFloat, Token::ConstFloat, Token::ConstInt, Token::ConstInt]);
}

#[test]
fn function_names_through_declarators() {
    let f = analyze_code("char *copy(char *s) { return s; }\nstatic int twice(int x) { return x * 2; }").unwrap();
    let names: Vec<&str> = f.functions.iter().map(|(n, _)| n.as_str()).collect();
    assert_eq!(names, vec!["copy(char *s)", "twice"]);
}

#[test]
fn operators_and_statements() {
    let f = analyze_code("void f(int x) { if (x < 2 && x != 0) { while (x) { x = x << 1; } } }").unwrap();
    assert!(f.file_tokens.contains(&Token::If));
    assert!(f.file_tokens.contains(&Token::Loop));
    assert!(f.file_tokens.contains(&Token::RelOp));
    assert!(f.file_tokens.contains(&Token::LogicOp));
    assert!(f.file_tokens.contains(&Token::Other("<<".to_string())));
}

#[test]
fn later_definition_of_a_name_wins() {
    let f = analyze_code("int f() { return 1; }\nint g() { return 2; }\nint f() { return x; }").unwrap();
    assert_eq!(f.functions.len(), 2);
    assert_eq!(f.functions[0].0, "f");
    assert_eq!(f.functions[0].1, vec![Token::Func, Token::Var, Token::Var]);
    assert_eq!(f.functions[1].0, "g");
}

#[test]
fn blank_file_is_not_analysed() {
    assert!(analyze_code("   \n\t").is_none());
    assert!(compare_two_codes("", "int x;").is_none());
}

#[test]
fn variable_names_do_not_matter() {
    let a = "int main() {\n  int total = 0;\n  for (int i = 0; i < 10; i++) { total = total + i; }\n  return total;\n}\n";
    let b = "int main() {\n  int soma = 0;\n  for (int k = 0; k < 10; k++) { soma = soma + k; }\n  return soma;\n}\n";
    assert_eq!(compare_two_codes(a, b), Some(SCALE));
}

#[test]
fn unrelated_files_score_low() {
    let a = "int main() {\n  int i;\n  for (i = 0; i < 3; i++) { if (i > 1) { puts(\"x\"); } }\n  return 0;\n}\n";
    let b = "char *greeting = \"hello\";\n";
    let s = compare_two_codes(a, b).unwrap();
    assert!(s < 300000);
}

#[test]
fn cached_comparison_is_symmetric() {
    let a = analyze_code("int f(int x) { return x * 2; }").unwrap();
    let b = analyze_code("int g(int y) { if (y > 1) { return y; } return 0; }").unwrap();
    assert_eq!(compare_two_codes_cached(&a, &b), compare_two_codes_cached(&b, &a));
    assert_eq!(compare_two_codes_cached(&a, &a), SCALE);
}
