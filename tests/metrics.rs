use subgrader::cosine::weighted_cosine;
use subgrader::edit::{edit_similarity, render_labels};
use subgrader::jaccard::jaccard_similarity;
use subgrader::lcs::lcs_similarity;
use subgrader::score::SCALE;
use subgrader::similarity::{combined_similarity, per_function_similarity};
use subgrader::token::Token;

fn seq_a() -> Vec<Token> {
    vec![Token::Var, Token::Func]
}

fn seq_b() -> Vec<Token> {
    vec![Token::Var]
}

#[test]
fn token_labels() {
    assert_eq!(Token::If.as_str(), "If");
    assert_eq!(Token::Other("<<".to_string()).as_str(), "Other");
    assert_eq!(render_labels(&vec![Token::Var, Token::Loop, Token::RelOp]), "Var Loop RelOp");
    assert_eq!(render_labels(&vec![]), "");
}

#[test]
fn jaccard_of_two_empty_sequences_is_one() {
    assert_eq!(jaccard_similarity(&vec![], &vec![]), SCALE);
}

#[test]
fn jaccard_exact_value() {
    assert_eq!(jaccard_similarity(&seq_a(), &seq_b()), 500000);
    assert_eq!(jaccard_similarity(&seq_a(), &vec![]), 0);
    let a = vec![Token::Other("<<".to_string()), Token::Var];
    let b = vec![Token::Other(">>".to_string()), Token::Var];
    assert_eq!(jaccard_similarity(&a, &b), 333333);
}

#[test]
fn lcs_exact_value_and_bounds() {
    assert_eq!(lcs_similarity(&seq_a(), &seq_b()), 666666);
    assert_eq!(lcs_similarity(&seq_a(), &seq_a()), SCALE);
    assert_eq!(lcs_similarity(&seq_a(), &vec![]), 0);
    assert_eq!(lcs_similarity(&vec![], &vec![]), SCALE);
    let a = vec![Token::If, Token::Var, Token::Loop, Token::Var];
    let b = vec![Token::Var, Token::If, Token::Var];
    let r = lcs_similarity(&a, &b);
    assert_eq!(r, 571428);
    assert!(r <= SCALE);
}

#[test]
fn cosine_is_zero_when_a_side_is_empty() {
    assert_eq!(weighted_cosine(&vec![], &seq_a()), 0);
    assert_eq!(weighted_cosine(&seq_a(), &vec![]), 0);
    assert_eq!(weighted_cosine(&vec![], &vec![]), 0);
}

#[test]
fn cosine_exact_value() {
    // Weighted vectors (Var 0.5) and (Var 0.5, Func 1.5): 1 / sqrt(10).
    assert_eq!(weighted_cosine(&seq_b(), &seq_a()), 316227);
    assert_eq!(weighted_cosine(&seq_a(), &seq_a()), SCALE);
    let disjoint = vec![Token::Loop];
    assert_eq!(weighted_cosine(&seq_a(), &disjoint), 0);
}

#[test]
fn edit_similarity_exact_value() {
    // "Var" against "Var Func": five edits over eight characters.
    assert_eq!(edit_similarity(&seq_b(), &seq_a()), 375000);
    assert_eq!(edit_similarity(&vec![], &vec![]), SCALE);
    assert_eq!(edit_similarity(&seq_a(), &vec![]), 0);
}

#[test]
fn combined_exact_value() {
    // (4 * 375000 + 2 * 500000 + 2 * 666666 + 2 * 316227) / 10
    assert_eq!(combined_similarity(&seq_a(), &seq_b()), 446578);
}

#[test]
fn combined_identity() {
    let a = vec![Token::Func, Token::Var, Token::If, Token::RelOp, Token::Var, Token::ConstStr];
    assert_eq!(combined_similarity(&a, &a), SCALE);
    assert_eq!(combined_similarity(&seq_b(), &seq_b()), SCALE);
}

#[test]
fn combined_symmetric() {
    let a = vec![Token::Loop, Token::Var, Token::ArithOp, Token::Var];
    let b = vec![Token::Var, Token::If, Token::Var, Token::LogicOp, Token::Func];
    assert_eq!(combined_similarity(&a, &b), combined_similarity(&b, &a));
    assert_eq!(combined_similarity(&seq_a(), &seq_b()), combined_similarity(&seq_b(), &seq_a()));
}

#[test]
fn unrelated_sequences_score_low() {
    let a = vec![Token::Loop, Token::If, Token::Loop, Token::RelOp];
    let b = vec![Token::ConstStr, Token::ConstFloat];
    assert!(combined_similarity(&a, &b) < 300000);
}

#[test]
fn per_function_takes_the_best_pair() {
    let fa = vec![("f".to_string(), seq_a()), ("g".to_string(), vec![Token::Loop])];
    let fb = vec![("h".to_string(), seq_b()), ("k".to_string(), seq_a())];
    assert_eq!(per_function_similarity(&fa, &fb), SCALE);
    assert_eq!(per_function_similarity(&fa, &vec![]), 0);
    assert_eq!(per_function_similarity(&vec![], &fb), 0);
    let fc = vec![("h".to_string(), seq_b())];
    assert_eq!(per_function_similarity(&fa, &fc), 446578);
    assert_eq!(per_function_similarity(&fc, &fa), 446578);
}

#[test]
fn disjoint_categories_leave_only_edit() {
    let a = vec![Token::Other("<<".to_string())];
    let b = vec![Token::Other(">>".to_string())];
    assert_eq!(jaccard_similarity(&a, &b), 0);
    assert_eq!(lcs_similarity(&a, &b), 0);
    assert_eq!(weighted_cosine(&a, &b), 0);
    assert_eq!(edit_similarity(&a, &b), SCALE);
    assert_eq!(combined_similarity(&a, &b), 400000);
}
