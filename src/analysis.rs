use vstd::prelude::*;
use crate::token::{Token, tokens_view};
use crate::score::{SCALE, MAX_TOKENS};
use crate::similarity::{combined_score, combined_similarity, function_score, per_function_similarity, table_fits, table_view, lemma_combined_symmetric, lemma_function_score_symmetric};
use crate::text::{blank, is_blank};
use crate::normalize::{preprocess_code, normalized};
use crate::tree::{unique_names, SyntaxNode, NodeModel, nodes_view, tokens_of, functions_of, extract_tokens, extract_functions};
use crate::syntax::{c_syntax, c_node_count, syntax_nodes};

verus! {

/// The analysis of one source file: the tokens of the whole file and, for
/// each named function, the tokens of its definition.
#[derive(Debug, Clone)]
pub struct AnalyzedFile {
    pub file_tokens: Vec<Token>,
    pub functions: Vec<(String, Vec<Token>)>,
}

impl AnalyzedFile {
    /// Every token sequence is short enough for the metrics, and no two
    /// functions share a name.
    pub open spec fn wf(&self) -> bool {
        self.file_tokens.len() <= MAX_TOKENS && table_fits(self.functions@) && unique_names(table_view(self.functions@))
    }

    /// This analysis is the one of the syntax tree listed by `ns`.
    pub open spec fn analyses(&self, ns: Seq<NodeModel>) -> bool {
        tokens_view(self.file_tokens@) == tokens_of(ns) && table_view(self.functions@) == functions_of(ns, ns.len() as int)
    }
}

/// The score of a pair of analysed files in millionths: the mean of the
/// whole-file combined similarity and the per-function similarity.
pub open spec fn analyzed_score(a: AnalyzedFile, b: AnalyzedFile) -> nat {
    (combined_score(tokens_view(a.file_tokens@), tokens_view(b.file_tokens@)) + function_score(
        table_view(a.functions@),
        table_view(b.functions@),
    )) / 2
}

/// The score of a pair of files does not depend on which comes first.
pub proof fn lemma_analyzed_score_symmetric(a: AnalyzedFile, b: AnalyzedFile)
    ensures
        analyzed_score(a, b) == analyzed_score(b, a),
{
    lemma_combined_symmetric(tokens_view(a.file_tokens@), tokens_view(b.file_tokens@));
    lemma_function_score_symmetric(table_view(a.functions@), table_view(b.functions@));
}

/// The analysis of a pre-order listing of a syntax tree.
pub fn analyze_tree(ns: &Vec<SyntaxNode>) -> (r: AnalyzedFile)
    requires
        ns.len() <= MAX_TOKENS,
    ensures
        r.wf(),
        r.analyses(nodes_view(ns@)),
{
    let file_tokens = extract_tokens(ns, 0, ns.len());
    let functions = extract_functions(ns);
    proof {
        assert(nodes_view(ns@).subrange(0, ns.len() as int) =~= nodes_view(ns@));
    }
    AnalyzedFile { file_tokens, functions }
}

/// A file that can be analysed: it is not blank, and the syntax tree of its
/// normalised text has at most `MAX_TOKENS` nodes.
pub open spec fn analysable(code: Seq<char>) -> bool {
    !blank(code) && c_node_count(normalized(code)) <= MAX_TOKENS
}

/// Normalises, parses and tokenises one source file: the analysis of the
/// syntax tree of its normalised text; `None` for a blank file or one too
/// large to compare.
pub fn analyze_code(code: &str) -> (r: Option<AnalyzedFile>)
    ensures
        r is Some <==> analysable(code@),
        r matches Some(f) ==> f.wf() && f.analyses(c_syntax(normalized(code@))),
{
    if is_blank(code) {
        return None;
    }
    let code_clean = preprocess_code(code);
    let nodes = syntax_nodes(code_clean.as_str())?;
    Some(analyze_tree(&nodes))
}

/// The score of a pair of analysed files, in millionths.
pub fn compare_two_codes_cached(analyzed1: &AnalyzedFile, analyzed2: &AnalyzedFile) -> (r: u64)
    requires
        analyzed1.wf(),
        analyzed2.wf(),
    ensures
        r == analyzed_score(*analyzed1, *analyzed2),
        r <= SCALE,
{
    let sim_file = combined_similarity(&analyzed1.file_tokens, &analyzed2.file_tokens);
    let sim_functions = per_function_similarity(&analyzed1.functions, &analyzed2.functions);
    (sim_file + sim_functions) / 2
}

/// The score of two files in millionths, from the pre-order listings of
/// their syntax trees.
pub open spec fn syntax_score(n1: Seq<NodeModel>, n2: Seq<NodeModel>) -> nat {
    (combined_score(tokens_of(n1), tokens_of(n2)) + function_score(
        functions_of(n1, n1.len() as int),
        functions_of(n2, n2.len() as int),
    )) / 2
}

/// Analyses and scores two source files; `None` exactly where either cannot
/// be analysed (it is blank, or too large).
pub fn compare_two_codes(code1: &str, code2: &str) -> (r: Option<u64>)
    ensures
        r is Some <==> analysable(code1@) && analysable(code2@),
        r matches Some(s) ==> s <= SCALE && s == syntax_score(c_syntax(normalized(code1@)), c_syntax(normalized(code2@))),
{
    let a = analyze_code(code1)?;
    let b = analyze_code(code2)?;
    Some(compare_two_codes_cached(&a, &b))
}

} // verus!
