use vstd::prelude::*;
use vstd::string::{StrSliceExecFns, StringExecFns};
use crate::token::{Token, TokenModel, tokens_view};
use crate::similarity::{table_view, table_fits};
use crate::score::MAX_TOKENS;
use crate::text::text_is;

verus! {

/// One node of a concrete syntax tree, in a pre-order listing of the tree.
/// `depth` is the distance from the root; `operator` is the text of a binary
/// expression's operator, `name` the name of a function definition, and
/// `text` the text of a number literal, where present.
#[derive(Debug, Clone)]
pub struct SyntaxNode {
    pub kind: String,
    pub depth: usize,
    pub operator: Option<String>,
    pub name: Option<String>,
    pub text: Option<String>,
}

/// The value of a syntax-tree node, texts held as characters.
pub struct NodeModel {
    pub kind: Seq<char>,
    pub depth: nat,
    pub operator: Option<Seq<char>>,
    pub name: Option<Seq<char>>,
    pub text: Option<Seq<char>>,
}

/// The characters of an optional text.
pub open spec fn opt_text(o: Option<String>) -> Option<Seq<char>> {
    match o {
        Some(s) => Some(s@),
        None => None,
    }
}

impl View for SyntaxNode {
    type V = NodeModel;

    open spec fn view(&self) -> NodeModel {
        NodeModel {
            kind: self.kind@,
            depth: self.depth as nat,
            operator: opt_text(self.operator),
            name: opt_text(self.name),
            text: opt_text(self.text),
        }
    }
}

/// The values of a node listing.
pub open spec fn nodes_view(ns: Seq<SyntaxNode>) -> Seq<NodeModel> {
    ns.map_values(|n: SyntaxNode| n@)
}

/// The category of a binary operator.
pub open spec fn operator_token(op: Seq<char>) -> TokenModel {
    if op == "+"@ || op == "-"@ || op == "*"@ || op == "/"@ || op == "%"@ {
        TokenModel::ArithOp
    } else if op == "&&"@ || op == "||"@ || op == "!"@ {
        TokenModel::LogicOp
    } else if op == "<"@ || op == ">"@ || op == "<="@ || op == ">="@ || op == "=="@ || op == "!="@ {
        TokenModel::RelOp
    } else {
        TokenModel::Other(op)
    }
}

/// A hexadecimal number: it starts with `0x` or `0X`.
pub open spec fn hex_text(t: Seq<char>) -> bool {
    t.len() >= 2 && t[0] == '0' && (t[1] == 'x' || t[1] == 'X')
}

/// A floating-point number: it has a point, or an exponent (`e` or `E`, or
/// `p` or `P` for a hexadecimal number).
pub open spec fn float_text(t: Seq<char>) -> bool {
    t.contains('.') || if hex_text(t) {
        t.contains('p') || t.contains('P')
    } else {
        t.contains('e') || t.contains('E')
    }
}

/// The token a node contributes, if any.
pub open spec fn node_token(n: NodeModel) -> Option<TokenModel> {
    if n.kind == "identifier"@ {
        Some(TokenModel::Var)
    } else if n.kind == "function_definition"@ || n.kind == "call_expression"@ {
        Some(TokenModel::Func)
    } else if n.kind == "number_literal"@ {
        match n.text {
            Some(t) if float_text(t) => Some(TokenModel::ConstFloat),
            _ => Some(TokenModel::ConstInt),
        }
    } else if n.kind == "string_literal"@ {
        Some(TokenModel::ConstStr)
    } else if n.kind == "for_statement"@ || n.kind == "while_statement"@ || n.kind == "do_statement"@ {
        Some(TokenModel::Loop)
    } else if n.kind == "if_statement"@ {
        Some(TokenModel::If)
    } else if n.kind == "binary_expression"@ {
        match n.operator {
            Some(op) => Some(operator_token(op)),
            None => None,
        }
    } else {
        None
    }
}

/// The tokens of a pre-order node listing, in order.
pub open spec fn tokens_of(ns: Seq<NodeModel>) -> Seq<TokenModel>
    decreases ns.len(),
{
    if ns.len() == 0 {
        Seq::empty()
    } else {
        tokens_of(ns.drop_last()) + match node_token(ns.last()) {
            Some(t) => seq![t],
            None => Seq::empty(),
        }
    }
}

/// The index just past the subtree rooted at `i`, searching from `k`.
pub open spec fn subtree_end_from(ns: Seq<NodeModel>, i: int, k: int) -> int
    decreases ns.len() - k,
{
    if k >= ns.len() {
        ns.len() as int
    } else if ns[k].depth <= ns[i].depth {
        k
    } else {
        subtree_end_from(ns, i, k + 1)
    }
}

/// The index just past the subtree rooted at `i`: the first later node that
/// is not deeper than `i`, or the end of the listing.
pub open spec fn subtree_end(ns: Seq<NodeModel>, i: int) -> int {
    subtree_end_from(ns, i, i + 1)
}

/// The first position of `name` in a function table, if any.
pub open spec fn name_index(t: Seq<(Seq<char>, Seq<TokenModel>)>, name: Seq<char>) -> int
    decreases t.len(),
{
    if t.len() == 0 {
        -1
    } else if name_index(t.drop_last(), name) >= 0 {
        name_index(t.drop_last(), name)
    } else if t.last().0 == name {
        t.len() - 1
    } else {
        -1
    }
}

/// No two functions of the table share a name.
pub open spec fn unique_names(t: Seq<(Seq<char>, Seq<TokenModel>)>) -> bool {
    forall|i: int, j: int| 0 <= i < t.len() && 0 <= j < t.len() && i != j ==> (#[trigger] t[i]).0 != (#[trigger] t[j]).0
}

proof fn lemma_name_index_absent(t: Seq<(Seq<char>, Seq<TokenModel>)>, name: Seq<char>, p: int)
    requires
        name_index(t, name) == -1,
        0 <= p < t.len(),
    ensures
        t[p].0 != name,
    decreases t.len(),
{
    if p < t.len() - 1 {
        lemma_name_index_absent(t.drop_last(), name, p);
        assert(t.drop_last()[p] == t[p]);
    }
}

proof fn lemma_name_index_found(t: Seq<(Seq<char>, Seq<TokenModel>)>, name: Seq<char>)
    requires
        name_index(t, name) >= 0,
    ensures
        name_index(t, name) < t.len(),
        t[name_index(t, name)].0 == name,
    decreases t.len(),
{
    if name_index(t.drop_last(), name) >= 0 {
        lemma_name_index_found(t.drop_last(), name);
    }
}

/// Records a function in a table: a later definition of a name replaces the
/// tokens of the earlier one.
pub open spec fn put_function(
    t: Seq<(Seq<char>, Seq<TokenModel>)>,
    name: Seq<char>,
    toks: Seq<TokenModel>,
) -> Seq<(Seq<char>, Seq<TokenModel>)> {
    let k = name_index(t, name);
    if k >= 0 {
        t.update(k, (name, toks))
    } else {
        t.push((name, toks))
    }
}

/// The function table of the first `k` nodes of a listing: each named
/// function definition, with the tokens of its whole subtree.
pub open spec fn functions_of(ns: Seq<NodeModel>, k: int) -> Seq<(Seq<char>, Seq<TokenModel>)>
    decreases k,
{
    if k <= 0 {
        Seq::empty()
    } else {
        let t = functions_of(ns, k - 1);
        let n = ns[k - 1];
        if n.kind == "function_definition"@ && n.name is Some {
            put_function(t, n.name->0, tokens_of(ns.subrange(k - 1, subtree_end(ns, k - 1))))
        } else {
            t
        }
    }
}

/// Each node contributes at most one token.
pub proof fn lemma_tokens_of_len(ns: Seq<NodeModel>)
    ensures
        tokens_of(ns).len() <= ns.len(),
    decreases ns.len(),
{
    if ns.len() > 0 {
        lemma_tokens_of_len(ns.drop_last());
    }
}

fn contains_char(t: &str, c: char) -> (r: bool)
    ensures
        r == t@.contains(c),
{
    let n = t.unicode_len();
    let mut i: usize = 0;
    while i < n
        invariant
            i <= n,
            n == t@.len(),
            forall|k: int| 0 <= k < i ==> t@[k] != c,
        decreases n - i,
    {
        if t.get_char(i) == c {
            assert(t@[i as int] == c);
            return true;
        }
        i = i + 1;
    }
    false
}

/// Whether the text of a number is that of a floating-point number.
pub fn is_float_text(t: &str) -> (r: bool)
    ensures
        r == float_text(t@),
{
    let n = t.unicode_len();
    let hex = n >= 2 && t.get_char(0) == '0' && (t.get_char(1) == 'x' || t.get_char(1) == 'X');
    if contains_char(t, '.') {
        true
    } else if hex {
        contains_char(t, 'p') || contains_char(t, 'P')
    } else {
        contains_char(t, 'e') || contains_char(t, 'E')
    }
}

/// The token of a binary operator.
pub fn operator_token_of(op: &str) -> (r: Token)
    ensures
        r@ == operator_token(op@),
{
    if text_is(op, "+") || text_is(op, "-") || text_is(op, "*") || text_is(op, "/") || text_is(op, "%") {
        Token::ArithOp
    } else if text_is(op, "&&") || text_is(op, "||") || text_is(op, "!") {
        Token::LogicOp
    } else if text_is(op, "<") || text_is(op, ">") || text_is(op, "<=") || text_is(op, ">=")
        || text_is(op, "==") || text_is(op, "!=") {
        Token::RelOp
    } else {
        Token::Other(<String as StringExecFns>::from_str(op))
    }
}

/// The token a node contributes, if any.
pub fn token_of_node(n: &SyntaxNode) -> (r: Option<Token>)
    ensures
        match r {
            Some(t) => node_token(n@) == Some(t@),
            None => node_token(n@) is None,
        },
{
    let k = n.kind.as_str();
    if text_is(k, "identifier") {
        Some(Token::Var)
    } else if text_is(k, "function_definition") || text_is(k, "call_expression") {
        Some(Token::Func)
    } else if text_is(k, "number_literal") {
        match &n.text {
            Some(t) => if is_float_text(t.as_str()) {
                Some(Token::ConstFloat)
            } else {
                Some(Token::ConstInt)
            },
            None => Some(Token::ConstInt),
        }
    } else if text_is(k, "string_literal") {
        Some(Token::ConstStr)
    } else if text_is(k, "for_statement") || text_is(k, "while_statement") || text_is(k, "do_statement") {
        Some(Token::Loop)
    } else if text_is(k, "if_statement") {
        Some(Token::If)
    } else if text_is(k, "binary_expression") {
        match &n.operator {
            Some(op) => Some(operator_token_of(op.as_str())),
            None => None,
        }
    } else {
        None
    }
}

/// The tokens of the nodes `lo..hi` of a pre-order listing, in order.
pub fn extract_tokens(ns: &Vec<SyntaxNode>, lo: usize, hi: usize) -> (r: Vec<Token>)
    requires
        lo <= hi <= ns.len(),
    ensures
        tokens_view(r@) == tokens_of(nodes_view(ns@).subrange(lo as int, hi as int)),
        r.len() <= hi - lo,
{
    let ghost v = nodes_view(ns@);
    let mut out: Vec<Token> = Vec::new();
    let mut k: usize = lo;
    while k < hi
        invariant
            lo <= k <= hi <= ns.len(),
            v == nodes_view(ns@),
            tokens_view(out@) == tokens_of(v.subrange(lo as int, k as int)),
            out.len() <= k - lo,
        decreases hi - k,
    {
        let ghost before = out@;
        let t = token_of_node(&ns[k]);
        proof {
            assert(v.subrange(lo as int, k + 1).drop_last() =~= v.subrange(lo as int, k as int));
            assert(v.subrange(lo as int, k + 1).last() == ns@[k as int]@);
        }
        match t {
            Some(t) => {
                out.push(t);
                proof {
                    assert(tokens_view(out@) =~= tokens_view(before) + seq![t@]);
                }
            },
            None => {
                proof {
                    assert(tokens_view(before) + Seq::<TokenModel>::empty() =~= tokens_view(before));
                }
            },
        }
        k = k + 1;
    }
    out
}

proof fn lemma_name_index(t: Seq<(Seq<char>, Seq<TokenModel>)>, name: Seq<char>, k: int)
    requires
        0 <= k <= t.len(),
        forall|p: int| 0 <= p < k ==> (#[trigger] t[p]).0 != name,
        k < t.len() ==> t[k].0 == name,
    ensures
        name_index(t, name) == if k < t.len() { k } else { -1 },
    decreases t.len(),
{
    if t.len() > 0 {
        if k < t.len() - 1 {
            lemma_name_index(t.drop_last(), name, k);
        } else {
            lemma_name_index(t.drop_last(), name, t.len() - 1);
        }
    }
}

/// The first position of `name` in a function table.
fn find_function(table: &Vec<(String, Vec<Token>)>, name: &String) -> (r: Option<usize>)
    ensures
        match r {
            Some(k) => k < table.len() && name_index(table_view(table@), name@) == k as int,
            None => name_index(table_view(table@), name@) == -1,
        },
{
    let ghost tv = table_view(table@);
    let mut k: usize = 0;
    while k < table.len()
        invariant
            k <= table.len(),
            tv == table_view(table@),
            forall|p: int| 0 <= p < k ==> (#[trigger] tv[p]).0 != name@,
        decreases table.len() - k,
    {
        if <String as PartialEq>::eq(&table[k].0, name) {
            proof {
                lemma_name_index(tv, name@, k as int);
            }
            return Some(k);
        }
        k = k + 1;
    }
    proof {
        lemma_name_index(tv, name@, k as int);
    }
    None
}

/// The index just past the subtree rooted at node `i`.
pub fn subtree_end_of(ns: &Vec<SyntaxNode>, i: usize) -> (r: usize)
    requires
        i < ns.len(),
    ensures
        r as int == subtree_end(nodes_view(ns@), i as int),
        i < r <= ns.len(),
{
    let ghost v = nodes_view(ns@);
    let mut k: usize = i + 1;
    while k < ns.len() && ns[k].depth > ns[i].depth
        invariant
            i < k <= ns.len(),
            v == nodes_view(ns@),
            subtree_end_from(v, i as int, i + 1) == subtree_end_from(v, i as int, k as int),
        decreases ns.len() - k,
    {
        k = k + 1;
    }
    k
}

/// The named function definitions of a pre-order listing, each with the
/// tokens of its whole subtree; a later definition of a name replaces the
/// tokens of an earlier one.
pub fn extract_functions(ns: &Vec<SyntaxNode>) -> (r: Vec<(String, Vec<Token>)>)
    requires
        ns.len() <= MAX_TOKENS,
    ensures
        table_view(r@) == functions_of(nodes_view(ns@), ns.len() as int),
        table_fits(r@),
        unique_names(table_view(r@)),
{
    let ghost v = nodes_view(ns@);
    let mut table: Vec<(String, Vec<Token>)> = Vec::new();
    proof {
        assert(table_view(table@) =~= Seq::<(Seq<char>, Seq<TokenModel>)>::empty());
    }
    let mut k: usize = 0;
    while k < ns.len()
        invariant
            k <= ns.len(),
            ns.len() <= MAX_TOKENS,
            v == nodes_view(ns@),
            table_view(table@) == functions_of(v, k as int),
            table_fits(table@),
            unique_names(table_view(table@)),
        decreases ns.len() - k,
    {
        let ghost tv = table_view(table@);
        let n = &ns[k];
        if text_is(n.kind.as_str(), "function_definition") {
            match &n.name {
                Some(name) => {
                    let end = subtree_end_of(ns, k);
                    let toks = extract_tokens(ns, k, end);
                    let entry_name = <String as StringExecFns>::from_str(name.as_str());
                    match find_function(&table, name) {
                        Some(idx) => {
                            table[idx] = (entry_name, toks);
                            proof {
                                assert(table_view(table@) =~= tv.update(idx as int, (name@, tokens_view(toks@))));
                                lemma_name_index_found(tv, name@);
                            }
                        },
                        None => {
                            table.push((entry_name, toks));
                            proof {
                                assert(table_view(table@) =~= tv.push((name@, tokens_view(toks@))));
                                assert forall|p: int| 0 <= p < tv.len() implies tv[p].0 != name@ by {
                                    lemma_name_index_absent(tv, name@, p);
                                }
                            }
                        },
                    }
                },
                None => {},
            }
        }
        k = k + 1;
    }
    table
}

} // verus!
