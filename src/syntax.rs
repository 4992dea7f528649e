use vstd::prelude::*;
use vstd::string::StringExecFns;
use crate::score::MAX_TOKENS;
use crate::text::text_is;
use crate::tree::{SyntaxNode, NodeModel, nodes_view};

verus! {

/// The syntax tree type of tree_sitter, carried opaquely.
#[verifier::external_type_specification]
#[verifier::external_body]
pub struct ExTree(tree_sitter::Tree);

/// The number of nodes of the syntax tree of C source text, the root included.
pub uninterp spec fn c_node_count(source: Seq<char>) -> nat;

/// The kind of the node at a pre-order index of the syntax tree of C source text.
pub uninterp spec fn c_node_kind(source: Seq<char>, index: nat) -> Seq<char>;

/// The depth below the root of the node at a pre-order index.
pub uninterp spec fn c_node_depth(source: Seq<char>, index: nat) -> nat;

/// The name of the field of its parent that holds the node at a pre-order index.
pub uninterp spec fn c_node_field(source: Seq<char>, index: nat) -> Option<Seq<char>>;

/// Whether the node at a pre-order index is a named node.
pub uninterp spec fn c_node_named(source: Seq<char>, index: nat) -> bool;

/// The source text of the node at a pre-order index.
pub uninterp spec fn c_node_text(source: Seq<char>, index: nat) -> Option<Seq<char>>;

/// One node of a pre-order listing of a syntax tree, as the parser gives it.
#[derive(Debug, Clone)]
pub struct RawNode {
    pub kind: String,
    pub depth: usize,
    pub field: Option<String>,
    pub named: bool,
}

/// The value of a listed node, texts held as characters.
pub struct RawModel {
    pub kind: Seq<char>,
    pub depth: nat,
    pub field: Option<Seq<char>>,
    pub named: bool,
}

impl View for RawNode {
    type V = RawModel;

    open spec fn view(&self) -> RawModel {
        RawModel {
            kind: self.kind@,
            depth: self.depth as nat,
            field: match self.field {
                Some(f) => Some(f@),
                None => None,
            },
            named: self.named,
        }
    }
}

/// The values of a listing.
pub open spec fn raw_view(rs: Seq<RawNode>) -> Seq<RawModel> {
    rs.map_values(|n: RawNode| n@)
}

/// The pre-order listing of the syntax tree of C source text, as parsed.
pub open spec fn c_raw(source: Seq<char>) -> Seq<RawModel> {
    Seq::new(
        c_node_count(source),
        |k: int|
            RawModel {
                kind: c_node_kind(source, k as nat),
                depth: c_node_depth(source, k as nat),
                field: c_node_field(source, k as nat),
                named: c_node_named(source, k as nat),
            },
    )
}

/// The first child of node `i`, at position `j` or later, that sits in field
/// `field` (or, for `None`, that is a named node); -1 when there is none.
pub open spec fn find_child(r: Seq<RawModel>, i: int, j: int, field: Option<Seq<char>>) -> int
    decreases r.len() - j,
{
    if j < 0 || i < 0 || i >= r.len() || j >= r.len() || r[j].depth <= r[i].depth {
        -1
    } else if r[j].depth == r[i].depth + 1 && match field {
        Some(f) => r[j].field == Some(f),
        None => r[j].named,
    } {
        j
    } else {
        find_child(r, i, j + 1, field)
    }
}

/// The node that names the function defined at `i`: in the declarator, the
/// identifier field or else the first named child; -1 when there is none.
pub open spec fn name_node(r: Seq<RawModel>, i: int) -> int {
    let d = find_child(r, i, i + 1, Some("declarator"@));
    if d < 0 {
        -1
    } else {
        let id = find_child(r, d, d + 1, Some("identifier"@));
        if id >= 0 { id } else { find_child(r, d, d + 1, None) }
    }
}

/// The node at `i` with what the tokeniser reads of it: the operator text of
/// a binary expression, the name of a function definition (`<unnamed>` where
/// its text cannot be read) and the text of a number.
pub open spec fn resolved_node(source: Seq<char>, r: Seq<RawModel>, i: int) -> NodeModel {
    let n = r[i];
    let op = find_child(r, i, i + 1, Some("operator"@));
    let nm = name_node(r, i);
    NodeModel {
        kind: n.kind,
        depth: n.depth,
        operator: if n.kind == "binary_expression"@ && op >= 0 { c_node_text(source, op as nat) } else { None },
        name: if n.kind == "function_definition"@ && nm >= 0 {
            Some(
                match c_node_text(source, nm as nat) {
                    Some(t) => t,
                    None => "<unnamed>"@,
                },
            )
        } else {
            None
        },
        text: if n.kind == "number_literal"@ { c_node_text(source, i as nat) } else { None },
    }
}

/// The pre-order listing of the syntax tree of C source text, resolved.
pub open spec fn c_syntax(source: Seq<char>) -> Seq<NodeModel> {
    let r = c_raw(source);
    Seq::new(r.len(), |k: int| resolved_node(source, r, k))
}

/// A syntax tree together with the source text it was parsed from.
pub struct ParsedSource {
    tree: tree_sitter::Tree,
    source: String,
}

impl ParsedSource {
    /// The source text the tree was parsed from.
    pub closed spec fn source_view(&self) -> Seq<char> {
        self.source@
    }
}

/// Relies on tree_sitter::Parser::set_language and Parser::parse with the C
/// grammar of tree_sitter_c: the syntax tree of `source`, kept with it. The
/// grammar's language version lies in the range the parser accepts, and
/// `parse` gives up only on a timeout or a cancellation flag, neither set here.
#[verifier::external_body]
fn parse_c(source: &str) -> (r: ParsedSource)
    ensures
        r.source_view() == source@,
{
    let mut parser = tree_sitter::Parser::new();
    parser.set_language(&tree_sitter_c::LANGUAGE.into()).expect("the C grammar loads");
    let tree = parser.parse(source, None).expect("no timeout or cancellation is set");
    ParsedSource { tree, source: source.to_string() }
}

/// Relies on tree_sitter::Node::descendant_count: the number of nodes of the
/// tree, the root included.
#[verifier::external_body]
fn node_count(p: &ParsedSource) -> (r: usize)
    ensures
        r == c_node_count(p.source_view()),
{
    p.tree.root_node().descendant_count()
}

/// Relies on tree_sitter::TreeCursor::goto_descendant and Node::kind: the
/// kind of the node at a pre-order index of the tree.
#[verifier::external_body]
fn node_kind_at(p: &ParsedSource, index: usize) -> (r: String)
    requires
        index < c_node_count(p.source_view()),
    ensures
        r@ == c_node_kind(p.source_view(), index as nat),
{
    let mut cursor = p.tree.walk();
    cursor.goto_descendant(index);
    cursor.node().kind().to_string()
}

/// Relies on tree_sitter::TreeCursor::goto_descendant and TreeCursor::depth:
/// the depth below the root of the node at a pre-order index of the tree.
#[verifier::external_body]
fn node_depth_at(p: &ParsedSource, index: usize) -> (r: usize)
    requires
        index < c_node_count(p.source_view()),
    ensures
        r == c_node_depth(p.source_view(), index as nat),
{
    let mut cursor = p.tree.walk();
    cursor.goto_descendant(index);
    cursor.depth() as usize
}

/// Relies on tree_sitter::TreeCursor::goto_descendant and
/// TreeCursor::field_name: the field of its parent that holds the node at a
/// pre-order index of the tree.
#[verifier::external_body]
fn node_field_at(p: &ParsedSource, index: usize) -> (r: Option<String>)
    requires
        index < c_node_count(p.source_view()),
    ensures
        match r {
            Some(f) => c_node_field(p.source_view(), index as nat) == Some(f@),
            None => c_node_field(p.source_view(), index as nat) is None,
        },
{
    let mut cursor = p.tree.walk();
    cursor.goto_descendant(index);
    cursor.field_name().map(String::from)
}

/// Relies on tree_sitter::TreeCursor::goto_descendant and Node::is_named:
/// whether the node at a pre-order index of the tree is named.
#[verifier::external_body]
fn node_named_at(p: &ParsedSource, index: usize) -> (r: bool)
    requires
        index < c_node_count(p.source_view()),
    ensures
        r == c_node_named(p.source_view(), index as nat),
{
    let mut cursor = p.tree.walk();
    cursor.goto_descendant(index);
    cursor.node().is_named()
}

/// Relies on tree_sitter::TreeCursor::goto_descendant and Node::utf8_text:
/// the source text of the node at a pre-order index of the tree.
#[verifier::external_body]
fn node_text_at(p: &ParsedSource, index: usize) -> (r: Option<String>)
    requires
        index < c_node_count(p.source_view()),
    ensures
        match r {
            Some(t) => c_node_text(p.source_view(), index as nat) == Some(t@),
            None => c_node_text(p.source_view(), index as nat) is None,
        },
{
    let mut cursor = p.tree.walk();
    cursor.goto_descendant(index);
    cursor.node().utf8_text(p.source.as_bytes()).ok().map(String::from)
}

/// The pre-order listing of a parsed tree.
fn raw_listing(p: &ParsedSource, count: usize) -> (r: Vec<RawNode>)
    requires
        count == c_node_count(p.source_view()),
    ensures
        r.len() == count,
        raw_view(r@) == c_raw(p.source_view()),
{
    let ghost src = p.source_view();
    let mut nodes: Vec<RawNode> = Vec::new();
    let mut k: usize = 0;
    while k < count
        invariant
            k <= count,
            count == c_node_count(src),
            src == p.source_view(),
            nodes.len() == k,
            forall|q: int| 0 <= q < k ==> (#[trigger] nodes@[q])@ == c_raw(src)[q],
        decreases count - k,
    {
        let kind = node_kind_at(p, k);
        let depth = node_depth_at(p, k);
        let field = node_field_at(p, k);
        let named = node_named_at(p, k);
        nodes.push(RawNode { kind, depth, field, named });
        k = k + 1;
    }
    proof {
        assert(raw_view(nodes@) =~= c_raw(src));
    }
    nodes
}

/// The first child of node `i` that sits in field `field` (or, for `None`,
/// that is a named node).
pub fn find_child_of(r: &Vec<RawNode>, i: usize, field: Option<&str>) -> (k: Option<usize>)
    requires
        i < r.len(),
    ensures
        match k {
            Some(j) => j < r.len() && find_child(raw_view(r@), i as int, i + 1, match field {
                Some(f) => Some(f@),
                None => None,
            }) == j as int,
            None => find_child(raw_view(r@), i as int, i + 1, match field {
                Some(f) => Some(f@),
                None => None,
            }) == -1,
        },
{
    let ghost rv = raw_view(r@);
    let ghost fv = match field {
        Some(f) => Some(f@),
        None => None,
    };
    let mut j: usize = i + 1;
    while j < r.len() && r[j].depth > r[i].depth
        invariant
            i < j <= r.len(),
            rv == raw_view(r@),
            fv == match field {
                Some(f) => Some(f@),
                None => None::<Seq<char>>,
            },
            find_child(rv, i as int, i + 1, fv) == find_child(rv, i as int, j as int, fv),
        decreases r.len() - j,
    {
        let here = match field {
            Some(f) => match &r[j].field {
                Some(g) => text_is(g.as_str(), f),
                None => false,
            },
            None => r[j].named,
        };
        if r[j].depth - 1 == r[i].depth && here {
            return Some(j);
        }
        j = j + 1;
    }
    None
}

/// The pre-order listing of the syntax tree of C source text, resolved;
/// `None` exactly where the tree has more than `MAX_TOKENS` nodes.
pub fn syntax_nodes(source: &str) -> (r: Option<Vec<SyntaxNode>>)
    ensures
        r is Some <==> c_node_count(source@) <= MAX_TOKENS,
        r matches Some(ns) ==> ns.len() <= MAX_TOKENS && nodes_view(ns@) == c_syntax(source@),
{
    let parsed = parse_c(source);
    let count = node_count(&parsed);
    if count > MAX_TOKENS {
        return None;
    }
    let ghost src = source@;
    let raw = raw_listing(&parsed, count);
    let ghost rv = raw_view(raw@);
    let mut nodes: Vec<SyntaxNode> = Vec::new();
    let mut k: usize = 0;
    while k < count
        invariant
            k <= count <= MAX_TOKENS,
            count == c_node_count(src),
            parsed.source_view() == src,
            raw.len() == count,
            rv == raw_view(raw@),
            rv == c_raw(src),
            nodes.len() == k,
            forall|q: int| 0 <= q < k ==> (#[trigger] nodes@[q])@ == resolved_node(src, rv, q),
        decreases count - k,
    {
        let kind = raw[k].kind.as_str();
        let mut operator: Option<String> = None;
        let mut name: Option<String> = None;
        let mut text: Option<String> = None;
        if text_is(kind, "binary_expression") {
            match find_child_of(&raw, k, Some("operator")) {
                Some(j) => operator = node_text_at(&parsed, j),
                None => {},
            }
        }
        if text_is(kind, "function_definition") {
            match find_child_of(&raw, k, Some("declarator")) {
                Some(d) => {
                    let named = match find_child_of(&raw, d, Some("identifier")) {
                        Some(x) => Some(x),
                        None => find_child_of(&raw, d, None),
                    };
                    match named {
                        Some(x) => {
                            name = match node_text_at(&parsed, x) {
                                Some(t) => Some(t),
                                None => Some("<unnamed>".to_string()),
                            };
                        },
                        None => {},
                    }
                },
                None => {},
            }
        }
        if text_is(kind, "number_literal") {
            text = node_text_at(&parsed, k);
        }
        let node = SyntaxNode {
            kind: <String as StringExecFns>::from_str(kind),
            depth: raw[k].depth,
            operator,
            name,
            text,
        };
        assert(node@ == resolved_node(src, rv, k as int));
        nodes.push(node);
        k = k + 1;
    }
    proof {
        assert(nodes_view(nodes@) =~= c_syntax(src));
    }
    Some(nodes)
}

} // verus!
