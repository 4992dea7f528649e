use vstd::prelude::*;
use crate::text::{is_whitespace, unicode_whitespace};

verus! {

/// Block comments, shortest match, across lines.
pub const BLOCK_COMMENT: &'static str = "(?s)/\\*.*?\\*/";

/// Line comments, to the end of the line.
pub const LINE_COMMENT: &'static str = "//.*";

/// Type aliases, up to the first semicolon.
pub const TYPE_ALIAS: &'static str = "typedef .*?;";

/// Macro definitions, to the end of the line.
pub const MACRO_DEFINITION: &'static str = "#define .*";

/// `text` with every match of the regular expression `pattern` removed.
pub uninterp spec fn regex_erased(pattern: Seq<char>, text: Seq<char>) -> Seq<char>;

/// The pieces of `text` between line feeds; there is one more piece than
/// there are line feeds.
pub open spec fn line_pieces(text: Seq<char>) -> Seq<Seq<char>>
    decreases text.len(),
{
    if text.len() == 0 {
        seq![Seq::empty()]
    } else if text.last() == '\n' {
        line_pieces(text.drop_last()).push(Seq::empty())
    } else {
        let p = line_pieces(text.drop_last());
        p.update(p.len() - 1, p.last().push(text.last()))
    }
}

/// A line ended by a line feed loses a carriage return before it.
pub open spec fn without_carriage_return(l: Seq<char>) -> Seq<char> {
    if l.len() > 0 && l.last() == '\r' { l.drop_last() } else { l }
}

/// The lines of `text`, as `str::lines` splits it: at each line feed, with a
/// carriage return just before a line feed dropped; the last line, where it
/// has no line feed, is kept unless it is empty.
pub open spec fn lines_of(text: Seq<char>) -> Seq<Seq<char>> {
    let p = line_pieces(text);
    let ended = p.drop_last().map_values(|l: Seq<char>| without_carriage_return(l));
    if p.last().len() == 0 { ended } else { ended.push(p.last()) }
}

/// The patterns the normaliser erases.
pub open spec fn erased_pattern(pattern: Seq<char>) -> bool {
    pattern == BLOCK_COMMENT@ || pattern == LINE_COMMENT@ || pattern == TYPE_ALIAS@ || pattern
        == MACRO_DEFINITION@
}

/// Relies on regex::Regex::new and Regex::replace_all: compiles `pattern`,
/// one of the normaliser's valid patterns, and replaces every leftmost-first,
/// non-overlapping match in `text` with nothing. The result depends on the
/// pattern and the text alone.
#[verifier::external_body]
fn erase_matches(pattern: &str, text: &str) -> (r: String)
    requires
        erased_pattern(pattern@),
    ensures
        r@ == regex_erased(pattern@, text@),
{
    let re = regex::Regex::new(pattern).expect("the pattern is valid");
    re.replace_all(text, "").into_owned()
}

/// Relies on str::lines: the lines of the text, split at line feeds, with a
/// carriage return before a line feed dropped, and a last line without line
/// feed only where it is not empty.
#[verifier::external_body]
fn split_lines(text: &str) -> (r: Vec<String>)
    ensures
        r@.map_values(|l: String| l@) == lines_of(text@),
{
    text.lines().map(String::from).collect()
}

/// A preprocessor line: its first character that is not white space is `#`.
pub open spec fn directive_line(l: Seq<char>) -> bool {
    exists|k: int|
        0 <= k < l.len() && l[k] == '#' && forall|p: int| 0 <= p < k ==> unicode_whitespace(#[trigger] l[p])
}

/// The lines that are not preprocessor lines, in order.
pub open spec fn kept_lines(ls: Seq<Seq<char>>) -> Seq<Seq<char>>
    decreases ls.len(),
{
    if ls.len() == 0 {
        Seq::empty()
    } else if directive_line(ls.last()) {
        kept_lines(ls.drop_last())
    } else {
        kept_lines(ls.drop_last()).push(ls.last())
    }
}

/// Lines joined with line feeds.
pub open spec fn join_lines(ls: Seq<Seq<char>>) -> Seq<char>
    decreases ls.len(),
{
    if ls.len() == 0 {
        Seq::empty()
    } else if ls.len() == 1 {
        ls[0]
    } else {
        join_lines(ls.drop_last()) + "\n"@ + ls.last()
    }
}

/// The text without its preprocessor lines.
pub open spec fn without_directives(text: Seq<char>) -> Seq<char> {
    join_lines(kept_lines(lines_of(text)))
}

/// The text without comments.
pub open spec fn without_comments(text: Seq<char>) -> Seq<char> {
    regex_erased(LINE_COMMENT@, regex_erased(BLOCK_COMMENT@, text))
}

/// The normalised text: comments, preprocessor lines, type aliases and
/// macro definitions removed.
pub open spec fn normalized(text: Seq<char>) -> Seq<char> {
    regex_erased(MACRO_DEFINITION@, regex_erased(TYPE_ALIAS@, without_directives(without_comments(text))))
}

/// Whether a line is a preprocessor line.
pub fn is_directive(l: &str) -> (r: bool)
    ensures
        r == directive_line(l@),
{
    let n = l.unicode_len();
    let mut k: usize = 0;
    while k < n
        invariant
            k <= n,
            n == l@.len(),
            forall|p: int| 0 <= p < k ==> unicode_whitespace(#[trigger] l@[p]),
            forall|p: int| 0 <= p < k ==> l@[p] != '#',
        decreases n - k,
    {
        let c = l.get_char(k);
        if c == '#' {
            return true;
        }
        if !is_whitespace(c) {
            proof {
                assert forall|j: int| 0 <= j < l@.len() && l@[j] == '#' implies !(forall|p: int|
                    0 <= p < j ==> unicode_whitespace(#[trigger] l@[p])) by {
                    if j > k {
                        assert(!unicode_whitespace(l@[k as int]));
                    }
                }
            }
            return false;
        }
        k = k + 1;
    }
    false
}

/// Removes block and line comments.
pub fn remove_comments(code: &str) -> (r: String)
    ensures
        r@ == without_comments(code@),
{
    let blockless = erase_matches(BLOCK_COMMENT, code);
    erase_matches(LINE_COMMENT, blockless.as_str())
}

/// Removes every line whose first character that is not white space is `#`.
pub fn remove_hashtags(code: &str) -> (r: String)
    ensures
        r@ == without_directives(code@),
{
    let lines = split_lines(code);
    let ghost lv = lines@.map_values(|l: String| l@);
    let mut out = String::new();
    let mut any = false;
    let mut i: usize = 0;
    while i < lines.len()
        invariant
            i <= lines.len(),
            lv == lines@.map_values(|l: String| l@),
            out@ == join_lines(kept_lines(lv.take(i as int))),
            any == (kept_lines(lv.take(i as int)).len() > 0),
        decreases lines.len() - i,
    {
        proof {
            assert(lv.take(i + 1).drop_last() =~= lv.take(i as int));
            assert(lv.take(i + 1).last() == lines@[i as int]@);
            reveal_strlit("\n");
        }
        if !is_directive(lines[i].as_str()) {
            proof {
                let ks = kept_lines(lv.take(i as int));
                assert(ks.push(lines@[i as int]@).drop_last() =~= ks);
                if ks.len() == 0 {
                    assert(ks.push(lines@[i as int]@) =~= seq![lines@[i as int]@]);
                }
            }
            if any {
                out.append("\n");
            }
            out.append(lines[i].as_str());
            any = true;
        }
        i = i + 1;
    }
    proof {
        assert(lv.take(lines.len() as int) =~= lv);
    }
    out
}

/// The normalised source: comments, preprocessor lines, type aliases and
/// macro definitions removed.
pub fn preprocess_code(code: &str) -> (r: String)
    ensures
        r@ == normalized(code@),
{
    let uncommented = remove_comments(code);
    let plain = remove_hashtags(uncommented.as_str());
    let unaliased = erase_matches(TYPE_ALIAS, plain.as_str());
    erase_matches(MACRO_DEFINITION, unaliased.as_str())
}

} // verus!
