use vstd::prelude::*;
use crate::text::text_is;

verus! {

/// A question number in a file name: `q` or `Q` and then digits.
pub const QUESTION_NUMBER: &'static str = "[qQ]\\d+";

/// The directory that macOS archivers add beside the archived files.
pub const MACOS_METADATA: &'static str = "__MACOSX";

/// The leftmost-first match of the regular expression `pattern` in `text`.
pub uninterp spec fn regex_first_match(pattern: Seq<char>, text: Seq<char>) -> Option<Seq<char>>;

/// `text` in lower case, as Unicode maps it.
pub uninterp spec fn lower_of(text: Seq<char>) -> Seq<char>;

/// Relies on regex::Regex::new and Regex::find: compiles `pattern`, the
/// valid question-number pattern, and gives the text of its leftmost-first
/// match in `text`, if any. The result depends on the pattern and the text
/// alone.
#[verifier::external_body]
fn first_match(pattern: &str, text: &str) -> (r: Option<String>)
    requires
        pattern@ == QUESTION_NUMBER@,
    ensures
        match r {
            Some(s) => regex_first_match(pattern@, text@) == Some(s@),
            None => regex_first_match(pattern@, text@) is None,
        },
{
    let re = regex::Regex::new(pattern).expect("the pattern is valid");
    match re.find(text) {
        Some(m) => Some(m.as_str().to_string()),
        None => None,
    }
}

/// Relies on str::to_lowercase: the lower-case mapping of Unicode, a function
/// of the text alone.
#[verifier::external_body]
fn lowercase(text: &str) -> (r: String)
    ensures
        r@ == lower_of(text@),
{
    text.to_lowercase()
}

/// Whether one `/`-separated part of `path` is the macOS metadata directory.
pub open spec fn in_macos_metadata(path: Seq<char>) -> bool {
    exists|i: int|
        0 <= i && i + 8 <= path.len() && (i == 0 || path[i - 1] == '/') && (i + 8 == path.len() || path[i
            + 8] == '/') && #[trigger] path.subrange(i, i + 8) == MACOS_METADATA@
}

/// The position of the last `/` of `path`, or -1.
pub open spec fn last_slash(path: Seq<char>, upto: int) -> int
    decreases upto,
{
    if upto <= 0 {
        -1
    } else if path[upto - 1] == '/' {
        upto - 1
    } else {
        last_slash(path, upto - 1)
    }
}

/// The last `/`-separated part of `path`.
pub open spec fn base_name(path: Seq<char>) -> Seq<char> {
    path.subrange(last_slash(path, path.len() as int) + 1, path.len() as int)
}

/// A C source file name: it ends in `.c` and has a stem before that.
pub open spec fn c_source_name(name: Seq<char>) -> bool {
    name.len() >= 3 && name[name.len() - 2] == '.' && name[name.len() - 1] == 'c'
}

/// The name under which an archived source file is extracted:
/// `<question>_<archive stem>.c`, both in lower case, the question being the
/// first `q` or `Q` and digits in the file's name, or `unknown-number`.
/// `None` for a file that is not C source or lies in the macOS metadata.
pub open spec fn extracted_name(entry: Seq<char>, archive_stem: Seq<char>) -> Option<Seq<char>> {
    let base = base_name(entry);
    if in_macos_metadata(entry) || !c_source_name(base) {
        None
    } else {
        let q = match regex_first_match(QUESTION_NUMBER@, base) {
            Some(m) => m,
            None => "unknown-number"@,
        };
        Some(lower_of(q) + "_"@ + lower_of(archive_stem) + ".c"@)
    }
}

/// Whether a part of the path is the macOS metadata directory.
pub fn is_macos_metadata(path: &str) -> (r: bool)
    ensures
        r == in_macos_metadata(path@),
{
    let n = path.unicode_len();
    if n < 8 {
        return false;
    }
    let mut i: usize = 0;
    while i <= n - 8
        invariant
            n == path@.len(),
            n >= 8,
            i <= n - 7,
            forall|k: int| #![trigger path@.subrange(k, k + 8)] 0 <= k < i ==> !(0 <= k && k + 8 <= path@.len() && (k == 0
                || path@[k - 1] == '/') && (k + 8 == path@.len() || path@[k + 8] == '/') && path@.subrange(k, k + 8)
                == MACOS_METADATA@),
        decreases n - i,
    {
        let starts = i == 0 || path.get_char(i - 1) == '/';
        let ends = i + 8 == n || path.get_char(i + 8) == '/';
        if starts && ends && text_is(path.substring_char(i, i + 8), MACOS_METADATA) {
            return true;
        }
        i = i + 1;
    }
    false
}

/// The position just past the last `/` of `path`, or zero.
fn base_start(path: &str) -> (r: usize)
    ensures
        r as int == last_slash(path@, path@.len() as int) + 1,
        r <= path@.len(),
{
    let mut k: usize = path.unicode_len();
    while k > 0 && path.get_char(k - 1) != '/'
        invariant
            k <= path@.len(),
            last_slash(path@, path@.len() as int) == last_slash(path@, k as int),
        decreases k,
    {
        k = k - 1;
    }
    k
}

/// The name under which an archived file is extracted, or `None` for a file
/// that is not extracted.
pub fn extracted_file_name(entry: &str, archive_stem: &str) -> (r: Option<String>)
    ensures
        match r {
            Some(s) => extracted_name(entry@, archive_stem@) == Some(s@),
            None => extracted_name(entry@, archive_stem@) is None,
        },
{
    if is_macos_metadata(entry) {
        return None;
    }
    let n = entry.unicode_len();
    let start = base_start(entry);
    let base = entry.substring_char(start, n);
    let bn = base.unicode_len();
    if !(bn >= 3 && base.get_char(bn - 2) == '.' && base.get_char(bn - 1) == 'c') {
        return None;
    }
    let found = first_match(QUESTION_NUMBER, base);
    let q = match found {
        Some(m) => lowercase(m.as_str()),
        None => lowercase("unknown-number"),
    };
    let mut name = q;
    name.append("_");
    let stem = lowercase(archive_stem);
    name.append(stem.as_str());
    name.append(".c");
    Some(name)
}

} // verus!
