use vstd::prelude::*;
use vstd::string::StringExecFns;

verus! {

/// The first position at or after `from` that holds `c`, or the length.
pub open spec fn find_char(s: Seq<char>, c: char, from: int) -> int
    decreases s.len() - from,
{
    if from >= s.len() {
        s.len() as int
    } else if s[from] == c {
        from
    } else {
        find_char(s, c, from + 1)
    }
}

/// The student key of a submitted file named `<question>_<key>.c`: the
/// second `_`-separated part of the name without its last two characters;
/// `None` where the name has no `_` or that part is shorter than two.
pub open spec fn student_key(name: Seq<char>) -> Option<Seq<char>> {
    let u = find_char(name, '_', 0);
    if u >= name.len() {
        None
    } else {
        let e = find_char(name, '_', u + 1);
        if e - (u + 1) < 2 {
            None
        } else {
            Some(name.subrange(u + 1, e - 2))
        }
    }
}

fn find_char_from(s: &str, c: char, from: usize) -> (r: usize)
    requires
        from <= s@.len(),
    ensures
        r as int == find_char(s@, c, from as int),
        from <= r <= s@.len(),
{
    let n = s.unicode_len();
    let mut k: usize = from;
    while k < n && s.get_char(k) != c
        invariant
            from <= k <= n,
            n == s@.len(),
            find_char(s@, c, from as int) == find_char(s@, c, k as int),
        decreases n - k,
    {
        k = k + 1;
    }
    k
}

/// The student key of a submitted file named `<question>_<key>.c`.
pub fn student_of_file(file_name: &str) -> (r: Option<String>)
    ensures
        match r {
            Some(k) => student_key(file_name@) == Some(k@),
            None => student_key(file_name@) is None,
        },
{
    let n = file_name.unicode_len();
    let u = find_char_from(file_name, '_', 0);
    if u >= n {
        return None;
    }
    let e = find_char_from(file_name, '_', u + 1);
    if e - (u + 1) < 2 {
        return None;
    }
    let key = file_name.substring_char(u + 1, e - 2);
    Some(<String as StringExecFns>::from_str(key))
}

} // verus!
