//! Path decisions the helper has to make: the parent directory of the
//! executable it relaunches (the new process's working directory) and the
//! location of the log file.
//!
//! Paths are modelled as strings of characters in which `'/'` and `'\'`
//! both separate components.  The parent of a path is everything before its
//! last separator — the lone opening separator itself when the path is
//! root-anchored — and a path without a separator has no parent.

use vstd::prelude::*;

verus! {

/// Whether `c` separates path components.
pub open spec fn is_sep(c: char) -> bool {
    c == '/' || c == '\\'
}

/// The index of the last separator in `s`, or `-1` when `s` has none.
pub open spec fn last_sep(s: Seq<char>) -> int
    decreases s.len(),
{
    if s.len() == 0 {
        -1
    } else if is_sep(s[s.len() - 1]) {
        s.len() - 1
    } else {
        last_sep(s.drop_last())
    }
}

/// The parent directory of `s`, or `None` when `s` holds no separator.
pub open spec fn parent_view(s: Seq<char>) -> Option<Seq<char>> {
    let i = last_sep(s);
    if i < 0 {
        None
    } else if i == 0 {
        Some(s.subrange(0, 1))
    } else {
        Some(s.subrange(0, i))
    }
}

/// A separator-free sequence has no last separator.
proof fn lemma_last_sep_none(s: Seq<char>)
    requires
        forall|j: int| 0 <= j < s.len() ==> !is_sep(s[j]),
    ensures
        last_sep(s) == -1,
    decreases s.len(),
{
    if s.len() > 0 {
        lemma_last_sep_none(s.drop_last());
    }
}

/// A separator at `i` with none after it is the last one.
proof fn lemma_last_sep_at(s: Seq<char>, i: int)
    requires
        0 <= i < s.len(),
        is_sep(s[i]),
        forall|j: int| i < j < s.len() ==> !is_sep(s[j]),
    ensures
        last_sep(s) == i,
    decreases s.len(),
{
    if i < s.len() - 1 {
        lemma_last_sep_at(s.drop_last(), i);
    }
}

/// The parent directory of `path`, or `None` when `path` holds no
/// separator — the relaunch then keeps the current working directory.
pub fn parent_of(path: &str) -> (r: Option<String>)
    ensures
        match r {
            Some(d) => parent_view(path@) == Some(d@),
            None => parent_view(path@) is None,
        },
{
    let len: usize = path.unicode_len();
    let mut i: usize = len;
    while i > 0
        invariant
            i <= len,
            len == path@.len(),
            forall|j: int| i <= j < len ==> !is_sep(path@[j]),
        decreases i,
    {
        let c = path.get_char(i - 1);
        if c == '/' || c == '\\' {
            proof {
                lemma_last_sep_at(path@, i - 1);
            }
            let cut: usize = if i == 1 {
                1
            } else {
                i - 1
            };
            let d = path.substring_char(0, cut);
            return Some(d.to_owned());
        }
        i = i - 1;
    }
    proof {
        lemma_last_sep_none(path@);
    }
    None
}

/// `dir` and `name` joined by `'/'`, unless `dir` already ends in a
/// separator.
pub open spec fn join_view(dir: Seq<char>, name: Seq<char>) -> Seq<char> {
    if dir.len() > 0 && is_sep(dir[dir.len() - 1]) {
        dir + name
    } else {
        dir + seq!['/'] + name
    }
}

/// Joins `name` onto the directory `dir`.
pub fn join_path(dir: &str, name: &str) -> (r: String)
    ensures
        r@ == join_view(dir@, name@),
{
    let len: usize = dir.unicode_len();
    let mut s = dir.to_owned();
    let sep_at_end: bool = if len > 0 {
        let c = dir.get_char(len - 1);
        c == '/' || c == '\\'
    } else {
        false
    };
    if !sep_at_end {
        s.append("/");
        proof {
            reveal_strlit("/");
            assert(s@ =~= dir@ + seq!['/']);
        }
    }
    s.append(name);
    proof {
        assert(s@ =~= join_view(dir@, name@));
    }
    s
}

/// Where the log file lives for the helper executable at `exe_path`:
/// `updater.log` beside that executable, or bare `updater.log` (resolved in
/// the current directory) when the executable's path or its parent is
/// unknown.
pub open spec fn log_path_view(exe_path: Option<Seq<char>>) -> Seq<char> {
    match exe_path {
        Some(p) => match parent_view(p) {
            Some(d) => join_view(d, "updater.log"@),
            None => "updater.log"@,
        },
        None => "updater.log"@,
    }
}

/// The log file's path for the helper executable at `exe_path`.
pub fn log_file_path(exe_path: Option<&str>) -> (r: String)
    ensures
        match exe_path {
            Some(p) => r@ == log_path_view(Some(p@)),
            None => r@ == log_path_view(None),
        },
{
    match exe_path {
        Some(p) => match parent_of(p) {
            Some(d) => join_path(d.as_str(), "updater.log"),
            None => String::from_str("updater.log"),
        },
        None => String::from_str("updater.log"),
    }
}

} // verus!
