//! Path text: the last component's extension, the part of a path below a
//! root directory, and joining a directory with a relative path. Paths are
//! handled as text with `/` as the separator.

use vstd::prelude::*;
use vstd::string::StrSliceExecFns;
use vstd::string::StringExecFns;

verus! {

/// Index of the last occurrence of `c` in `s`, or -1 when there is none.
pub open spec fn last_index_of(s: Seq<char>, c: char) -> int
    decreases s.len(),
{
    if s.len() == 0 {
        -1
    } else if s.last() == c {
        s.len() - 1
    } else {
        last_index_of(s.drop_last(), c)
    }
}

/// Extension of the last component: the text after its last dot, provided
/// that dot is not the component's first character.
pub open spec fn extension_of(p: Seq<char>) -> Option<Seq<char>> {
    let slash = last_index_of(p, '/');
    let dot = last_index_of(p, '.');
    if dot > slash + 1 {
        Some(p.subrange(dot + 1, p.len() as int))
    } else {
        None
    }
}

/// The part of `p` below the directory `d`: `p` must start with `d`,
/// followed by a `/` unless `d` already ends with one.
pub open spec fn relative_to(p: Seq<char>, d: Seq<char>) -> Option<Seq<char>> {
    if d.len() <= p.len() && p.subrange(0, d.len() as int) == d {
        let rest = p.subrange(d.len() as int, p.len() as int);
        if d.len() > 0 && d.last() == '/' {
            Some(rest)
        } else if rest.len() == 0 {
            Some(rest)
        } else if rest[0] == '/' {
            Some(rest.drop_first())
        } else {
            None
        }
    } else {
        None
    }
}

/// `d` joined with the relative path `r`, with one `/` between them.
pub open spec fn join_path(d: Seq<char>, r: Seq<char>) -> Seq<char> {
    if d.len() == 0 || d.last() == '/' {
        d + r
    } else {
        d + seq!['/'] + r
    }
}

proof fn lemma_last_index_bounds(s: Seq<char>, c: char)
    ensures
        -1 <= last_index_of(s, c) < s.len(),
        last_index_of(s, c) >= 0 ==> s[last_index_of(s, c)] == c,
    decreases s.len(),
{
    if s.len() > 0 && s.last() != c {
        lemma_last_index_bounds(s.drop_last(), c);
    }
}

/// The last index of `c` in `s`, found by walking back from the end.
pub fn last_index(s: &str, c: char) -> (r: Option<usize>)
    ensures
        match r {
            Some(k) => k as int == last_index_of(s@, c) && k < s@.len(),
            None => last_index_of(s@, c) == -1,
        },
{
    let n = s.unicode_len();
    let mut i: usize = n;
    assert(s@.subrange(0, n as int) =~= s@);
    while i > 0
        invariant
            i <= n,
            n == s@.len(),
            last_index_of(s@, c) == last_index_of(s@.subrange(0, i as int), c),
        decreases i,
    {
        let ch = s.get_char(i - 1);
        assert(s@.subrange(0, i as int).drop_last() =~= s@.subrange(0, i - 1));
        if ch == c {
            return Some(i - 1);
        }
        i = i - 1;
    }
    None
}

/// Extension of the path's last component, if it has one.
pub fn file_extension(p: &str) -> (r: Option<String>)
    ensures
        match r {
            Some(e) => extension_of(p@) == Some(e@),
            None => extension_of(p@) is None,
        },
{
    proof {
        lemma_last_index_bounds(p@, '.');
        lemma_last_index_bounds(p@, '/');
    }
    let n = p.unicode_len();
    let dot = last_index(p, '.');
    let slash = last_index(p, '/');
    match dot {
        None => None,
        Some(d) => {
            let past_slash: usize = match slash {
                Some(k) => k + 1,
                None => 0,
            };
            if d > past_slash {
                Some(String::from_str(p.substring_char(d + 1, n)))
            } else {
                None
            }
        },
    }
}

/// Whether `p` starts with `d`.
fn has_prefix(p: &str, d: &str) -> (r: bool)
    ensures
        r == (d@.len() <= p@.len() && p@.subrange(0, d@.len() as int) == d@),
{
    let n = p.unicode_len();
    let m = d.unicode_len();
    if m > n {
        return false;
    }
    let mut i: usize = 0;
    while i < m
        invariant
            i <= m <= n,
            n == p@.len(),
            m == d@.len(),
            p@.subrange(0, i as int) =~= d@.subrange(0, i as int),
        decreases m - i,
    {
        if p.get_char(i) != d.get_char(i) {
            assert(p@.subrange(0, m as int)[i as int] != d@[i as int]);
            return false;
        }
        i = i + 1;
        assert(p@.subrange(0, i as int) =~= d@.subrange(0, i as int));
    }
    assert(d@.subrange(0, m as int) =~= d@);
    true
}

/// The part of `p` below the directory `d`, if `p` lies under it.
pub fn relative_path(p: &str, d: &str) -> (r: Option<String>)
    ensures
        match r {
            Some(s) => relative_to(p@, d@) == Some(s@),
            None => relative_to(p@, d@) is None,
        },
{
    if !has_prefix(p, d) {
        return None;
    }
    let n = p.unicode_len();
    let m = d.unicode_len();
    if m > 0 && d.get_char(m - 1) == '/' {
        Some(String::from_str(p.substring_char(m, n)))
    } else if m == n {
        Some(String::from_str(p.substring_char(m, n)))
    } else if p.get_char(m) == '/' {
        proof {
            let rest = p@.subrange(m as int, n as int);
            assert(rest.drop_first() =~= p@.subrange(m + 1, n as int));
        }
        Some(String::from_str(p.substring_char(m + 1, n)))
    } else {
        None
    }
}

/// `d` joined with the relative path `r`.
pub fn join(d: &str, r: &str) -> (j: String)
    ensures
        j@ == join_path(d@, r@),
{
    let m = d.unicode_len();
    let mut j = String::from_str(d);
    if m > 0 && d.get_char(m - 1) != '/' {
        let sep = "/";
        proof {
            reveal_strlit("/");
        }
        j.append(sep);
    }
    j.append(r);
    j
}

} // verus!
