//! Command templates: splitting a rule's template into whitespace-separated
//! words and substituting the source-path placeholder.

use vstd::prelude::*;
use vstd::string::StrSliceExecFns;
use vstd::string::StringExecFns;

verus! {

/// The word of a template that stands for the job's source path.
pub const PLACEHOLDER: &'static str = "$file_path";

/// Unicode White_Space, the set that `char::is_whitespace` tests.
pub open spec fn is_space(c: char) -> bool {
    ('\u{9}' <= c && c <= '\u{d}') || c == ' ' || c == '\u{85}' || c == '\u{a0}'
        || c == '\u{1680}' || ('\u{2000}' <= c && c <= '\u{200a}') || c == '\u{2028}'
        || c == '\u{2029}' || c == '\u{202f}' || c == '\u{205f}' || c == '\u{3000}'
}

/// Whether `c` is white space.
pub fn space(c: char) -> (r: bool)
    ensures
        r == is_space(c),
{
    ('\u{9}' <= c && c <= '\u{d}') || c == ' ' || c == '\u{85}' || c == '\u{a0}'
        || c == '\u{1680}' || ('\u{2000}' <= c && c <= '\u{200a}') || c == '\u{2028}'
        || c == '\u{2029}' || c == '\u{202f}' || c == '\u{205f}' || c == '\u{3000}'
}

/// Reading `s` left to right: the words completed so far, and the word
/// still open at the end.
pub open spec fn scan_words(s: Seq<char>) -> (Seq<Seq<char>>, Seq<char>)
    decreases s.len(),
{
    if s.len() == 0 {
        (Seq::empty(), Seq::empty())
    } else {
        let (done, open) = scan_words(s.drop_last());
        let c = s.last();
        if is_space(c) {
            if open.len() > 0 {
                (done.push(open), Seq::empty())
            } else {
                (done, open)
            }
        } else {
            (done, open.push(c))
        }
    }
}

/// The maximal runs of non-space characters of `s`, in order.
pub open spec fn words(s: Seq<char>) -> Seq<Seq<char>> {
    let (done, open) = scan_words(s);
    if open.len() > 0 {
        done.push(open)
    } else {
        done
    }
}

/// A template's words with each placeholder word replaced by `path`.
pub open spec fn resolve(template: Seq<char>, path: Seq<char>) -> Seq<Seq<char>> {
    words(template).map_values(|w: Seq<char>| if w == PLACEHOLDER@ { path } else { w })
}

/// The views of a vector of strings.
pub open spec fn texts(v: Seq<String>) -> Seq<Seq<char>> {
    v.map_values(|s: String| s@)
}

/// Splits `s` into its whitespace-separated words.
pub fn split_words(s: &str) -> (r: Vec<String>)
    ensures
        texts(r@) == words(s@),
{
    let n = s.unicode_len();
    let mut out: Vec<String> = Vec::new();
    let mut start: usize = 0;
    let mut i: usize = 0;
    while i < n
        invariant
            n == s@.len(),
            start <= i <= n,
            texts(out@) == scan_words(s@.subrange(0, i as int)).0,
            scan_words(s@.subrange(0, i as int)).1 == s@.subrange(start as int, i as int),
        decreases n - i,
    {
        let c = s.get_char(i);
        assert(s@.subrange(0, i + 1).drop_last() =~= s@.subrange(0, i as int));
        if space(c) {
            if start < i {
                let w = String::from_str(s.substring_char(start, i));
                let ghost before = out@;
                out.push(w);
                assert(texts(out@) =~= texts(before).push(w@));
            }
            start = i + 1;
        } else {
            assert(s@.subrange(start as int, i + 1) =~= s@.subrange(start as int, i as int).push(c));
        }
        i = i + 1;
    }
    assert(s@.subrange(0, n as int) =~= s@);
    if start < n {
        let w = String::from_str(s.substring_char(start, n));
        let ghost before = out@;
        out.push(w);
        assert(texts(out@) =~= texts(before).push(w@));
    }
    out
}

/// The argument list of `template`: its words, with each placeholder word
/// replaced by `path`.
pub fn resolve_args(template: &str, path: &str) -> (r: Vec<String>)
    ensures
        texts(r@) == resolve(template@, path@),
{
    let raw = split_words(template);
    let placeholder = String::from_str(PLACEHOLDER);
    let mut args: Vec<String> = Vec::new();
    let mut i: usize = 0;
    while i < raw.len()
        invariant
            i <= raw.len(),
            placeholder@ == PLACEHOLDER@,
            texts(raw@) == words(template@),
            texts(args@) == resolve(template@, path@).subrange(0, i as int),
        decreases raw.len() - i,
    {
        let ghost before = args@;
        if raw[i] == placeholder {
            args.push(String::from_str(path));
        } else {
            args.push(raw[i].clone());
        }
        assert(texts(args@) =~= texts(before).push(args@[i as int]@));
        assert(texts(args@) =~= resolve(template@, path@).subrange(0, i + 1));
        i = i + 1;
    }
    assert(resolve(template@, path@).subrange(0, i as int) =~= resolve(template@, path@));
    args
}

} // verus!
