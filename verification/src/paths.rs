//! Paths as text: joining a name to a directory, splitting a search path
//! into its directories, and finding a command along a search path.
//!
//! Nothing here touches the file system. What is on disk reaches these
//! functions as a list of the paths that were found to be regular files.

use crate::text::{chars_of, lines, str_eq};
use vstd::prelude::*;

verus! {

/// The path that `rel` names when it is read in the directory `base`.
///
/// A `rel` that starts with `/` stands for itself. Any other is appended to
/// `base`, after a `/` unless `base` is empty or already ends with one.
pub open spec fn join_path(base: Seq<char>, rel: Seq<char>) -> Seq<char> {
    if rel.len() > 0 && rel[0] == '/' {
        rel
    } else if base.len() == 0 || base.last() == '/' {
        base + rel
    } else {
        base + seq!['/'] + rel
    }
}

/// Length of the longest prefix of `s` without a colon.
pub open spec fn piece_len(s: Seq<char>) -> nat
    decreases s.len(),
{
    if s.len() == 0 || s[0] == ':' {
        0
    } else {
        1 + piece_len(s.drop_first())
    }
}

/// The pieces of `s` between its colons, in order. A text with `n` colons
/// has `n + 1` pieces, some of which may be empty; the empty text has one.
pub open spec fn split_colon(s: Seq<char>) -> Seq<Seq<char>>
    decreases s.len(),
{
    if piece_len(s) >= s.len() {
        seq![s]
    } else {
        seq![s.take(piece_len(s) as int)] + split_colon(s.skip(piece_len(s) as int + 1))
    }
}

/// For each directory of the search path, in order, the path of `name` in
/// it.
pub open spec fn candidates(name: Seq<char>, search_path: Seq<Seq<char>>) -> Seq<Seq<char>> {
    search_path.map_values(|dir: Seq<char>| join_path(dir, name))
}

/// The first of the paths in `tried` that is one of `files`, if any is.
pub open spec fn first_of(tried: Seq<Seq<char>>, files: Seq<Seq<char>>) -> Option<Seq<char>>
    decreases tried.len(),
{
    if tried.len() == 0 {
        None
    } else if files.contains(tried[0]) {
        Some(tried[0])
    } else {
        first_of(tried.drop_first(), files)
    }
}

/// Where `name` is found along the search path: its path in the first
/// directory in which it is a regular file, given the regular files.
pub open spec fn resolve(name: Seq<char>, search_path: Seq<Seq<char>>, files: Seq<Seq<char>>)
    -> Option<Seq<char>> {
    first_of(candidates(name, search_path), files)
}

/// The view of a string that may be missing.
pub open spec fn text_of(item: Option<String>) -> Option<Seq<char>> {
    match item {
        Some(s) => Some(s@),
        None => None,
    }
}

/// A piece ends at the first colon or at the end of the text.
pub proof fn lemma_piece_len_is(s: Seq<char>, n: int)
    requires
        0 <= n <= s.len(),
        forall|i: int| 0 <= i < n ==> #[trigger] s[i] != ':',
        n < s.len() ==> s[n] == ':',
    ensures
        piece_len(s) == n,
    decreases n,
{
    if n > 0 {
        lemma_piece_len_is(s.drop_first(), n - 1);
    }
}

/// The search is decided by the first candidate that is a regular file:
/// where the path at `i` is one and none before it is, the search gives the
/// path at `i`; where none is, it gives nothing.
pub proof fn lemma_first_of(tried: Seq<Seq<char>>, files: Seq<Seq<char>>)
    ensures
        match first_of(tried, files) {
            Some(found) => exists|i: int|
                0 <= i < tried.len() && tried[i] == found && files.contains(found) && forall|j: int|
                    0 <= j < i ==> !files.contains(#[trigger] tried[j]),
            None => forall|j: int| 0 <= j < tried.len() ==> !files.contains(#[trigger] tried[j]),
        },
    decreases tried.len(),
{
    if tried.len() > 0 && !files.contains(tried[0]) {
        let rest = tried.drop_first();
        lemma_first_of(rest, files);
        match first_of(rest, files) {
            Some(found) => {
                let i = choose|i: int|
                    0 <= i < rest.len() && rest[i] == found && files.contains(found) && forall|j: int|
                        0 <= j < i ==> !files.contains(#[trigger] rest[j]);
                assert forall|j: int| 0 <= j < i + 1 implies !files.contains(#[trigger] tried[j]) by {
                    if j > 0 {
                        assert(tried[j] == rest[j - 1]);
                    }
                }
            },
            None => {
                assert forall|j: int| 0 <= j < tried.len() implies !files.contains(
                    #[trigger] tried[j],
                ) by {
                    if j > 0 {
                        assert(tried[j] == rest[j - 1]);
                    }
                }
            },
        }
    }
}

/// A command that is a regular file in two directories is found in the one
/// that comes first on the search path.
pub proof fn lemma_earlier_directory_wins(
    name: Seq<char>,
    first: Seq<char>,
    second: Seq<char>,
    files: Seq<Seq<char>>,
)
    requires
        files.contains(join_path(first, name)),
        files.contains(join_path(second, name)),
    ensures
        resolve(name, seq![first, second], files) == Some(join_path(first, name)),
{
    assert(candidates(name, seq![first, second])[0] == join_path(first, name));
}

/// The path that `rel` names when it is read in the directory `base`.
pub fn join(base: &str, rel: &str) -> (path: String)
    ensures
        path@ == join_path(base@, rel@),
{
    if !rel.is_empty() && rel.get_char(0) == '/' {
        return rel.to_owned();
    }
    let mut path = base.to_owned();
    let n: usize = base.unicode_len();
    if n > 0 && base.get_char(n - 1) != '/' {
        path.append("/");
        proof {
            reveal_strlit("/");
        }
    }
    path.append(rel);
    path
}

/// Splits the value of a search-path variable into its directories.
///
/// The directories are separated by colons. Every piece counts, an empty
/// one too, so the empty value names one directory, the empty one.
pub fn split_search_path(value: &str) -> (dirs: Vec<String>)
    ensures
        lines(dirs@) == split_colon(value@),
{
    let chars = chars_of(value);
    let n: usize = chars.len();
    let mut dirs: Vec<String> = Vec::new();
    let mut start: usize = 0;
    let mut i: usize = 0;
    assert(value@.skip(0) =~= value@);
    while i < n
        invariant
            start <= i <= n,
            n == value@.len(),
            chars@ == value@,
            forall|k: int| start <= k < i ==> #[trigger] value@[k] != ':',
            split_colon(value@) == lines(dirs@) + split_colon(value@.skip(start as int)),
        decreases n - i,
    {
        if chars[i] == ':' {
            let piece = value.substring_char(start, i).to_owned();
            proof {
                let tail = value@.skip(start as int);
                lemma_piece_len_is(tail, i - start);
                assert(tail.take(i - start) =~= piece@);
                assert(tail.skip(i - start + 1) =~= value@.skip(i + 1));
            }
            dirs.push(piece);
            start = i + 1;
        }
        i += 1;
    }
    let piece = value.substring_char(start, n).to_owned();
    proof {
        let tail = value@.skip(start as int);
        lemma_piece_len_is(tail, n - start);
    }
    dirs.push(piece);
    dirs
}

/// Whether `text` is one of `items`.
pub fn contains_text(items: &[String], text: &str) -> (found: bool)
    ensures
        found == lines(items@).contains(text@),
{
    let n: usize = items.len();
    let mut i: usize = 0;
    while i < n
        invariant
            i <= n,
            n == items@.len(),
            forall|k: int| 0 <= k < i ==> (#[trigger] lines(items@)[k]) != text@,
        decreases n - i,
    {
        if str_eq(items[i].as_str(), text) {
            assert(lines(items@)[i as int] == text@);
            return true;
        }
        i += 1;
    }
    false
}

/// For each directory of the search path, in order, the path of `name` in
/// it: the paths that a search for `name` has to try.
pub fn list_candidates(name: &str, search_path: &[String]) -> (tried: Vec<String>)
    ensures
        lines(tried@) == candidates(name@, lines(search_path@)),
{
    let n: usize = search_path.len();
    let mut tried: Vec<String> = Vec::new();
    let mut i: usize = 0;
    while i < n
        invariant
            i <= n,
            n == search_path@.len(),
            lines(tried@) == candidates(name@, lines(search_path@)).take(i as int),
        decreases n - i,
    {
        let path = join(search_path[i].as_str(), name);
        proof {
            let all = candidates(name@, lines(search_path@));
            assert(all.take(i + 1) =~= all.take(i as int).push(path@));
        }
        tried.push(path);
        i += 1;
    }
    tried
}

/// Finds `name` along the search path.
///
/// `files` lists the paths that are regular files; a path that is not
/// listed counts as absent. The directories are tried in order, and the
/// first in which `name` is a regular file decides.
pub fn find_along(name: &str, search_path: &[String], files: &[String]) -> (found: Option<String>)
    ensures
        text_of(found) == resolve(name@, lines(search_path@), lines(files@)),
{
    let n: usize = search_path.len();
    let mut i: usize = 0;
    let ghost tried = candidates(name@, lines(search_path@));
    assert(tried.skip(0) =~= tried);
    while i < n
        invariant
            i <= n,
            n == search_path@.len(),
            tried == candidates(name@, lines(search_path@)),
            first_of(tried, lines(files@)) == first_of(tried.skip(i as int), lines(files@)),
        decreases n - i,
    {
        let path = join(search_path[i].as_str(), name);
        if contains_text(files, path.as_str()) {
            return Some(path);
        }
        assert(tried.skip(i as int).drop_first() =~= tried.skip(i + 1));
        i += 1;
    }
    None
}

} // verus!
