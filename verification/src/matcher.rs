//! Deciding whether the ignore patterns exclude a path.
//!
//! What it is for a glob pattern to compile and to match, and for one path to
//! lie under another, is left to `glob` and to `std::path`. This module gives
//! those answers names and proves what is built on them: that a path is left
//! out exactly where some pattern matches one of its two forms. The names stand
//! for the answers on the platform the crate is built for, which decides what
//! separates the components of a path.

use crate::rules::texts;
use glob::Pattern;
use std::path::Path;
use vstd::prelude::*;

verus! {

/// A compiled glob pattern of the `glob` crate, carried as it is: nothing in
/// this crate looks inside one.
#[verifier::external_type_specification]
#[verifier::external_body]
pub struct ExPattern(glob::Pattern);

/// The text that a compiled pattern was compiled from, which it keeps. The
/// contracts of the calls into `glob` speak of a pattern by this text alone.
pub uninterp spec fn pattern_text(pattern: Pattern) -> Seq<char>;

/// Whether `glob::Pattern::new` accepts a pattern text.
pub uninterp spec fn glob_compiles(text: Seq<char>) -> bool;

/// Whether the pattern compiled from `pattern` matches the whole of `text`
/// under the default match options: the result of `glob::Pattern::matches`.
pub uninterp spec fn glob_matches(pattern: Seq<char>, text: Seq<char>) -> bool;

/// What is left of `path` once the leading components `base` are taken off, or
/// `None` where `base` is no prefix of it: the result of
/// `std::path::Path::strip_prefix`, which compares whole components and
/// consults no file system.
pub uninterp spec fn path_strip_prefix(path: Seq<char>, base: Seq<char>) -> Option<Seq<char>>;

/// `glob::Pattern::matches`. Trusted: the answer depends only on the text the
/// pattern was compiled from and on the text tested.
pub assume_specification[ Pattern::matches ](pattern: &Pattern, str: &str) -> (hit: bool)
    ensures
        hit == glob_matches(pattern_text(*pattern), str@),
;

/// Calls `glob::Pattern::new`. Trusted: whether the text compiles depends on
/// the text alone, and a pattern that compiles keeps the text as its own.
#[verifier::external_body]
fn compile_glob(text: &str) -> (compiled: Option<Pattern>)
    ensures
        match compiled {
            Some(pattern) => glob_compiles(text@) && pattern_text(pattern) == text@,
            None => !glob_compiles(text@),
        },
{
    match Pattern::new(text) {
        Ok(pattern) => Some(pattern),
        Err(_) => None,
    }
}

/// Calls `std::path::Path::strip_prefix` on two paths given as text. Trusted:
/// the outcome depends only on the two texts; no file system is consulted.
#[verifier::external_body]
fn strip_base(path: &str, base: &str) -> (relative: Option<String>)
    ensures
        match relative {
            Some(rest) => path_strip_prefix(path@, base@) == Some(rest@),
            None => path_strip_prefix(path@, base@) is None,
        },
{
    match Path::new(path).strip_prefix(base) {
        Ok(rest) => Some(rest.to_string_lossy().into_owned()),
        Err(_) => None,
    }
}

/// Whether the pattern of text `pattern` matches one of the forms of a path:
/// the path as given, or its relative form where it has one.
pub open spec fn matches_a_form(
    pattern: Seq<char>,
    path: Seq<char>,
    relative: Option<Seq<char>>,
) -> bool {
    glob_matches(pattern, path) || match relative {
        Some(rest) => glob_matches(pattern, rest),
        None => false,
    }
}

/// Whether some pattern among those of the texts `patterns` matches one of the
/// forms of a path.
pub open spec fn any_matches_a_form(
    patterns: Seq<Seq<char>>,
    path: Seq<char>,
    relative: Option<Seq<char>>,
) -> bool {
    exists|i: int| 0 <= i < patterns.len() && #[trigger] matches_a_form(patterns[i], path, relative)
}

/// Whether some pattern among those of the texts `patterns` excludes `path`
/// under `base`: it matches the path as given, or the path taken relative to
/// `base`. A path that does not lie under `base` has no relative form, and is
/// tested as given only.
pub open spec fn is_excluded(patterns: Seq<Seq<char>>, path: Seq<char>, base: Seq<char>) -> bool {
    any_matches_a_form(patterns, path, path_strip_prefix(path, base))
}

/// The texts of a list of compiled patterns.
pub open spec fn pattern_texts(patterns: Seq<Pattern>) -> Seq<Seq<char>> {
    Seq::new(patterns.len(), |i: int| pattern_text(patterns[i]))
}

/// The text of an optional string.
pub open spec fn optional_text(text: Option<&str>) -> Option<Seq<char>> {
    match text {
        Some(text) => Some(text@),
        None => None,
    }
}

/// Tells whether some pattern matches `path` or, where there is one, its
/// relative form `relative`.
pub fn matches_any(path: &str, relative: Option<&str>, ignore_patterns: &[Pattern]) -> (hit: bool)
    ensures
        hit == any_matches_a_form(pattern_texts(ignore_patterns@), path@, optional_text(relative)),
{
    let ghost patterns = pattern_texts(ignore_patterns@);
    let mut i: usize = 0;
    while i < ignore_patterns.len()
        invariant
            i <= ignore_patterns.len(),
            patterns == pattern_texts(ignore_patterns@),
            forall|j: int|
                0 <= j < i ==> !#[trigger] matches_a_form(
                    patterns[j],
                    path@,
                    optional_text(relative),
                ),
        decreases ignore_patterns.len() - i,
    {
        let pattern = &ignore_patterns[i];
        if pattern.matches(path) {
            assert(matches_a_form(patterns[i as int], path@, optional_text(relative)));
            return true;
        }
        match relative {
            Some(rest) => {
                if pattern.matches(rest) {
                    assert(matches_a_form(patterns[i as int], path@, optional_text(relative)));
                    return true;
                }
            },
            None => {},
        }
        i += 1;
    }
    false
}

/// Tells whether `path` is to be left out: some pattern matches it as given or
/// relative to `base_dir`. A path that does not lie under `base_dir` is tested
/// as given only.
pub fn should_ignore(path: &str, ignore_patterns: &[Pattern], base_dir: &str) -> (ignored: bool)
    ensures
        ignored == is_excluded(pattern_texts(ignore_patterns@), path@, base_dir@),
{
    match strip_base(path, base_dir) {
        Some(rest) => matches_any(path, Some(rest.as_str()), ignore_patterns),
        None => matches_any(path, None, ignore_patterns),
    }
}

/// Whether every text among `patterns` is a glob pattern that compiles.
pub open spec fn all_compile(patterns: Seq<Seq<char>>) -> bool {
    forall|i: int| 0 <= i < patterns.len() ==> glob_compiles(#[trigger] patterns[i])
}

/// Compiles the ignore patterns, in their order. Where one does not compile,
/// the position of the first such is given instead.
pub fn compile_patterns(patterns: &Vec<String>) -> (compiled: Result<Vec<Pattern>, usize>)
    ensures
        match compiled {
            Ok(list) => all_compile(texts(patterns@)) && pattern_texts(list@) == texts(patterns@),
            Err(first) => first < patterns.len() && !glob_compiles(patterns@[first as int]@)
                && all_compile(texts(patterns@).take(first as int)),
        },
{
    let mut list: Vec<Pattern> = Vec::new();
    let mut i: usize = 0;
    while i < patterns.len()
        invariant
            i <= patterns.len(),
            list@.len() == i,
            all_compile(texts(patterns@).take(i as int)),
            pattern_texts(list@) == texts(patterns@).take(i as int),
        decreases patterns.len() - i,
    {
        match compile_glob(patterns[i].as_str()) {
            Some(pattern) => {
                let ghost before = list@;
                list.push(pattern);
                assert forall|j: int| 0 <= j < list@.len() implies pattern_texts(list@)[j] == texts(
                    patterns@,
                ).take(i + 1)[j] by {
                    if j < i {
                        assert(pattern_texts(before)[j] == texts(patterns@).take(i as int)[j]);
                    }
                }
                assert(pattern_texts(list@) =~= texts(patterns@).take(i + 1));
                assert forall|j: int| 0 <= j < i + 1 implies glob_compiles(
                    #[trigger] texts(patterns@).take(i + 1)[j],
                ) by {
                    if j < i {
                        assert(texts(patterns@).take(i as int)[j] == texts(patterns@).take(i + 1)[j]);
                    }
                }
            },
            None => {
                return Err(i);
            },
        }
        i += 1;
    }
    assert(texts(patterns@).take(patterns.len() as int) =~= texts(patterns@));
    Ok(list)
}

} // verus!
