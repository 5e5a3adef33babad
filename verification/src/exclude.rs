//! Which paths are left out of the index.
use crate::text::contains;
use vstd::prelude::*;
use vstd::string::*;

verus! {

use crate::text::{occurs, views};

/// A compiled regular expression.
#[verifier::external_type_specification]
#[verifier::external_body]
pub struct ExRegex(regex::Regex);

/// The text that a regular expression was compiled from.
pub uninterp spec fn pattern_text(r: regex::Regex) -> Seq<char>;

/// Whether `regex::Regex::new` accepts the text as a regular expression.
pub uninterp spec fn regex_valid(pattern: Seq<char>) -> bool;

/// Whether a regular expression, compiled by `regex::Regex::new` from `pattern`, matches
/// anywhere in `text`.
pub uninterp spec fn regex_matches(pattern: Seq<char>, text: Seq<char>) -> bool;

/// `regex::Regex::new` compiles a regular expression with the default settings. It succeeds
/// on the valid ones, and what it returns is a compiled form of the text that it was given.
#[verifier::external_body]
fn regex_new(pattern: &str) -> (r: Option<regex::Regex>)
    ensures
        r is Some <==> regex_valid(pattern@),
        r matches Some(x) ==> pattern_text(x) == pattern@,
{
    regex::Regex::new(pattern).ok()
}

/// `regex::Regex::is_match` tells whether the expression matches anywhere in the text. Every
/// expression in a `PathPattern` was compiled by `regex::Regex::new`, with the default
/// settings, so what it matches depends on the text that it was compiled from alone.
#[verifier::external_body]
fn regex_is_match(p: &PathPattern, text: &str) -> (r: bool)
    ensures
        r == regex_matches(p.source(), text@),
{
    p.compiled.is_match(text)
}

/// `regex::Regex::clone` gives the same compiled expression.
#[verifier::external_body]
fn regex_clone(r: &regex::Regex) -> (c: regex::Regex)
    ensures
        pattern_text(c) == pattern_text(*r),
{
    r.clone()
}

/// A regular expression for paths to leave out.
pub struct PathPattern {
    compiled: regex::Regex,
}

impl PathPattern {
    /// The text that the expression was compiled from.
    pub closed spec fn source(&self) -> Seq<char> {
        pattern_text(self.compiled)
    }

    /// The expression compiled from a text, where the text is a valid one.
    pub fn new(pattern: &str) -> (r: Option<PathPattern>)
        ensures
            r is Some <==> regex_valid(pattern@),
            r matches Some(p) ==> p.source() == pattern@,
    {
        match regex_new(pattern) {
            Some(compiled) => Some(PathPattern { compiled }),
            None => None,
        }
    }

    /// Whether the expression matches anywhere in the text.
    pub fn is_match(&self, text: &str) -> (r: bool)
        ensures
            r == regex_matches(self.source(), text@),
    {
        regex_is_match(self, text)
    }
}

impl Clone for PathPattern {
    fn clone(&self) -> (r: Self)
        ensures
            r.source() == self.source(),
    {
        PathPattern { compiled: regex_clone(&self.compiled) }
    }
}

/// The texts that the expressions were compiled from.
pub open spec fn sources(v: Seq<PathPattern>) -> Seq<Seq<char>> {
    Seq::new(v.len(), |i: int| v[i].source())
}

/// Whether one of the substrings stands in the text.
pub open spec fn has_substring(s: Seq<char>, subs: Seq<Seq<char>>) -> bool {
    exists|i: int| 0 <= i < subs.len() && occurs(s, #[trigger] subs[i])
}

/// Whether one of the expressions matches in the text.
pub open spec fn has_match(s: Seq<char>, patterns: Seq<Seq<char>>) -> bool {
    exists|i: int| 0 <= i < patterns.len() && regex_matches(#[trigger] patterns[i], s)
}

/// Whether a path is left out: one of the substrings stands in it, or one of the expressions
/// matches in it.
pub open spec fn excluded(s: Seq<char>, subs: Seq<Seq<char>>, patterns: Seq<Seq<char>>) -> bool {
    has_substring(s, subs) || has_match(s, patterns)
}

/// Whether one of the substrings stands in the path.
pub fn should_exclude(path: &str, exclude: &Vec<String>) -> (r: bool)
    ensures
        r == has_substring(path@, views(exclude@)),
{
    for i in 0..exclude.len()
        invariant
            forall|j: int| 0 <= j < i ==> !occurs(path@, #[trigger] views(exclude@)[j]),
    {
        assert(views(exclude@)[i as int] == exclude@[i as int]@);
        if contains(path, exclude[i].as_str()) {
            return true;
        }
    }
    false
}

/// Whether a path is left out of the index.
pub fn path_excluded(path: &str, substrings: &Vec<String>, regexes: &Vec<PathPattern>) -> (r: bool)
    ensures
        r == excluded(path@, views(substrings@), sources(regexes@)),
{
    if should_exclude(path, substrings) {
        return true;
    }
    for i in 0..regexes.len()
        invariant
            forall|j: int| 0 <= j < i ==> !regex_matches(#[trigger] sources(regexes@)[j], path@),
    {
        assert(sources(regexes@)[i as int] == regexes@[i as int].source());
        if regexes[i].is_match(path) {
            return true;
        }
    }
    false
}

/// Empty lists leave nothing out.
pub proof fn law_empty_lists_exclude_nothing(path: Seq<char>)
    ensures
        !excluded(path, Seq::empty(), Seq::empty()),
{
}

/// A path that is left out stays left out when more substrings or expressions are added.
pub proof fn law_excluded_monotone(
    path: Seq<char>,
    subs: Seq<Seq<char>>,
    patterns: Seq<Seq<char>>,
    more_subs: Seq<Seq<char>>,
    more_patterns: Seq<Seq<char>>,
)
    requires
        excluded(path, subs, patterns),
    ensures
        excluded(path, subs + more_subs, patterns + more_patterns),
{
    if has_substring(path, subs) {
        let i = choose|i: int| 0 <= i < subs.len() && occurs(path, #[trigger] subs[i]);
        assert((subs + more_subs)[i] == subs[i]);
    } else {
        let i = choose|i: int|
            0 <= i < patterns.len() && regex_matches(#[trigger] patterns[i], path);
        assert((patterns + more_patterns)[i] == patterns[i]);
    }
}

/// A path that holds a text of the list anywhere in it is excluded, and one that a pattern
/// matches is; a path for which neither holds is not.
pub proof fn law_excluded(
    a: Seq<char>,
    b: Seq<char>,
    path: Seq<char>,
    subs: Seq<Seq<char>>,
    patterns: Seq<Seq<char>>,
    i: int,
)
    ensures
        0 <= i < subs.len() ==> excluded(a + subs[i] + b, subs, patterns) && has_substring(
            a + subs[i] + b,
            subs,
        ),
        0 <= i < patterns.len() && regex_matches(patterns[i], path) ==> excluded(
            path,
            subs,
            patterns,
        ),
        (forall|k: int| 0 <= k < subs.len() ==> !occurs(path, #[trigger] subs[k])) && (forall|k: int|
            0 <= k < patterns.len() ==> !regex_matches(#[trigger] patterns[k], path)) ==> !excluded(
            path,
            subs,
            patterns,
        ),
{
    if 0 <= i < subs.len() {
        crate::text::law_parts_of_a_text(a, subs[i], b);
        assert(occurs(a + subs[i] + b, subs[i]));
    }
}

}
