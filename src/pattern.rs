//! Regular-expression rewriting, through the `regex` crate.

use vstd::prelude::*;
use regex::Regex;

verus! {

#[verifier::external_type_specification]
#[verifier::external_body]
pub struct ExRegex(regex::Regex);

/// Whether the `regex` crate compiles `pattern`.
pub uninterp spec fn regex_accepts(pattern: Seq<char>) -> bool;

/// What `Regex::replace_all` makes of `haystack`: every non-overlapping
/// match of `pattern` replaced by `replacement`, in which `$n` stands for
/// capture group `n`.
pub uninterp spec fn regex_replace_all(
    pattern: Seq<char>,
    haystack: Seq<char>,
    replacement: Seq<char>,
) -> Seq<char>;

/// The number of non-overlapping matches of `pattern` in `haystack`.
pub uninterp spec fn regex_match_count(pattern: Seq<char>, haystack: Seq<char>) -> nat;

/// Whether `pattern` matches somewhere in `haystack`.
pub uninterp spec fn regex_is_match(pattern: Seq<char>, haystack: Seq<char>) -> bool;

/// The characters that have a meaning in a regular expression.
pub open spec fn is_regex_meta(c: char) -> bool {
    c == '\\' || c == '.' || c == '+' || c == '*' || c == '?' || c == '(' || c == ')' || c == '|'
        || c == '[' || c == ']' || c == '{' || c == '}' || c == '^' || c == '$' || c == '#'
        || c == '&' || c == '-' || c == '~'
}

/// `text` with a backslash before each regex meta character, so that it
/// matches itself literally.
pub open spec fn regex_escaped(text: Seq<char>) -> Seq<char>
    decreases text.len(),
{
    if text.len() == 0 {
        seq![]
    } else if is_regex_meta(text.last()) {
        regex_escaped(text.drop_last()) + seq!['\\', text.last()]
    } else {
        regex_escaped(text.drop_last()).push(text.last())
    }
}

/// Relies on `regex::escape`, which puts a backslash before each character
/// that `regex_syntax::is_meta_character` accepts.
#[verifier::external_body]
pub(crate) fn escape_literal(text: &str) -> (r: String)
    ensures
        r@ == regex_escaped(text@),
{
    regex::escape(text)
}

/// The successive non-overlapping matches of `pattern` in `text`: for each,
/// its start and end as character positions and the text that capture
/// group `group` matched, if it took part.
pub uninterp spec fn regex_capture_matches(
    pattern: Seq<char>,
    text: Seq<char>,
    group: Seq<char>,
) -> Seq<(usize, usize, Option<Seq<char>>)>;

/// Matches that lie inside a text of `len` characters, in order, without
/// overlapping.
pub open spec fn matches_in_order(ms: Seq<(usize, usize, Option<Seq<char>>)>, len: nat) -> bool {
    &&& forall|i: int| 0 <= i < ms.len() ==> #[trigger] ms[i].0 <= ms[i].1 <= len
    &&& forall|i: int| 1 <= i < ms.len() ==> ms[i - 1].1 <= #[trigger] ms[i].0
}

/// A compiled regular expression, kept with the source it was compiled from.
pub struct Pattern {
    source: String,
    regex: Regex,
}

/// Relies on `regex::Regex::new`: whether a pattern compiles depends on the
/// pattern alone.
#[verifier::external_body]
fn compile_regex(pattern: &str) -> (r: Option<Regex>)
    ensures
        r is Some == regex_accepts(pattern@),
{
    Regex::new(pattern).ok()
}

/// Relies on `regex::Regex::replace_all` with a string replacement.
#[verifier::external_body]
fn replace_all_matches(p: &Pattern, haystack: &str, replacement: &str) -> (r: String)
    ensures
        r@ == regex_replace_all(p.source_spec(), haystack@, replacement@),
{
    p.regex.replace_all(haystack, replacement).into_owned()
}

/// Relies on `regex::Regex::find_iter`: the matches it yields, counted.
#[verifier::external_body]
fn count_all_matches(p: &Pattern, haystack: &str) -> (r: usize)
    ensures
        r as nat == regex_match_count(p.source_spec(), haystack@),
{
    p.regex.find_iter(haystack).count()
}

/// Relies on `regex::Regex::is_match`.
#[verifier::external_body]
fn regex_matches(p: &Pattern, haystack: &str) -> (r: bool)
    ensures
        r == regex_is_match(p.source_spec(), haystack@),
{
    p.regex.is_match(haystack)
}

/// Relies on `regex::Regex::captures_iter`: successive non-overlapping
/// matches, each with its position (counted in characters) and the named
/// group it captured.
#[verifier::external_body]
fn capture_matches(p: &Pattern, text: &str, group: &str) -> (r: Vec<(usize, usize, Option<String>)>)
    ensures
        r.deep_view() == regex_capture_matches(p.source_spec(), text@, group@),
        matches_in_order(r.deep_view(), text@.len()),
{
    let mut found = Vec::new();
    for caps in p.regex.captures_iter(text) {
        if let Some(m) = caps.get(0) {
            let start = text[..m.start()].chars().count();
            let end = start + m.as_str().chars().count();
            found.push((start, end, caps.name(group).map(|c| c.as_str().to_string())));
        }
    }
    found
}

impl Pattern {
    /// The pattern this regex was compiled from.
    pub closed spec fn source_spec(&self) -> Seq<char> {
        self.source@
    }

    pub fn new(source: &str) -> (r: Option<Pattern>)
        ensures
            r is Some == regex_accepts(source@),
            r matches Some(p) ==> p.source_spec() == source@,
    {
        match compile_regex(source) {
            Some(regex) => Some(Pattern { source: source.to_owned(), regex }),
            None => None,
        }
    }

    pub fn replace_all(&self, haystack: &str, replacement: &str) -> (r: String)
        ensures
            r@ == regex_replace_all(self.source_spec(), haystack@, replacement@),
    {
        replace_all_matches(self, haystack, replacement)
    }

    pub fn is_match(&self, haystack: &str) -> (r: bool)
        ensures
            r == regex_is_match(self.source_spec(), haystack@),
    {
        regex_matches(self, haystack)
    }

    pub fn captures(&self, text: &str, group: &str) -> (r: Vec<(usize, usize, Option<String>)>)
        ensures
            r.deep_view() == regex_capture_matches(self.source_spec(), text@, group@),
            matches_in_order(r.deep_view(), text@.len()),
    {
        capture_matches(self, text, group)
    }

    pub fn count_matches(&self, haystack: &str) -> (r: usize)
        ensures
            r as nat == regex_match_count(self.source_spec(), haystack@),
    {
        count_all_matches(self, haystack)
    }
}

/// `text` with every match of `pattern` replaced; a pattern that does not
/// compile leaves the text as it is.
pub open spec fn rewrite(pattern: Seq<char>, text: Seq<char>, replacement: Seq<char>) -> Seq<char> {
    if regex_accepts(pattern) {
        regex_replace_all(pattern, text, replacement)
    } else {
        text
    }
}

/// Number of matches of `pattern` in `text`; none when it does not compile.
pub open spec fn match_count(pattern: Seq<char>, text: Seq<char>) -> nat {
    if regex_accepts(pattern) {
        regex_match_count(pattern, text)
    } else {
        0
    }
}

pub fn rewrite_all(pattern: &str, text: &str, replacement: &str) -> (r: String)
    ensures
        r@ == rewrite(pattern@, text@, replacement@),
{
    match Pattern::new(pattern) {
        Some(p) => p.replace_all(text, replacement),
        None => text.to_owned(),
    }
}

pub fn count_pattern(pattern: &str, text: &str) -> (r: usize)
    ensures
        r as nat == match_count(pattern@, text@),
{
    match Pattern::new(pattern) {
        Some(p) => p.count_matches(text),
        None => 0,
    }
}

} // verus!
