//! Clean-up of dictated text before it is typed: punctuation left over by
//! spoken commands, stray spaces, and sentence capitals.

use vstd::prelude::*;
use vstd::string::StrSliceExecFns;
use crate::pattern::{rewrite, rewrite_all, match_count, count_pattern};

verus! {

/// Punctuation right after a newline or a tab.
pub const CONTROL_PUNCT: &'static str = r"([\n\t])\s*[.!?,;:]+";
/// Spaces or tabs before a newline or a tab.
pub const CONTROL_TRAILING_SPACE: &'static str = r"[ \t]+([\n\t])";
/// Periods, commas and semicolons right after a bracket.
pub const SYMBOL_PUNCT: &'static str = r"([()\[\]\{\}])\s*[.,;]+";
pub const OPEN_PAREN_SPACE: &'static str = r"\( +";
pub const CLOSE_PAREN_SPACE: &'static str = r" +\)";
pub const OPEN_PAREN_COMMA: &'static str = r"\(\s*,\s*";
pub const CLOSE_PAREN_COMMA: &'static str = r"\s*,\s*\)";
pub const OPEN_BRACKET_COMMA: &'static str = r"\[\s*,\s*";
pub const CLOSE_BRACKET_COMMA: &'static str = r"\s*,\s*\]";
pub const OPEN_BRACE_COMMA: &'static str = r"\{\s*,\s*";
pub const CLOSE_BRACE_COMMA: &'static str = r"\s*,\s*\}";
/// Spaces or tabs before a punctuation mark.
pub const SPACE_BEFORE_PUNCT: &'static str = r"[ \t]+([,.;:!?])";
/// A comma followed by more commas.
pub const DUPLICATE_COMMA: &'static str = r",(?:\s*,)+";
/// A run of spaces.
pub const SPACE_RUN: &'static str = r" +";
pub const SPACE_BEFORE_NEWLINE: &'static str = r"[ \t]+\n";
pub const SPACE_AFTER_NEWLINE: &'static str = r"\n[ \t]+";
/// Underscores standing apart between two words.
pub const UNDERSCORE_BRIDGE: &'static str = r"([^\s_])\s+(_+)\s+([^\s_])";

/// The clean-up of command artifacts: each rule applied once, in order.
pub open spec fn control_cleanup(s: Seq<char>) -> Seq<char> {
    let s1 = rewrite(CONTROL_PUNCT@, s, "$1"@);
    let s2 = rewrite(CONTROL_TRAILING_SPACE@, s1, "$1"@);
    let s3 = rewrite(SYMBOL_PUNCT@, s2, "$1"@);
    let s4 = rewrite(OPEN_PAREN_SPACE@, s3, "("@);
    let s5 = rewrite(CLOSE_PAREN_SPACE@, s4, ")"@);
    let s6 = rewrite(OPEN_PAREN_COMMA@, s5, "("@);
    let s7 = rewrite(CLOSE_PAREN_COMMA@, s6, ")"@);
    let s8 = rewrite(OPEN_BRACKET_COMMA@, s7, "[ "@);
    let s9 = rewrite(CLOSE_BRACKET_COMMA@, s8, " ]"@);
    let s10 = rewrite(OPEN_BRACE_COMMA@, s9, "{ "@);
    let s11 = rewrite(CLOSE_BRACE_COMMA@, s10, " }"@);
    let s12 = rewrite(SPACE_BEFORE_PUNCT@, s11, "$1"@);
    rewrite(DUPLICATE_COMMA@, s12, ","@)
}

/// Removes punctuation and commas left around newlines, tabs and brackets,
/// spaces before punctuation, and repeated commas.
pub fn clean_control_artifacts(input: &str) -> (r: String)
    ensures
        r@ == control_cleanup(input@),
{
    let s1 = rewrite_all(CONTROL_PUNCT, input, "$1");
    let s2 = rewrite_all(CONTROL_TRAILING_SPACE, s1.as_str(), "$1");
    let s3 = rewrite_all(SYMBOL_PUNCT, s2.as_str(), "$1");
    let s4 = rewrite_all(OPEN_PAREN_SPACE, s3.as_str(), "(");
    let s5 = rewrite_all(CLOSE_PAREN_SPACE, s4.as_str(), ")");
    let s6 = rewrite_all(OPEN_PAREN_COMMA, s5.as_str(), "(");
    let s7 = rewrite_all(CLOSE_PAREN_COMMA, s6.as_str(), ")");
    let s8 = rewrite_all(OPEN_BRACKET_COMMA, s7.as_str(), "[ ");
    let s9 = rewrite_all(CLOSE_BRACKET_COMMA, s8.as_str(), " ]");
    let s10 = rewrite_all(OPEN_BRACE_COMMA, s9.as_str(), "{ ");
    let s11 = rewrite_all(CLOSE_BRACE_COMMA, s10.as_str(), " }");
    let s12 = rewrite_all(SPACE_BEFORE_PUNCT, s11.as_str(), "$1");
    rewrite_all(DUPLICATE_COMMA, s12.as_str(), ",")
}

/// Collapses every run of spaces to one space.
pub fn collapse_spaces(input: &str) -> (r: String)
    ensures
        r@ == rewrite(SPACE_RUN@, input@, " "@),
{
    rewrite_all(SPACE_RUN, input, " ")
}

/// `a + b`, or `usize::MAX` when that does not fit.
pub open spec fn saturating_sum(a: nat, b: nat) -> nat {
    if a + b <= usize::MAX { a + b } else { usize::MAX as nat }
}

/// The text without spaces and tabs before newlines.
pub open spec fn without_space_before_newline(s: Seq<char>) -> Seq<char> {
    rewrite(SPACE_BEFORE_NEWLINE@, s, "\n"@)
}

/// Removes spaces and tabs before and after each newline; also returns how
/// many runs it removed.
pub fn trim_spaces_around_newlines(input: &str) -> (r: (String, usize))
    ensures
        r.0@ == rewrite(SPACE_AFTER_NEWLINE@, without_space_before_newline(input@), "\n"@),
        r.1 as nat == saturating_sum(
            match_count(SPACE_BEFORE_NEWLINE@, input@),
            match_count(SPACE_AFTER_NEWLINE@, without_space_before_newline(input@)),
        ),
{
    let trailing = count_pattern(SPACE_BEFORE_NEWLINE, input);
    let without_trailing = rewrite_all(SPACE_BEFORE_NEWLINE, input, "\n");
    let leading = count_pattern(SPACE_AFTER_NEWLINE, without_trailing.as_str());
    let result = rewrite_all(SPACE_AFTER_NEWLINE, without_trailing.as_str(), "\n");
    (result, trailing.saturating_add(leading))
}

/// Rewrites `s` with `pattern` pass after pass, while the pattern matches and
/// each pass shortens the text; returns the result and the number of matches
/// rewritten over all passes.
pub open spec fn rewrite_passes(pattern: Seq<char>, replacement: Seq<char>, s: Seq<char>) -> (Seq<char>, nat)
    decreases s.len(),
{
    let found = match_count(pattern, s);
    if found == 0 {
        (s, 0)
    } else {
        let t = rewrite(pattern, s, replacement);
        if t.len() < s.len() {
            let rest = rewrite_passes(pattern, replacement, t);
            (rest.0, rest.1 + found)
        } else {
            (t, found)
        }
    }
}

pub open spec fn capped(n: nat) -> nat {
    if n <= usize::MAX { n } else { usize::MAX as nat }
}

/// Rewrites `input` with `pattern` until nothing matches (or a pass no
/// longer shortens it); also returns the number of rewritten matches.
pub fn rewrite_repeatedly(pattern: &str, input: &str, replacement: &str) -> (r: (String, usize))
    ensures
        r.0@ == rewrite_passes(pattern@, replacement@, input@).0,
        r.1 as nat == capped(rewrite_passes(pattern@, replacement@, input@).1),
{
    let mut current = input.to_owned();
    let mut total: usize = 0;
    let mut len = current.as_str().unicode_len();
    loop
        invariant
            len == current@.len(),
            rewrite_passes(pattern@, replacement@, input@).0 == rewrite_passes(pattern@, replacement@, current@).0,
            saturating_sum(total as nat, rewrite_passes(pattern@, replacement@, current@).1) == saturating_sum(
                0,
                rewrite_passes(pattern@, replacement@, input@).1,
            ),
        decreases len,
    {
        let found = count_pattern(pattern, current.as_str());
        if found == 0 {
            return (current, total);
        }
        let next = rewrite_all(pattern, current.as_str(), replacement);
        let next_len = next.as_str().unicode_len();
        let ghost before = current@;
        total = total.saturating_add(found);
        if next_len >= len {
            return (next, total);
        }
        current = next;
        len = next_len;
        assert(rewrite_passes(pattern@, replacement@, before).1 == rewrite_passes(pattern@, replacement@, current@).1 + found);
    }
}

/// The result of joining underscores: `word _ word` becomes `word_word`.
pub open spec fn bridge_passes(s: Seq<char>) -> (Seq<char>, nat) {
    rewrite_passes(UNDERSCORE_BRIDGE@, "$1$2$3"@, s)
}

/// Joins words separated by spaced-out underscores (`foo _ bar` becomes
/// `foo_bar`), pass after pass; also returns the number of joins.
pub fn collapse_underscore_spacing(input: &str) -> (r: (String, usize))
    ensures
        r.0@ == bridge_passes(input@).0,
        r.1 as nat == capped(bridge_passes(input@).1),
{
    rewrite_repeatedly(UNDERSCORE_BRIDGE, input, "$1$2$3")
}

/// Patterns of two equal symbols with whitespace between them, and what
/// each pair becomes.
pub const MERGE_MINUS: &'static str = r"\-\s+\-";
pub const MERGE_UNDERSCORE: &'static str = r"_\s+_";
pub const MERGE_PLUS: &'static str = r"\+\s+\+";
pub const MERGE_STAR: &'static str = r"\*\s+\*";
pub const MERGE_SLASH: &'static str = r"/\s+/";
pub const MERGE_EQUALS: &'static str = r"=\s+=";
pub const MERGE_TILDE: &'static str = r"\~\s+\~";
pub const MERGE_CARET: &'static str = r"\^\s+\^";

/// One symbol's merging, added to the text and count so far.
pub open spec fn merge_step(acc: (Seq<char>, nat), pattern: Seq<char>, pair: Seq<char>) -> (Seq<char>, nat) {
    let r = rewrite_passes(pattern, pair, acc.0);
    (r.0, capped(acc.1 + capped(r.1)))
}

/// Symbols `-`, `_`, `+`, `*`, `/`, `=`, `~`, `^` in turn: each pair of the
/// symbol split by whitespace is joined, pass after pass.
pub open spec fn merged_symbols(s: Seq<char>) -> (Seq<char>, nat) {
    let a1 = merge_step((s, 0), MERGE_MINUS@, "--"@);
    let a2 = merge_step(a1, MERGE_UNDERSCORE@, "__"@);
    let a3 = merge_step(a2, MERGE_PLUS@, "++"@);
    let a4 = merge_step(a3, MERGE_STAR@, "**"@);
    let a5 = merge_step(a4, MERGE_SLASH@, "//"@);
    let a6 = merge_step(a5, MERGE_EQUALS@, "=="@);
    let a7 = merge_step(a6, MERGE_TILDE@, "~~"@);
    merge_step(a7, MERGE_CARET@, "^^"@)
}

fn merge_symbol(text: &str, total: usize, pattern: &str, pair: &str) -> (r: (String, usize))
    ensures
        (r.0@, r.1 as nat) == merge_step((text@, total as nat), pattern@, pair@),
{
    let (merged, count) = rewrite_repeatedly(pattern, text, pair);
    (merged, total.saturating_add(count))
}

/// Joins repeated symbols that speech recognition spaced apart (`- -`
/// becomes `--`); also returns the number of joins.
pub fn merge_separated_identical_symbols(input: &str) -> (r: (String, usize))
    ensures
        (r.0@, r.1 as nat) == merged_symbols(input@),
{
    let (t1, n1) = merge_symbol(input, 0, MERGE_MINUS, "--");
    let (t2, n2) = merge_symbol(t1.as_str(), n1, MERGE_UNDERSCORE, "__");
    let (t3, n3) = merge_symbol(t2.as_str(), n2, MERGE_PLUS, "++");
    let (t4, n4) = merge_symbol(t3.as_str(), n3, MERGE_STAR, "**");
    let (t5, n5) = merge_symbol(t4.as_str(), n4, MERGE_SLASH, "//");
    let (t6, n6) = merge_symbol(t5.as_str(), n5, MERGE_EQUALS, "==");
    let (t7, n7) = merge_symbol(t6.as_str(), n6, MERGE_TILDE, "~~");
    merge_symbol(t7.as_str(), n7, MERGE_CARET, "^^")
}

/// Unicode `White_Space`, the property `char::is_whitespace` tests.
pub open spec fn is_space_char(c: char) -> bool {
    ||| '\u{9}' <= c <= '\u{d}'
    ||| c == ' '
    ||| c == '\u{85}'
    ||| c == '\u{a0}'
    ||| c == '\u{1680}'
    ||| '\u{2000}' <= c <= '\u{200a}'
    ||| c == '\u{2028}'
    ||| c == '\u{2029}'
    ||| c == '\u{202f}'
    ||| c == '\u{205f}'
    ||| c == '\u{3000}'
}

pub fn is_space(c: char) -> (r: bool)
    ensures
        r == is_space_char(c),
{
    ('\u{9}' <= c && c <= '\u{d}') || c == ' ' || c == '\u{85}' || c == '\u{a0}' || c == '\u{1680}'
        || ('\u{2000}' <= c && c <= '\u{200a}') || c == '\u{2028}' || c == '\u{2029}' || c
        == '\u{202f}' || c == '\u{205f}' || c == '\u{3000}'
}

pub open spec fn is_ascii_lower(c: char) -> bool {
    'a' <= c <= 'z'
}

/// The ASCII capital of a lowercase ASCII letter.
pub open spec fn ascii_upper(c: char) -> char {
    if is_ascii_lower(c) { ((c as u32) - 32) as char } else { c }
}

pub fn to_ascii_upper(c: char) -> (r: char)
    ensures
        r == ascii_upper(c),
{
    if 'a' <= c && c <= 'z' {
        let b = (c as u32 - 32) as u8;
        b as char
    } else {
        c
    }
}


/// Relies on `String::push`: appends one character.
#[verifier::external_body]
pub(crate) fn push_char(s: &mut String, c: char)
    ensures
        final(s)@ == old(s)@.push(c),
{
    s.push(c)
}

/// Progress of the capitalisation scan.
pub struct CapScan {
    /// The next non-whitespace character starts a sentence.
    pub capitalize_next: bool,
    /// A sentence-ending mark was seen; a following space starts a sentence.
    pub awaiting_space: bool,
    pub output: Seq<char>,
    pub count: nat,
}

pub open spec fn cap_start() -> CapScan {
    CapScan { capitalize_next: true, awaiting_space: false, output: seq![], count: 0 }
}

/// One character of the scan. A sentence starts at the beginning of the
/// text, after a newline, and after a space that follows `.`, `!` or `?`
/// (other whitespace may come between them); its first non-whitespace
/// character is capitalised when it is a lowercase ASCII letter.
pub open spec fn cap_step(st: CapScan, ch: char) -> CapScan {
    let cap = if st.awaiting_space && ch == ' ' { true } else { st.capitalize_next };
    let awaiting = if st.awaiting_space && !is_space_char(ch) { false } else { st.awaiting_space };
    let starts = cap && !is_space_char(ch);
    let changed = starts && is_ascii_lower(ch);
    let out = if changed { ascii_upper(ch) } else { ch };
    let cap2 = if starts { false } else { cap };
    let awaiting2 = if starts { false } else { awaiting };
    CapScan {
        capitalize_next: if ch == '.' || ch == '!' || ch == '?' {
            false
        } else if ch == '\n' {
            true
        } else {
            cap2
        },
        awaiting_space: if ch == '.' || ch == '!' || ch == '?' {
            true
        } else if ch == '\n' {
            false
        } else {
            awaiting2
        },
        output: st.output.push(out),
        count: st.count + if changed { 1nat } else { 0nat },
    }
}

pub open spec fn cap_scan(s: Seq<char>) -> CapScan
    decreases s.len(),
{
    if s.len() == 0 {
        cap_start()
    } else {
        cap_step(cap_scan(s.drop_last()), s.last())
    }
}

/// Capitalises the first letter of each sentence; also returns how many
/// letters it changed.
pub fn capitalize_after_period(input: &str) -> (r: (String, usize))
    ensures
        r.0@ == cap_scan(input@).output,
        r.1 as nat == cap_scan(input@).count,
{
    let len = input.unicode_len();
    let mut result = String::new();
    let mut capitalize_next = true;
    let mut awaiting_space = false;
    let mut count: usize = 0;
    let mut i: usize = 0;
    while i < len
        invariant
            len == input@.len(),
            i <= len,
            count <= i,
            ({
                let st = cap_scan(input@.take(i as int));
                &&& st.capitalize_next == capitalize_next
                &&& st.awaiting_space == awaiting_space
                &&& st.output == result@
                &&& st.count == count
            }),
        decreases len - i,
    {
        let ch = input.get_char(i);
        proof {
            assert(input@.take(i + 1).drop_last() =~= input@.take(i as int));
        }
        if awaiting_space {
            if ch == ' ' {
                capitalize_next = true;
            } else if !is_space(ch) {
                awaiting_space = false;
            }
        }
        let mut out = ch;
        if capitalize_next && !is_space(ch) {
            if 'a' <= ch && ch <= 'z' {
                out = to_ascii_upper(ch);
                count = count + 1;
            }
            capitalize_next = false;
            awaiting_space = false;
        }
        push_char(&mut result, out);
        if ch == '.' || ch == '!' || ch == '?' {
            capitalize_next = false;
            awaiting_space = true;
        } else if ch == '\n' {
            capitalize_next = true;
            awaiting_space = false;
        }
        i = i + 1;
    }
    proof {
        assert(input@.take(len as int) =~= input@);
    }
    (result, count)
}

/// The text with each line break (`\r\n`, `\r` or `\n`) turned into one space.
pub open spec fn normalized_breaks(s: Seq<char>) -> Seq<char>
    decreases s.len(),
{
    if s.len() == 0 {
        seq![]
    } else if s.len() >= 2 && s[0] == '\r' && s[1] == '\n' {
        seq![' '] + normalized_breaks(s.subrange(2, s.len() as int))
    } else if s[0] == '\r' || s[0] == '\n' {
        seq![' '] + normalized_breaks(s.drop_first())
    } else {
        seq![s[0]] + normalized_breaks(s.drop_first())
    }
}


/// Turns every line break into a space: dictated text is typed as one line.
pub fn normalize_line_breaks(input: &str) -> (r: String)
    ensures
        r@ == normalized_breaks(input@),
{
    let len = input.unicode_len();
    let mut result = String::new();
    let mut i: usize = 0;
    proof {
        assert(input@.subrange(0, len as int) =~= input@);
        assert(result@ + normalized_breaks(input@) =~= normalized_breaks(input@));
    }
    while i < len
        invariant
            len == input@.len(),
            i <= len,
            normalized_breaks(input@) == result@ + normalized_breaks(input@.subrange(i as int, len as int)),
        decreases len - i,
    {
        let ghost rest = input@.subrange(i as int, len as int);
        let ghost before = result@;
        let ch = input.get_char(i);
        if ch == '\r' && i + 1 < len && input.get_char(i + 1) == '\n' {
            push_char(&mut result, ' ');
            proof {
                let tail = input@.subrange(i + 2, len as int);
                assert(rest.subrange(2, rest.len() as int) =~= tail);
                assert(normalized_breaks(rest) == seq![' '] + normalized_breaks(tail));
                assert(before + (seq![' '] + normalized_breaks(tail)) =~= result@ + normalized_breaks(tail));
            }
            i = i + 2;
        } else {
            if ch == '\r' || ch == '\n' {
                push_char(&mut result, ' ');
            } else {
                push_char(&mut result, ch);
            }
            proof {
                let tail = input@.subrange(i + 1, len as int);
                assert(rest.drop_first() =~= tail);
                assert(normalized_breaks(rest) == seq![result@.last()] + normalized_breaks(tail));
                assert(before + (seq![result@.last()] + normalized_breaks(tail)) =~= result@ + normalized_breaks(tail));
            }
            i = i + 1;
        }
    }
    proof {
        assert(input@.subrange(len as int, len as int) =~= Seq::<char>::empty());
        assert(result@ + Seq::<char>::empty() =~= result@);
    }
    result
}

} // verus!
