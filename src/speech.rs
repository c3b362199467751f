//! Spoken punctuation commands ("comma", "new line", "open paren", ...)
//! turned into the characters they name.

use vstd::prelude::*;
use vstd::string::StrSliceExecFns;
use crate::cleanup::push_char;
use crate::pattern::{Pattern, regex_accepts, regex_capture_matches, matches_in_order};
use crate::text::{same_text, to_ascii_lowercase, ascii_lower};

verus! {

/// Every command phrase, longest first, as one case-insensitive pattern; a
/// command may be followed by punctuation, which it absorbs.
pub const SPEECH_COMMAND_PATTERN: &'static str = r"(?i)\b(?P<command>exclamation point|close parenthesis|close parentheses|exclamation mark|open parenthesis|open parentheses|question mark|close bracket|open bracket|greater than|double quote|single quote|close paren|close brace|dollar sign|underscore|open paren|open brace|apostrophe|semicolon|dash dash|at symbol|ampersand|less than|backslash|new line|asterisk|percent|period|hyphen|equals|comma|colon|caret|slash|tilde|grave|quote|dash|hash|plus|pipe|tab)\b[.!?,;:]*";

/// The text a spoken command (in lowercase) stands for, and whether it is a
/// punctuation mark that replaces punctuation and spaces before it.
pub open spec fn speech_entry(key: Seq<char>) -> Option<(Seq<char>, bool)> {
    if key == "period"@ {
        Some(("."@, true))
    } else if key == "comma"@ {
        Some((","@, true))
    } else if key == "question mark"@ {
        Some(("?"@, true))
    } else if key == "exclamation mark"@ {
        Some(("!"@, true))
    } else if key == "exclamation point"@ {
        Some(("!"@, true))
    } else if key == "colon"@ {
        Some((":"@, true))
    } else if key == "semicolon"@ {
        Some((";"@, true))
    } else if key == "new line"@ {
        Some(("\n"@, false))
    } else if key == "tab"@ {
        Some(("\t"@, false))
    } else if key == "dash"@ {
        Some(("-"@, false))
    } else if key == "dash dash"@ {
        Some(("--"@, false))
    } else if key == "hyphen"@ {
        Some(("-"@, false))
    } else if key == "underscore"@ {
        Some(("_"@, false))
    } else if key == "open paren"@ {
        Some(("("@, false))
    } else if key == "open parenthesis"@ {
        Some(("("@, false))
    } else if key == "open parentheses"@ {
        Some(("("@, false))
    } else if key == "close paren"@ {
        Some((")"@, false))
    } else if key == "close parenthesis"@ {
        Some((")"@, false))
    } else if key == "close parentheses"@ {
        Some((")"@, false))
    } else if key == "open bracket"@ {
        Some(("["@, false))
    } else if key == "close bracket"@ {
        Some(("]"@, false))
    } else if key == "open brace"@ {
        Some(("{"@, false))
    } else if key == "close brace"@ {
        Some(("}"@, false))
    } else if key == "at symbol"@ {
        Some(("@"@, false))
    } else if key == "hash"@ {
        Some(("#"@, false))
    } else if key == "dollar sign"@ {
        Some(("$"@, false))
    } else if key == "percent"@ {
        Some(("%"@, false))
    } else if key == "caret"@ {
        Some(("^"@, false))
    } else if key == "ampersand"@ {
        Some(("&"@, false))
    } else if key == "asterisk"@ {
        Some(("*"@, false))
    } else if key == "plus"@ {
        Some(("+"@, false))
    } else if key == "equals"@ {
        Some(("="@, false))
    } else if key == "less than"@ {
        Some(("<"@, false))
    } else if key == "greater than"@ {
        Some((">"@, false))
    } else if key == "slash"@ {
        Some(("/"@, false))
    } else if key == "backslash"@ {
        Some(("\\"@, false))
    } else if key == "pipe"@ {
        Some(("|"@, false))
    } else if key == "tilde"@ {
        Some(("~"@, false))
    } else if key == "grave"@ {
        Some(("`"@, false))
    } else if key == "quote"@ {
        Some(("\""@, false))
    } else if key == "double quote"@ {
        Some(("\""@, false))
    } else if key == "apostrophe"@ {
        Some(("'"@, false))
    } else if key == "single quote"@ {
        Some(("'"@, false))
    } else {
        None
    }
}

/// Looks up a command phrase, given in lowercase.
pub fn lookup_speech_entry(key: &str) -> (r: Option<(&'static str, bool)>)
    ensures
        r is None ==> speech_entry(key@) is None,
        r matches Some(e) ==> speech_entry(key@) == Some((e.0@, e.1)),
{
    if same_text(key, "period") {
        Some((".", true))
    } else if same_text(key, "comma") {
        Some((",", true))
    } else if same_text(key, "question mark") {
        Some(("?", true))
    } else if same_text(key, "exclamation mark") {
        Some(("!", true))
    } else if same_text(key, "exclamation point") {
        Some(("!", true))
    } else if same_text(key, "colon") {
        Some((":", true))
    } else if same_text(key, "semicolon") {
        Some((";", true))
    } else if same_text(key, "new line") {
        Some(("\n", false))
    } else if same_text(key, "tab") {
        Some(("\t", false))
    } else if same_text(key, "dash") {
        Some(("-", false))
    } else if same_text(key, "dash dash") {
        Some(("--", false))
    } else if same_text(key, "hyphen") {
        Some(("-", false))
    } else if same_text(key, "underscore") {
        Some(("_", false))
    } else if same_text(key, "open paren") {
        Some(("(", false))
    } else if same_text(key, "open parenthesis") {
        Some(("(", false))
    } else if same_text(key, "open parentheses") {
        Some(("(", false))
    } else if same_text(key, "close paren") {
        Some((")", false))
    } else if same_text(key, "close parenthesis") {
        Some((")", false))
    } else if same_text(key, "close parentheses") {
        Some((")", false))
    } else if same_text(key, "open bracket") {
        Some(("[", false))
    } else if same_text(key, "close bracket") {
        Some(("]", false))
    } else if same_text(key, "open brace") {
        Some(("{", false))
    } else if same_text(key, "close brace") {
        Some(("}", false))
    } else if same_text(key, "at symbol") {
        Some(("@", false))
    } else if same_text(key, "hash") {
        Some(("#", false))
    } else if same_text(key, "dollar sign") {
        Some(("$", false))
    } else if same_text(key, "percent") {
        Some(("%", false))
    } else if same_text(key, "caret") {
        Some(("^", false))
    } else if same_text(key, "ampersand") {
        Some(("&", false))
    } else if same_text(key, "asterisk") {
        Some(("*", false))
    } else if same_text(key, "plus") {
        Some(("+", false))
    } else if same_text(key, "equals") {
        Some(("=", false))
    } else if same_text(key, "less than") {
        Some(("<", false))
    } else if same_text(key, "greater than") {
        Some((">", false))
    } else if same_text(key, "slash") {
        Some(("/", false))
    } else if same_text(key, "backslash") {
        Some(("\\", false))
    } else if same_text(key, "pipe") {
        Some(("|", false))
    } else if same_text(key, "tilde") {
        Some(("~", false))
    } else if same_text(key, "grave") {
        Some(("`", false))
    } else if same_text(key, "quote") {
        Some(("\"", false))
    } else if same_text(key, "double quote") {
        Some(("\"", false))
    } else if same_text(key, "apostrophe") {
        Some(("'", false))
    } else if same_text(key, "single quote") {
        Some(("'", false))
    } else {
        None
    }
}


pub open spec fn is_blank(c: char) -> bool {
    c == ' ' || c == '\t'
}

pub open spec fn is_mark(c: char) -> bool {
    c == '.' || c == ',' || c == '!' || c == '?' || c == ';' || c == ':'
}

/// Number of spaces and tabs at the end of `s`.
pub open spec fn trailing_blanks(s: Seq<char>) -> nat
    decreases s.len(),
{
    if s.len() > 0 && is_blank(s.last()) {
        trailing_blanks(s.drop_last()) + 1
    } else {
        0
    }
}

/// `s` without the punctuation marks at its end.
pub open spec fn without_trailing_marks(s: Seq<char>) -> Seq<char>
    decreases s.len(),
{
    if s.len() > 0 && is_mark(s.last()) {
        without_trailing_marks(s.drop_last())
    } else {
        s
    }
}

/// The text after a command's replacement is added to `buf`. A punctuation
/// command takes the place of the marks before it, keeping the spaces
/// after those marks behind the replacement.
pub open spec fn with_replacement(buf: Seq<char>, rep: Seq<char>, adjust: bool) -> Seq<char> {
    if adjust {
        let cut = buf.len() - trailing_blanks(buf);
        without_trailing_marks(buf.subrange(0, cut)) + rep + buf.subrange(cut, buf.len() as int)
    } else {
        buf + rep
    }
}

/// Output and number of commands applied, piece after piece.
pub open spec fn speech_fold(pieces: Seq<(Seq<char>, Option<Seq<char>>)>) -> (Seq<char>, nat)
    decreases pieces.len(),
{
    if pieces.len() == 0 {
        (seq![], 0)
    } else {
        let prev = speech_fold(pieces.drop_last());
        let gap = pieces.last().0;
        let b = prev.0 + gap;
        match pieces.last().1 {
            Some(c) => match speech_entry(c.map_values(|x: char| ascii_lower(x))) {
                Some(e) => (with_replacement(b, e.0, e.1), prev.1 + 1),
                None => (b, prev.1),
            },
            None => (b, prev.1),
        }
    }
}

/// The text with its spoken commands replaced, and how many there were.
pub open spec fn spoken_commands_applied(text: Seq<char>) -> (Seq<char>, nat) {
    if regex_accepts(SPEECH_COMMAND_PATTERN@) {
        speech_fold(
            command_pieces(text, regex_capture_matches(SPEECH_COMMAND_PATTERN@, text, "command"@)),
        )
    } else {
        (text, 0)
    }
}

fn is_blank_char(c: char) -> (r: bool)
    ensures
        r == is_blank(c),
{
    c == ' ' || c == '\t'
}

fn is_mark_char(c: char) -> (r: bool)
    ensures
        r == is_mark(c),
{
    c == '.' || c == ',' || c == '!' || c == '?' || c == ';' || c == ':'
}

/// Appends the characters of `s` to `buf`.
fn append_chars(buf: &mut Vec<char>, s: &str)
    ensures
        final(buf)@ == old(buf)@ + s@,
{
    let n = s.unicode_len();
    let ghost start = buf@;
    let mut i: usize = 0;
    while i < n
        invariant
            n == s@.len(),
            i <= n,
            buf@ == start + s@.take(i as int),
        decreases n - i,
    {
        buf.push(s.get_char(i));
        assert(s@.take(i + 1) =~= s@.take(i as int).push(s@[i as int]));
        assert(buf@ =~= start + s@.take(i + 1));
        i = i + 1;
    }
    assert(s@.take(n as int) =~= s@);
}

proof fn lemma_trailing_blanks_bound(s: Seq<char>)
    ensures
        trailing_blanks(s) <= s.len(),
    decreases s.len(),
{
    if s.len() > 0 && is_blank(s.last()) {
        lemma_trailing_blanks_bound(s.drop_last());
    }
}

/// Adds one command's replacement to the text built so far.
pub fn apply_speech_replacement_entry(buffer: &mut Vec<char>, replacement: &str, adjust: bool)
    ensures
        final(buffer)@ == with_replacement(old(buffer)@, replacement@, adjust),
{
    if !adjust {
        append_chars(buffer, replacement);
        return;
    }
    let ghost orig = buffer@;
    let len = buffer.len();
    let mut cut: usize = len;
    assert(orig.subrange(0, len as int) =~= orig);
    while cut > 0 && is_blank_char(buffer[cut - 1])
        invariant
            cut <= len == buffer@.len(),
            buffer@ == orig,
            trailing_blanks(orig) == trailing_blanks(orig.subrange(0, cut as int)) + (len - cut),
        decreases cut,
    {
        assert(orig.subrange(0, cut as int).drop_last() =~= orig.subrange(0, cut - 1));
        cut = cut - 1;
    }
    proof {
        assert(orig.subrange(0, len as int) =~= orig);
        if cut > 0 {
            assert(orig.subrange(0, cut as int).last() == orig[cut - 1]);
        }
        assert(trailing_blanks(orig.subrange(0, cut as int)) == 0);
    }
    let mut blanks: Vec<char> = Vec::new();
    let mut j: usize = cut;
    while j < len
        invariant
            cut <= j <= len == buffer@.len(),
            buffer@ == orig,
            blanks@ == orig.subrange(cut as int, j as int),
        decreases len - j,
    {
        blanks.push(buffer[j]);
        assert(blanks@ =~= orig.subrange(cut as int, j + 1));
        j = j + 1;
    }
    buffer.truncate(cut);
    assert(buffer@ =~= orig.subrange(0, cut as int));
    while buffer.len() > 0 && is_mark_char(buffer[buffer.len() - 1])
        invariant
            cut <= orig.len(),
            without_trailing_marks(orig.subrange(0, cut as int)) == without_trailing_marks(buffer@),
        decreases buffer@.len(),
    {
        assert(buffer@.drop_last() == buffer@.subrange(0, buffer@.len() - 1));
        buffer.pop();
    }
    append_chars(buffer, replacement);
    let mut k: usize = 0;
    let ghost mid = buffer@;
    while k < blanks.len()
        invariant
            k <= blanks@.len(),
            buffer@ == mid + blanks@.take(k as int),
        decreases blanks@.len() - k,
    {
        buffer.push(blanks[k]);
        assert(blanks@.take(k + 1) =~= blanks@.take(k as int).push(blanks@[k as int]));
        assert(buffer@ =~= mid + blanks@.take(k + 1));
        k = k + 1;
    }
    proof {
        assert(blanks@.take(blanks@.len() as int) =~= blanks@);
        lemma_trailing_blanks_bound(orig);
    }
}

/// Replaces spoken punctuation commands by the characters they name;
/// returns the text and the number of commands replaced.
pub fn apply_speech_replacements(text: &str) -> (r: (String, usize))
    ensures
        r.0@ == spoken_commands_applied(text@).0,
        r.1 as nat == spoken_commands_applied(text@).1,
{
    let pattern = match Pattern::new(SPEECH_COMMAND_PATTERN) {
        Some(p) => p,
        None => {
            return (text.to_owned(), 0);
        },
    };
    let matches = pattern.captures(text, "command");
    let pieces = split_at_matches(text, &matches);
    apply_speech_pieces(&pieces)
}

/// Where the text before match `i` starts: the end of the previous match.
pub open spec fn gap_start(ms: Seq<(usize, usize, Option<Seq<char>>)>, i: int) -> int {
    if i == 0 { 0 } else { ms[i - 1].1 as int }
}

/// The pieces of `text` around the matches `ms`: for each match the text
/// before it and its captured command, then the text after the last match.
pub open spec fn command_pieces(text: Seq<char>, ms: Seq<(usize, usize, Option<Seq<char>>)>) -> Seq<(Seq<char>, Option<Seq<char>>)> {
    Seq::new(
        ms.len() + 1,
        |i: int|
            if i < ms.len() {
                (text.subrange(gap_start(ms, i), ms[i].0 as int), ms[i].2)
            } else {
                (text.subrange(gap_start(ms, i), text.len() as int), None)
            },
    )
}

/// Cuts `text` at the given matches into the pieces between them.
pub fn split_at_matches(text: &str, matches: &Vec<(usize, usize, Option<String>)>) -> (r: Vec<(String, Option<String>)>)
    requires
        matches_in_order(matches.deep_view(), text@.len()),
    ensures
        r.deep_view() == command_pieces(text@, matches.deep_view()),
{
    let ghost ms = matches.deep_view();
    let n = text.unicode_len();
    let mut pieces: Vec<(String, Option<String>)> = Vec::new();
    let mut last: usize = 0;
    let mut i: usize = 0;
    while i < matches.len()
        invariant
            n == text@.len(),
            ms == matches.deep_view(),
            matches_in_order(ms, n as nat),
            i <= ms.len(),
            last as int == gap_start(ms, i as int),
            last <= n,
            pieces.deep_view() == command_pieces(text@, ms).take(i as int),
        decreases ms.len() - i,
    {
        assert(ms[i as int].0 == matches@[i as int].0);
        assert(ms[i as int].1 == matches@[i as int].1);
        assert(ms[i as int].0 <= ms[i as int].1 <= n);
        if i > 0 {
            assert(ms[i - 1].1 <= ms[i as int].0);
        }
        let gap = text.substring_char(last, matches[i].0).to_owned();
        let capture = match &matches[i].2 {
            Some(c) => Some(c.clone()),
            None => None,
        };
        assert(ms[i as int].2 == capture.deep_view());
        let ghost before = pieces.deep_view();
        pieces.push((gap, capture));
        assert(pieces.deep_view() =~= before.push(command_pieces(text@, ms)[i as int]));
        assert(command_pieces(text@, ms).take(i + 1) =~= command_pieces(text@, ms).take(i as int).push(
            command_pieces(text@, ms)[i as int],
        ));
        last = matches[i].1;
        i = i + 1;
    }
    let tail = text.substring_char(last, n).to_owned();
    let ghost before = pieces.deep_view();
    pieces.push((tail, None));
    assert(pieces.deep_view() =~= before.push(command_pieces(text@, ms)[ms.len() as int]));
    assert(command_pieces(text@, ms).take(ms.len() as int).push(command_pieces(text@, ms)[ms.len() as int])
        =~= command_pieces(text@, ms));
    pieces
}

/// Rebuilds a text from its pieces around spoken commands: each piece's
/// leading text, then the replacement of its command, if it names one.
pub fn apply_speech_pieces(pieces: &Vec<(String, Option<String>)>) -> (r: (String, usize))
    ensures
        r.0@ == speech_fold(pieces.deep_view()).0,
        r.1 as nat == speech_fold(pieces.deep_view()).1,
{
    let ghost dv = pieces.deep_view();
    let mut buffer: Vec<char> = Vec::new();
    let mut count: usize = 0;
    let mut i: usize = 0;
    while i < pieces.len()
        invariant
            i <= pieces@.len(),
            dv == pieces.deep_view(),
            count <= i,
            (buffer@, count as nat) == speech_fold(dv.take(i as int)),
        decreases pieces@.len() - i,
    {
        assert(dv.take(i + 1).drop_last() =~= dv.take(i as int));
        assert(dv[i as int].0 == pieces@[i as int].0@);
        append_chars(&mut buffer, pieces[i].0.as_str());
        match &pieces[i].1 {
            Some(command) => {
                assert(dv[i as int].1 == Some(command@));
                let key = to_ascii_lowercase(command.as_str());
                match lookup_speech_entry(key.as_str()) {
                    Some(entry) => {
                        apply_speech_replacement_entry(&mut buffer, entry.0, entry.1);
                        count = count + 1;
                    },
                    None => {},
                }
            },
            None => {
                assert(dv[i as int].1 == None::<Seq<char>>);
            },
        }
        i = i + 1;
    }
    assert(dv.take(pieces@.len() as int) =~= dv);
    let mut out = String::new();
    let mut k: usize = 0;
    while k < buffer.len()
        invariant
            k <= buffer@.len(),
            out@ == buffer@.take(k as int),
        decreases buffer@.len() - k,
    {
        push_char(&mut out, buffer[k]);
        assert(buffer@.take(k + 1) =~= buffer@.take(k as int).push(buffer@[k as int]));
        k = k + 1;
    }
    assert(buffer@.take(buffer@.len() as int) =~= buffer@);
    (out, count)
}

} // verus!
