//! Filtering of transcripts that carry no dictation: the prompt echoed
//! back, or only non-speech markers such as `[BLANK_AUDIO]`.

use vstd::prelude::*;
use vstd::string::StrSliceExecFns;
use crate::cleanup::{is_space_char, is_space, push_char, ascii_upper, to_ascii_upper};
use crate::pattern::{Pattern, regex_accepts, regex_is_match, regex_escaped, escape_literal};
use vstd::string::StringExecFns;
use crate::text::{trim_str, trimmed, same_text};

verus! {

/// The markers a transcriber writes, in brackets, for audio without speech.
pub open spec fn is_marker_name(s: Seq<char>) -> bool {
    s == "BLANK_AUDIO"@ || s == "INAUDIBLE"@ || s == "NO_SPEECH"@ || s == "SILENCE"@
}

pub open spec fn is_ascii_space(c: char) -> bool {
    c == ' ' || c == '\t' || c == '\n' || c == '\u{c}' || c == '\r'
}

pub open spec fn is_edge_punct(c: char) -> bool {
    c == '.' || c == ',' || c == '!' || c == '?' || c == '"'
}

/// Characters stripped from the ends of words and transcripts.
pub enum EdgeClass {
    /// `.`, `,`, `!`, `?` and `"`.
    Punctuation,
    /// ASCII whitespace.
    AsciiSpace,
}

pub open spec fn in_class(c: char, class: EdgeClass) -> bool {
    match class {
        EdgeClass::Punctuation => is_edge_punct(c),
        EdgeClass::AsciiSpace => is_ascii_space(c),
    }
}

/// `s` without leading, then trailing, characters of `class`.
pub open spec fn strip_class(s: Seq<char>, class: EdgeClass) -> Seq<char>
    decreases s.len(),
{
    if s.len() > 0 && in_class(s[0], class) {
        strip_class(s.drop_first(), class)
    } else if s.len() > 0 && in_class(s.last(), class) {
        strip_class(s.drop_last(), class)
    } else {
        s
    }
}

/// The characters of `s` that are not ASCII whitespace, in ASCII capitals.
pub open spec fn squeezed_upper(s: Seq<char>) -> Seq<char>
    decreases s.len(),
{
    if s.len() == 0 {
        seq![]
    } else if is_ascii_space(s.last()) {
        squeezed_upper(s.drop_last())
    } else {
        squeezed_upper(s.drop_last()).push(ascii_upper(s.last()))
    }
}

/// How a whitespace-separated word of a transcript counts.
pub enum WordKind {
    /// Nothing left once surrounding punctuation is removed.
    Empty,
    /// A bracketed non-speech marker.
    Marker,
    /// Anything else.
    Speech,
}

pub open spec fn word_kind(w: Seq<char>) -> WordKind {
    let t = strip_class(w, EdgeClass::Punctuation);
    if t.len() == 0 {
        WordKind::Empty
    } else if t[0] != '[' || t.last() != ']' || t.len() < 2 {
        WordKind::Speech
    } else {
        let inner = trimmed(t.subrange(1, t.len() - 1));
        if inner.len() > 0 && is_marker_name(squeezed_upper(inner)) {
            WordKind::Marker
        } else {
            WordKind::Speech
        }
    }
}

/// Words seen so far and the word being read, scanning `s` from the left.
pub open spec fn word_scan(s: Seq<char>) -> (Seq<Seq<char>>, Seq<char>)
    decreases s.len(),
{
    if s.len() == 0 {
        (seq![], seq![])
    } else {
        let (done, cur) = word_scan(s.drop_last());
        if is_space_char(s.last()) {
            (if cur.len() > 0 { done.push(cur) } else { done }, seq![])
        } else {
            (done, cur.push(s.last()))
        }
    }
}

/// The maximal runs of non-whitespace characters of `s`.
pub open spec fn words(s: Seq<char>) -> Seq<Seq<char>> {
    let (done, cur) = word_scan(s);
    if cur.len() > 0 { done.push(cur) } else { done }
}

/// Only bracketed non-speech markers, and at least one of them.
pub open spec fn only_markers(s: Seq<char>) -> bool {
    let ws = words(s);
    &&& forall|k: int| 0 <= k < ws.len() ==> !(word_kind(#[trigger] ws[k]) is Speech)
    &&& exists|k: int| 0 <= k < ws.len() && word_kind(#[trigger] ws[k]) is Marker
}

fn is_edge_punct_char(c: char) -> (r: bool)
    ensures
        r == is_edge_punct(c),
{
    c == '.' || c == ',' || c == '!' || c == '?' || c == '"'
}

fn is_ascii_space_char(c: char) -> (r: bool)
    ensures
        r == is_ascii_space(c),
{
    c == ' ' || c == '\t' || c == '\n' || c == '\u{c}' || c == '\r'
}

fn char_in_class(c: char, class: &EdgeClass) -> (r: bool)
    ensures
        r == in_class(c, *class),
{
    match class {
        EdgeClass::Punctuation => is_edge_punct_char(c),
        EdgeClass::AsciiSpace => is_ascii_space_char(c),
    }
}

/// `s` without surrounding characters of `class`.
fn strip_edges(s: &str, class: EdgeClass) -> (r: &str)
    ensures
        r@ == strip_class(s@, class),
{
    let mut lo: usize = 0;
    let hi0: usize = s.unicode_len();
    let mut front_done = false;
    assert(s@.subrange(0, hi0 as int) =~= s@);
    while lo < hi0 && !front_done
        invariant
            lo <= hi0,
            hi0 == s@.len(),
            strip_class(s@, class) == strip_class(s@.subrange(lo as int, hi0 as int), class),
            front_done ==> lo < hi0 && !in_class(s@[lo as int], class),
        decreases hi0 - lo + if front_done { 0int } else { 1int },
    {
        if char_in_class(s.get_char(lo), &class) {
            assert(s@.subrange(lo as int, hi0 as int).drop_first() =~= s@.subrange(lo + 1, hi0 as int));
            lo = lo + 1;
        } else {
            front_done = true;
        }
    }
    let mut hi = hi0;
    let mut back_done = false;
    while lo < hi && !back_done
        invariant
            lo <= hi <= s@.len(),
            strip_class(s@, class) == strip_class(s@.subrange(lo as int, hi as int), class),
            lo < hi ==> !in_class(s@[lo as int], class),
            back_done ==> lo < hi && !in_class(s@[hi - 1], class),
        decreases hi - lo + if back_done { 0int } else { 1int },
    {
        if char_in_class(s.get_char(hi - 1), &class) {
            assert(s@.subrange(lo as int, hi as int).drop_last() =~= s@.subrange(lo as int, hi - 1));
            hi = hi - 1;
        } else {
            back_done = true;
        }
    }
    proof {
        let t = s@.subrange(lo as int, hi as int);
        if lo < hi {
            assert(t[0] == s@[lo as int]);
            assert(t.last() == s@[hi - 1]);
        }
    }
    s.substring_char(lo, hi)
}

/// The squeezed, capitalised form of `s`.
fn squeeze_upper(s: &str) -> (r: String)
    ensures
        r@ == squeezed_upper(s@),
{
    let n = s.unicode_len();
    let mut out = String::new();
    let mut i: usize = 0;
    while i < n
        invariant
            n == s@.len(),
            i <= n,
            out@ == squeezed_upper(s@.take(i as int)),
        decreases n - i,
    {
        let c = s.get_char(i);
        assert(s@.take(i + 1).drop_last() =~= s@.take(i as int));
        if !is_ascii_space_char(c) {
            push_char(&mut out, to_ascii_upper(c));
        }
        i = i + 1;
    }
    assert(s@.take(n as int) =~= s@);
    out
}

fn word_is_marker_or_empty(w: &str) -> (r: WordKind)
    ensures
        r == word_kind(w@),
{
    let t = strip_edges(w, EdgeClass::Punctuation);
    let n = t.unicode_len();
    if n == 0 {
        return WordKind::Empty;
    }
    if t.get_char(0) != '[' || t.get_char(n - 1) != ']' || n < 2 {
        return WordKind::Speech;
    }
    let inner = trim_str(t.substring_char(1, n - 1));
    if inner.unicode_len() == 0 {
        return WordKind::Speech;
    }
    let name = squeeze_upper(inner);
    let known = same_text(name.as_str(), "BLANK_AUDIO") || same_text(name.as_str(), "INAUDIBLE")
        || same_text(name.as_str(), "NO_SPEECH") || same_text(name.as_str(), "SILENCE");
    if known {
        WordKind::Marker
    } else {
        WordKind::Speech
    }
}

/// Adds the verdict on word `w` to the running one: no speech word so far
/// (`clean`) and some marker so far (`found`).
proof fn lemma_verdict_push(done: Seq<Seq<char>>, w: Seq<char>)
    ensures
        (forall|k: int| 0 <= k < done.push(w).len() ==> !(word_kind(#[trigger] done.push(w)[k]) is Speech))
            == ((forall|k: int| 0 <= k < done.len() ==> !(word_kind(#[trigger] done[k]) is Speech))
            && !(word_kind(w) is Speech)),
        (exists|k: int| 0 <= k < done.push(w).len() && word_kind(#[trigger] done.push(w)[k]) is Marker)
            == ((exists|k: int| 0 <= k < done.len() && word_kind(#[trigger] done[k]) is Marker)
            || word_kind(w) is Marker),
{
    let d2 = done.push(w);
    assert(d2[done.len() as int] == w);
    assert forall|k: int| 0 <= k < done.len() implies d2[k] == done[k] by {}
    if exists|k: int| 0 <= k < done.len() && word_kind(#[trigger] done[k]) is Marker {
        let k = choose|k: int| 0 <= k < done.len() && word_kind(#[trigger] done[k]) is Marker;
        assert(d2[k] == done[k]);
    }
    if exists|k: int| 0 <= k < d2.len() && word_kind(#[trigger] d2[k]) is Marker {
        let k = choose|k: int| 0 <= k < d2.len() && word_kind(#[trigger] d2[k]) is Marker;
        if k < done.len() {
            assert(d2[k] == done[k]);
        }
    }
}

/// Whether the transcript holds bracketed non-speech markers and nothing
/// else (punctuation around them aside).
pub fn contains_only_non_speech_markers(transcription: &str) -> (r: bool)
    ensures
        r == only_markers(transcription@),
{
    let s = transcription;
    let n = s.unicode_len();
    let mut clean = true;
    let mut found = false;
    let mut start: usize = 0;
    let mut i: usize = 0;
    while i < n
        invariant
            n == s@.len(),
            start <= i <= n,
            word_scan(s@.take(i as int)).1 == s@.subrange(start as int, i as int),
            clean == forall|k: int| 0 <= k < word_scan(s@.take(i as int)).0.len()
                ==> !(word_kind(#[trigger] word_scan(s@.take(i as int)).0[k]) is Speech),
            found == exists|k: int| 0 <= k < word_scan(s@.take(i as int)).0.len()
                && word_kind(#[trigger] word_scan(s@.take(i as int)).0[k]) is Marker,
        decreases n - i,
    {
        let ghost done = word_scan(s@.take(i as int)).0;
        let c = s.get_char(i);
        assert(s@.take(i + 1).drop_last() =~= s@.take(i as int));
        if is_space(c) {
            if start < i {
                let kind = word_is_marker_or_empty(s.substring_char(start, i));
                proof {
                    lemma_verdict_push(done, s@.subrange(start as int, i as int));
                }
                match kind {
                    WordKind::Speech => {
                        clean = false;
                    },
                    WordKind::Marker => {
                        found = true;
                    },
                    WordKind::Empty => {},
                }
            }
            start = i + 1;
        } else {
            assert(s@.subrange(start as int, i + 1) =~= s@.subrange(start as int, i as int).push(c));
        }
        i = i + 1;
    }
    assert(s@.take(n as int) =~= s@);
    if start < n {
        let kind = word_is_marker_or_empty(s.substring_char(start, n));
        proof {
            lemma_verdict_push(word_scan(s@).0, s@.subrange(start as int, n as int));
        }
        match kind {
            WordKind::Speech => {
                clean = false;
            },
            WordKind::Marker => {
                found = true;
            },
            WordKind::Empty => {},
        }
    }
    clean && found
}


pub open spec fn is_terminator(c: char) -> bool {
    c == '.' || c == '!' || c == '?'
}

/// Finished pieces and the piece being read, splitting `s` at `.`, `!` and `?`.
pub open spec fn piece_scan(s: Seq<char>) -> (Seq<Seq<char>>, Seq<char>)
    decreases s.len(),
{
    if s.len() == 0 {
        (seq![], seq![])
    } else {
        let (done, cur) = piece_scan(s.drop_last());
        if is_terminator(s.last()) {
            (done.push(cur), seq![])
        } else {
            (done, cur.push(s.last()))
        }
    }
}

/// The sentences of `s`: the pieces between `.`, `!` and `?`.
pub open spec fn sentence_pieces(s: Seq<char>) -> Seq<Seq<char>> {
    piece_scan(s).0.push(piece_scan(s).1)
}

/// The pattern matching a transcript made of nothing but `phrase`, once or
/// repeated, with trailing punctuation, in any case.
pub open spec fn echo_pattern(phrase: Seq<char>) -> Seq<char> {
    "(?i)^(?:"@ + regex_escaped(phrase) + "\\s*[.!?\\s\"]*)+$"@
}

pub open spec fn echoes(phrase: Seq<char>, core: Seq<char>) -> bool {
    regex_accepts(echo_pattern(phrase)) && regex_is_match(echo_pattern(phrase), core)
}

/// Whether a sentence of the prompt is echoed by `core`.
pub open spec fn piece_echoed(piece: Seq<char>, core: Seq<char>) -> bool {
    trimmed(piece).len() > 0 && echoes(trimmed(piece), core)
}

/// The transcript repeats the prompt, or one of its sentences, and nothing else.
pub open spec fn is_prompt_echo(transcription: Seq<char>, prompt: Seq<char>) -> bool {
    let p = trimmed(prompt);
    let core = strip_class(transcription, EdgeClass::AsciiSpace);
    let ps = sentence_pieces(p);
    p.len() > 0 && (echoes(p, core) || exists|k: int| 0 <= k < ps.len() && piece_echoed(#[trigger] ps[k], core))
}

fn phrase_echoed(phrase: &str, core: &str) -> (r: bool)
    ensures
        r == echoes(phrase@, core@),
{
    let mut pattern = "(?i)^(?:".to_owned();
    let escaped = escape_literal(phrase);
    pattern.append(escaped.as_str());
    pattern.append("\\s*[.!?\\s\"]*)+$");
    match Pattern::new(pattern.as_str()) {
        Some(p) => p.is_match(core),
        None => false,
    }
}

proof fn lemma_exists_push(done: Seq<Seq<char>>, w: Seq<char>, core: Seq<char>)
    ensures
        (exists|k: int| 0 <= k < done.push(w).len() && piece_echoed(#[trigger] done.push(w)[k], core))
            == ((exists|k: int| 0 <= k < done.len() && piece_echoed(#[trigger] done[k], core))
            || piece_echoed(w, core)),
{
    let d2 = done.push(w);
    assert(d2[done.len() as int] == w);
    if exists|k: int| 0 <= k < done.len() && piece_echoed(#[trigger] done[k], core) {
        let k = choose|k: int| 0 <= k < done.len() && piece_echoed(#[trigger] done[k], core);
        assert(d2[k] == done[k]);
    }
    if exists|k: int| 0 <= k < d2.len() && piece_echoed(#[trigger] d2[k], core) {
        let k = choose|k: int| 0 <= k < d2.len() && piece_echoed(#[trigger] d2[k], core);
        if k < done.len() {
            assert(d2[k] == done[k]);
        }
    }
}

fn piece_is_echoed(piece: &str, core: &str) -> (r: bool)
    ensures
        r == piece_echoed(piece@, core@),
{
    let t = trim_str(piece);
    t.unicode_len() > 0 && phrase_echoed(t, core)
}

/// Whether the transcript only repeats the prompt (or one of its
/// sentences), which transcribers do on silent audio.
pub fn is_prompt_artifact(transcription: &str, prompt: &str) -> (r: bool)
    ensures
        r == is_prompt_echo(transcription@, prompt@),
{
    let p = trim_str(prompt);
    let n = p.unicode_len();
    if n == 0 {
        return false;
    }
    let core = strip_edges(transcription, EdgeClass::AsciiSpace);
    if phrase_echoed(p, core) {
        return true;
    }
    let mut any = false;
    let mut start: usize = 0;
    let mut i: usize = 0;
    while i < n
        invariant
            n == p@.len(),
            start <= i <= n,
            piece_scan(p@.take(i as int)).1 == p@.subrange(start as int, i as int),
            any == exists|k: int| 0 <= k < piece_scan(p@.take(i as int)).0.len()
                && piece_echoed(#[trigger] piece_scan(p@.take(i as int)).0[k], core@),
        decreases n - i,
    {
        let ghost done = piece_scan(p@.take(i as int)).0;
        let c = p.get_char(i);
        assert(p@.take(i + 1).drop_last() =~= p@.take(i as int));
        if c == '.' || c == '!' || c == '?' {
            let hit = piece_is_echoed(p.substring_char(start, i), core);
            proof {
                lemma_exists_push(done, p@.subrange(start as int, i as int), core@);
            }
            assert(piece_scan(p@.take(i + 1)).0 == done.push(p@.subrange(start as int, i as int)));
            any = any || hit;
            start = i + 1;
        } else {
            assert(p@.subrange(start as int, i + 1) =~= p@.subrange(start as int, i as int).push(c));
            assert(piece_scan(p@.take(i + 1)).0 == done);
        }
        i = i + 1;
    }
    assert(p@.take(n as int) =~= p@);
    let last = piece_is_echoed(p.substring_char(start, n), core);
    proof {
        lemma_exists_push(piece_scan(p@).0, p@.subrange(start as int, n as int), core@);
    }
    proof {
        let ps = sentence_pieces(p@);
        assert(ps == piece_scan(p@).0.push(p@.subrange(start as int, n as int)));
    }
    any || last
}

/// What is left of a transcript: trimmed, or nothing when it is empty,
/// echoes the prompt, or holds only non-speech markers.
pub open spec fn cleaned_transcript(transcription: Seq<char>, prompt: Seq<char>) -> Seq<char> {
    let t = trimmed(transcription);
    if t.len() == 0 || is_prompt_echo(t, prompt) || only_markers(t) {
        seq![]
    } else {
        t
    }
}

pub fn clean_transcription(transcription: &str, prompt: &str) -> (r: String)
    ensures
        r@ == cleaned_transcript(transcription@, prompt@),
{
    let t = trim_str(transcription);
    if t.unicode_len() == 0 {
        return String::new();
    }
    if is_prompt_artifact(t, prompt) {
        return String::new();
    }
    if contains_only_non_speech_markers(t) {
        return String::new();
    }
    t.to_owned()
}

} // verus!
