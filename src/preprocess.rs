//! The text pipeline run on a transcript before it is typed: user word
//! overrides, spoken commands, clean-up and capitalisation.

use vstd::prelude::*;
use vstd::string::StringExecFns;
use crate::cleanup::{
    normalized_breaks, control_cleanup, merged_symbols, bridge_passes, cap_scan,
    without_space_before_newline, SPACE_RUN, SPACE_AFTER_NEWLINE,
    normalize_line_breaks, clean_control_artifacts, collapse_spaces, trim_spaces_around_newlines,
    merge_separated_identical_symbols, collapse_underscore_spacing, capitalize_after_period,
};
use crate::pattern::{rewrite, rewrite_all, regex_escaped, escape_literal};
use crate::speech::{apply_speech_replacements, spoken_commands_applied};
use crate::text::{same_text, to_ascii_lowercase, ascii_lower, trim_str, trimmed};

verus! {

/// Window classes (in lowercase) of terminals, which paste with Ctrl+Shift+V.
pub open spec fn is_shift_paste_class(key: Seq<char>) -> bool {
    ||| key == "alacritty"@
    ||| key == "kitty"@
    ||| key == "foot"@
    ||| key == "wezterm"@
    ||| key == "org.wezfurlong.wezterm"@
    ||| key == "org.gnome.console"@
    ||| key == "gnome-terminal-server"@
    ||| key == "konsole"@
    ||| key == "yakuake"@
    ||| key == "terminator"@
    ||| key == "tilix"@
    ||| key == "termite"@
    ||| key == "xfce4-terminal"@
    ||| key == "wezterm-gui"@
    ||| key == "rio"@
    ||| key == "warpterminal"@
    ||| key == "xterm"@
    ||| key == "urxvt"@
}

/// Whether a window of this class (compared ignoring ASCII case) is a
/// terminal that pastes with Ctrl+Shift+V.
pub fn needs_shift_for_class(class: &str) -> (r: bool)
    ensures
        r == is_shift_paste_class(class@.map_values(|c: char| ascii_lower(c))),
{
    let key = to_ascii_lowercase(class);
    let k = key.as_str();
    same_text(k, "alacritty")
        || same_text(k, "kitty")
        || same_text(k, "foot")
        || same_text(k, "wezterm")
        || same_text(k, "org.wezfurlong.wezterm")
        || same_text(k, "org.gnome.console")
        || same_text(k, "gnome-terminal-server")
        || same_text(k, "konsole")
        || same_text(k, "yakuake")
        || same_text(k, "terminator")
        || same_text(k, "tilix")
        || same_text(k, "termite")
        || same_text(k, "xfce4-terminal")
        || same_text(k, "wezterm-gui")
        || same_text(k, "rio")
        || same_text(k, "warpterminal")
        || same_text(k, "xterm")
        || same_text(k, "urxvt")
}

/// The case-insensitive whole-word pattern of an override key.
pub open spec fn override_pattern(key: Seq<char>) -> Seq<char> {
    "(?i)\\b"@ + regex_escaped(key) + "\\b"@
}

/// The text after the overrides, in order, and how many of them changed it.
pub open spec fn overrides_applied(text: Seq<char>, overrides: Seq<(Seq<char>, Seq<char>)>) -> (Seq<char>, nat)
    decreases overrides.len(),
{
    if overrides.len() == 0 {
        (text, 0)
    } else {
        let prev = overrides_applied(text, overrides.drop_last());
        let entry = overrides.last();
        let next = rewrite(override_pattern(entry.0), prev.0, entry.1);
        (next, prev.1 + if next != prev.0 { 1nat } else { 0nat })
    }
}

/// Replaces each override key, as a whole word in any case, by its value;
/// returns the text and the number of overrides that changed it.
pub fn apply_word_overrides_with_count(text: &str, overrides: &Vec<(String, String)>) -> (r: (String, usize))
    ensures
        (r.0@, r.1 as nat) == overrides_applied(text@, overrides.deep_view()),
{
    let ghost dv = overrides.deep_view();
    let mut result = text.to_owned();
    let mut count: usize = 0;
    let mut i: usize = 0;
    while i < overrides.len()
        invariant
            i <= overrides@.len(),
            dv == overrides.deep_view(),
            count <= i,
            (result@, count as nat) == overrides_applied(text@, dv.take(i as int)),
        decreases overrides@.len() - i,
    {
        assert(dv.take(i + 1).drop_last() =~= dv.take(i as int));
        assert(dv[i as int] == (overrides@[i as int].0@, overrides@[i as int].1@));
        let mut pattern = "(?i)\\b".to_owned();
        let escaped = escape_literal(overrides[i].0.as_str());
        pattern.append(escaped.as_str());
        pattern.append("\\b");
        let next = rewrite_all(pattern.as_str(), result.as_str(), overrides[i].1.as_str());
        if !same_text(next.as_str(), result.as_str()) {
            count = count + 1;
        }
        result = next;
        i = i + 1;
    }
    assert(dv.take(overrides@.len() as int) =~= dv);
    (result, count)
}

/// Whether an override key names the em dash, which is never overridden.
pub open spec fn is_em_dash_key(key: Seq<char>) -> bool {
    key.map_values(|c: char| ascii_lower(c)) == "em dash"@
}

/// The overrides whose key is not "em dash" (in any ASCII case), in order.
pub open spec fn kept_overrides(overrides: Seq<(Seq<char>, Seq<char>)>) -> Seq<(Seq<char>, Seq<char>)>
    decreases overrides.len(),
{
    if overrides.len() == 0 {
        seq![]
    } else if is_em_dash_key(overrides.last().0) {
        kept_overrides(overrides.drop_last())
    } else {
        kept_overrides(overrides.drop_last()).push(overrides.last())
    }
}

/// Drops overrides of "em dash", which the spoken commands handle.
pub fn sanitize_word_overrides(overrides: Vec<(String, String)>) -> (r: Vec<(String, String)>)
    ensures
        r.deep_view() == kept_overrides(overrides.deep_view()),
{
    let ghost dv = overrides.deep_view();
    let mut kept: Vec<(String, String)> = Vec::new();
    let mut i: usize = 0;
    while i < overrides.len()
        invariant
            i <= overrides@.len(),
            dv == overrides.deep_view(),
            kept.deep_view() == kept_overrides(dv.take(i as int)),
        decreases overrides@.len() - i,
    {
        assert(dv.take(i + 1).drop_last() =~= dv.take(i as int));
        let key = to_ascii_lowercase(overrides[i].0.as_str());
        if !same_text(key.as_str(), "em dash") {
            let entry = (overrides[i].0.clone(), overrides[i].1.clone());
            let ghost before = kept.deep_view();
            kept.push(entry);
            assert(kept.deep_view() =~= before.push(dv[i as int]));
        }
        i = i + 1;
    }
    assert(dv.take(overrides@.len() as int) =~= dv);
    kept
}

/// The whole pipeline on `text`.
pub open spec fn preprocessed(text: Seq<char>, overrides: Seq<(Seq<char>, Seq<char>)>) -> Seq<char> {
    let s1 = normalized_breaks(text);
    let s2 = overrides_applied(s1, overrides).0;
    let s3 = spoken_commands_applied(s2).0;
    let s4 = control_cleanup(s3);
    let s5 = rewrite(SPACE_RUN@, s4, " "@);
    let s6 = rewrite(SPACE_AFTER_NEWLINE@, without_space_before_newline(s5), "\n"@);
    let s7 = merged_symbols(s6).0;
    let s8 = bridge_passes(s7).0;
    let s9 = cap_scan(s8).output;
    trimmed(s9)
}

/// Prepares a transcript for typing: line breaks to spaces, word overrides,
/// spoken commands, clean-up of artifacts and spaces, joined symbols,
/// sentence capitals, and no surrounding whitespace.
pub fn preprocess_text(text: &str, overrides: &Vec<(String, String)>) -> (r: String)
    ensures
        r@ == preprocessed(text@, overrides.deep_view()),
{
    let normalized = normalize_line_breaks(text);
    let (after_overrides, _) = apply_word_overrides_with_count(normalized.as_str(), overrides);
    let (after_speech, _) = apply_speech_replacements(after_overrides.as_str());
    let cleaned = clean_control_artifacts(after_speech.as_str());
    let collapsed = collapse_spaces(cleaned.as_str());
    let (newline_cleaned, _) = trim_spaces_around_newlines(collapsed.as_str());
    let (merged, _) = merge_separated_identical_symbols(newline_cleaned.as_str());
    let (bridged, _) = collapse_underscore_spacing(merged.as_str());
    let (capitalized, _) = capitalize_after_period(bridged.as_str());
    trim_str(capitalized.as_str()).to_owned()
}

} // verus!
