use hyprwhspr_core::{
    capitalize_after_period, clean_control_artifacts, collapse_spaces, collapse_underscore_spacing,
    normalize_line_breaks, trim_spaces_around_newlines,
};

#[test]
fn removes_parenthesis_commas_and_spaces() {
    let input = "(, value, )";
    assert_eq!(clean_control_artifacts(input), "(value)");
}

#[test]
fn cleans_bracket_and_brace_commas() {
    let bracket_input = "[, option, ]";
    let brace_input = "{, field, }";
    assert_eq!(clean_control_artifacts(bracket_input), "[ option ]");
    assert_eq!(clean_control_artifacts(brace_input), "{ field }");
}

#[test]
fn keeps_internal_commas_inside_collections() {
    let bracket_list = "[ first, second, third, ]";
    let brace_list = "{ alpha, beta, gamma, }";
    assert_eq!(clean_control_artifacts(bracket_list), "[ first, second, third ]");
    assert_eq!(clean_control_artifacts(brace_list), "{ alpha, beta, gamma }");
}

#[test]
fn removes_clause_commas_before_closing_delimiter() {
    let brace_input = "{ fuck, }";
    let bracket_input = "[ awesome, ]";
    assert_eq!(clean_control_artifacts(brace_input), "{ fuck }");
    assert_eq!(clean_control_artifacts(bracket_input), "[ awesome ]");
}

#[test]
fn cleans_demo_sentence_bracket_artifacts() {
    let input =
        "Hello, hello, testing 123, [, fuck fuck fuck fuck fuck fuck fuck fuck fuck fuck, ].";
    assert_eq!(
        clean_control_artifacts(input),
        "Hello, hello, testing 123, [ fuck fuck fuck fuck fuck fuck fuck fuck fuck fuck ]"
    );
}

#[test]
fn strips_space_before_punctuation() {
    let input = "hello , world ! what ; is : this ?";
    assert_eq!(clean_control_artifacts(input), "hello, world! what; is: this?");
}

#[test]
fn removes_duplicate_commas_from_transcript_artifacts() {
    let input = "{ fuck fuck fuck fuck, ,, fuck, }.";
    assert_eq!(clean_control_artifacts(input), "{ fuck fuck fuck fuck, fuck }");
}

#[test]
fn capitalizes_lowercase_after_period_space() {
    let input = "This. is awesome. already Capitalized. stays.";
    let (capitalized, count) = capitalize_after_period(input);
    assert_eq!(capitalized, "This. Is awesome. Already Capitalized. Stays.");
    assert_eq!(count, 3);
}

#[test]
fn control_cleanup_preserves_colon_after_symbols() {
    let input = "— { chaos,  yes }:  coordinate";
    let cleaned = clean_control_artifacts(input);
    let collapsed = collapse_spaces(&cleaned);
    assert_eq!(collapsed, "— { chaos, yes }: coordinate");
}

#[test]
fn control_cleanup_keeps_exclamation_after_closing_symbol() {
    let input = "phoenix [ alpha, beta ]!";
    let cleaned = clean_control_artifacts(input);
    assert_eq!(cleaned, "phoenix [ alpha, beta ]!");
}

#[test]
fn collapse_underscore_spacing_links_tokens() {
    let input = "align __ sync and foo _ bar";
    let (collapsed, count) = collapse_underscore_spacing(input);
    assert_eq!(collapsed, "align__sync and foo_bar");
    assert_eq!(count, 2);
}

#[test]
fn trim_spaces_around_newlines_removes_padding() {
    let input = "Line one  \n  Line two\n\n   Line three";
    let (trimmed, count) = trim_spaces_around_newlines(input);
    assert_eq!(trimmed, "Line one\nLine two\n\nLine three");
    assert!(count >= 2);
}

#[test]
fn capitalizes_after_newline_break() {
    let input = "first line.\nnext starts here.";
    let (capitalized, count) = capitalize_after_period(input);
    assert_eq!(capitalized, "First line.\nNext starts here.");
    assert_eq!(count, 2);
}

#[test]
fn capitalize_leaves_text_without_sentences_alone() {
    let (out, count) = capitalize_after_period("");
    assert_eq!(out, "");
    assert_eq!(count, 0);
    let (out, count) = capitalize_after_period("e.g.x stays");
    assert_eq!(out, "E.g.x stays");
    assert_eq!(count, 1);
}

#[test]
fn capitalize_waits_for_space_after_mark() {
    let (out, count) = capitalize_after_period("done!\tthen  ok? yes");
    assert_eq!(out, "Done!\tthen  ok? Yes");
    assert_eq!(count, 2);
}

#[test]
fn trim_spaces_counts_each_run() {
    let (out, count) = trim_spaces_around_newlines("a \t\n\t b");
    assert_eq!(out, "a\nb");
    assert_eq!(count, 2);
    let (out, count) = trim_spaces_around_newlines("no breaks here");
    assert_eq!(out, "no breaks here");
    assert_eq!(count, 0);
}

#[test]
fn collapse_spaces_merges_runs() {
    assert_eq!(collapse_spaces("a   b  c d"), "a b c d");
}

#[test]
fn underscore_bridge_needs_words_on_both_sides() {
    let (out, count) = collapse_underscore_spacing("_ lead and trail _");
    assert_eq!(out, "_ lead and trail _");
    assert_eq!(count, 0);
}

#[test]
fn line_breaks_become_spaces() {
    assert_eq!(normalize_line_breaks("one\r\ntwo\rthree\nfour"), "one two three four");
    assert_eq!(normalize_line_breaks("\n\n"), "  ");
    assert_eq!(normalize_line_breaks("plain"), "plain");
}

use hyprwhspr_core::speech::apply_speech_replacements;

#[test]
fn speech_replacements_normalize_commanded_punctuation() {
    let input = "This is awesome. Period. I love this. Comma. Fuck. Yeah. Comma. Fuck. Period.";
    let (after_speech, count) = apply_speech_replacements(input);
    let cleaned = clean_control_artifacts(&after_speech);
    let collapsed = collapse_spaces(&cleaned);
    assert_eq!(collapsed.trim(), "This is awesome. I love this, Fuck. Yeah, Fuck.");
    assert_eq!(count, 4);
}

#[test]
fn speech_replacements_collapse_dash_dash() {
    let input = "prepare dash dash go";
    let (after_speech, count) = apply_speech_replacements(input);
    assert_eq!(after_speech, "prepare -- go");
    assert_eq!(count, 1);
}

#[test]
fn speech_replacements_keep_plain_text() {
    let (out, count) = apply_speech_replacements("nothing to see");
    assert_eq!(out, "nothing to see");
    assert_eq!(count, 0);
    let (out, count) = apply_speech_replacements("a New Line b open paren c close paren");
    assert_eq!(out, "a \n b ( c )");
    assert_eq!(count, 3);
}

use hyprwhspr_core::cleanup::merge_separated_identical_symbols;
use hyprwhspr_core::preprocess::{
    apply_word_overrides_with_count, needs_shift_for_class, preprocess_text,
    sanitize_word_overrides,
};

#[test]
fn merge_identical_symbols_collapses_spaced_pairs() {
    let input = "77 - - go and _ _ done";
    let (merged, count) = merge_separated_identical_symbols(input);
    assert_eq!(merged, "77 -- go and __ done");
    assert_eq!(count, 2);
}

#[test]
fn merge_identical_symbols_repeats_until_joined() {
    let (merged, count) = merge_separated_identical_symbols("a = = = b + c");
    assert_eq!(merged, "a === b + c");
    assert_eq!(count, 2);
}

#[test]
fn sanitize_word_overrides_drops_em_dash() {
    let overrides = vec![
        ("em dash".to_string(), "—".to_string()),
        ("under score".to_string(), "_".to_string()),
        ("Em Dash".to_string(), "-".to_string()),
    ];
    let sanitized = sanitize_word_overrides(overrides);
    assert!(!sanitized.iter().any(|(k, _)| k.eq_ignore_ascii_case("em dash")));
    assert_eq!(sanitized, vec![("under score".to_string(), "_".to_string())]);
}

#[test]
fn word_overrides_replace_whole_words_in_any_case() {
    let overrides = vec![
        ("hyper land".to_string(), "Hyprland".to_string()),
        ("absent".to_string(), "x".to_string()),
    ];
    let (out, count) = apply_word_overrides_with_count("I use HYPER LAND daily", &overrides);
    assert_eq!(out, "I use Hyprland daily");
    assert_eq!(count, 1);
    let (out, count) = apply_word_overrides_with_count("hyper landing", &overrides);
    assert_eq!(out, "hyper landing");
    assert_eq!(count, 0);
}

#[test]
fn terminals_paste_with_shift() {
    assert!(needs_shift_for_class("kitty"));
    assert!(needs_shift_for_class("ALACRITTY"));
    assert!(needs_shift_for_class("org.gnome.Console"));
    assert!(!needs_shift_for_class("firefox"));
}

#[test]
fn preprocess_runs_the_whole_pipeline() {
    let overrides = vec![("hyper land".to_string(), "Hyprland".to_string())];
    let out = preprocess_text("  i like hyper land comma\nit is fast period   ", &overrides);
    assert_eq!(out, "I like Hyprland, it is fast.");
    let out = preprocess_text("call foo _ bar open paren close paren", &Vec::new());
    assert_eq!(out, "Call foo_bar ()");
}

use hyprwhspr_core::speech::apply_speech_pieces;

#[test]
fn speech_pieces_replace_commands_over_preceding_marks() {
    let pieces = vec![
        ("Hello, ".to_string(), Some("Comma".to_string())),
        (" world ".to_string(), Some("unknown".to_string())),
        ("and".to_string(), Some("DASH".to_string())),
        (" end".to_string(), None),
    ];
    let (out, count) = apply_speech_pieces(&pieces);
    assert_eq!(out, "Hello,  world and- end");
    assert_eq!(count, 2);
}

#[test]
fn word_override_keys_are_literal() {
    let overrides = vec![("a.b".to_string(), "X".to_string())];
    let (out, count) = apply_word_overrides_with_count("a.b axb", &overrides);
    assert_eq!(out, "X axb");
    assert_eq!(count, 1);
}

use hyprwhspr_core::speech::split_at_matches;

#[test]
fn text_is_cut_around_matches() {
    let text = "aé comma b period";
    let matches = vec![(3, 8, Some("comma".to_string())), (11, 17, None)];
    let pieces = split_at_matches(text, &matches);
    assert_eq!(
        pieces,
        vec![
            ("aé ".to_string(), Some("comma".to_string())),
            (" b ".to_string(), None),
            (String::new(), None),
        ]
    );
}
