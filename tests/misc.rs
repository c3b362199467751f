use hyprwhspr_core::backend::{AudioCapture, GeminiBackend, GroqBackend};
use hyprwhspr_core::config::{GroqConfig, ShortcutsConfig, TranscriptionProvider};
use hyprwhspr_core::pipeline::{PipelineStepRecord, TextPipelineRecord};
use hyprwhspr_core::prompt::{PromptBlueprint, DEFAULT_PROMPT};
use hyprwhspr_core::selection::{ProviderKind, ProviderSelection, SpeechToTextError};

#[test]
fn provider_names() {
    assert_eq!(ProviderKind::Groq.as_str(), "groq");
    assert_eq!(ProviderKind::Gemini.as_str(), "gemini");
}

#[test]
fn selection_parses_ignoring_case_and_space() {
    assert_eq!(ProviderSelection::parse("  AUTO "), Ok(ProviderSelection::Auto));
    assert_eq!(ProviderSelection::parse("Groq"), Ok(ProviderSelection::Single(ProviderKind::Groq)));
    assert_eq!(
        ProviderSelection::parse("gemini\n"),
        Ok(ProviderSelection::Single(ProviderKind::Gemini))
    );
    assert_eq!(
        ProviderSelection::parse(" OpenAI "),
        Err(SpeechToTextError::UnsupportedProvider("openai".to_string()))
    );
}

#[test]
fn selection_picks_an_available_backend() {
    let both = [ProviderKind::Gemini, ProviderKind::Groq];
    assert_eq!(ProviderSelection::Auto.choose_provider(&both), Ok(ProviderKind::Gemini));
    assert_eq!(
        ProviderSelection::Auto.choose_provider(&[]),
        Err(SpeechToTextError::ProviderNotConfigured)
    );
    let groq = ProviderSelection::Single(ProviderKind::Groq);
    assert_eq!(groq.choose_provider(&both), Ok(ProviderKind::Groq));
    assert_eq!(
        groq.choose_provider(&[ProviderKind::Gemini]),
        Err(SpeechToTextError::ProviderUnavailable("groq".to_string()))
    );
}

#[test]
fn prompt_prefers_candidate_and_trims() {
    assert_eq!(PromptBlueprint::new(Some("  hi there \n"), "fallback").resolve(), "hi there");
    assert_eq!(PromptBlueprint::new(None, " fallback ").resolve(), "fallback");
    assert_eq!(PromptBlueprint::from("x").resolve(), "x");
    assert_eq!(PromptBlueprint::with_default(None).resolve(), DEFAULT_PROMPT);
}

#[test]
fn config_defaults() {
    assert_eq!(TranscriptionProvider::default(), TranscriptionProvider::WhisperCpp);
    assert_eq!(TranscriptionProvider::Groq.label(), "Groq Whisper API");
    let shortcuts = ShortcutsConfig::default();
    assert_eq!(shortcuts.hold, None);
    assert_eq!(shortcuts.press.as_deref(), Some("SUPER+ALT+R"));
    let groq = GroqConfig::default();
    assert_eq!(groq.model, "whisper-large-v3-turbo");
    assert_eq!(groq.prompt, DEFAULT_PROMPT);
}

#[test]
fn pipeline_counts_changed_steps() {
    let a = PipelineStepRecord::new("a".to_string(), "x".to_string(), "y".to_string(), Some(1));
    let b = PipelineStepRecord::new("b".to_string(), "y".to_string(), "y".to_string(), None);
    assert!(a.applied);
    assert!(!b.applied);
    let record = TextPipelineRecord::new("x".to_string(), "y".to_string(), vec![a, b.clone(), b]);
    assert_eq!(record.changed_steps(), 1);
}

#[test]
fn backends_keep_their_settings() {
    let g = GroqBackend::new("e".to_string(), "m".to_string(), "k".to_string());
    assert_eq!((g.endpoint(), g.model(), g.api_key()), ("e", "m", "k"));
    let g = GeminiBackend::new("u".to_string(), "m".to_string(), "k".to_string());
    assert_eq!((g.base_url(), g.model(), g.api_key()), ("u", "m", "k"));
    assert_eq!(AudioCapture::with_sample_rate(16_000).sample_rate_hint(), 16_000);
}

use hyprwhspr_core::postprocess::{
    clean_transcription, contains_only_non_speech_markers, is_prompt_artifact,
};

#[test]
fn markers_alone_are_not_speech() {
    assert!(contains_only_non_speech_markers("[BLANK_AUDIO]"));
    assert!(contains_only_non_speech_markers(" [blank_audio]. [SILENCE]! "));
    assert!(!contains_only_non_speech_markers("[ blank_audio ]"));
    assert!(contains_only_non_speech_markers("\"[No_speech]\""));
    assert!(!contains_only_non_speech_markers(""));
    assert!(!contains_only_non_speech_markers("..."));
    assert!(!contains_only_non_speech_markers("[BLANK_AUDIO] hello"));
    assert!(!contains_only_non_speech_markers("[MUSIC]"));
    assert!(!contains_only_non_speech_markers("[]"));
}

#[test]
fn prompt_echo_is_detected() {
    let prompt = "Transcribe carefully. Use punctuation!";
    assert!(is_prompt_artifact("Transcribe carefully. Use punctuation!", prompt));
    assert!(is_prompt_artifact("  use PUNCTUATION. use punctuation ", prompt));
    assert!(!is_prompt_artifact("Use punctuation please", prompt));
    assert!(!is_prompt_artifact("anything", "   "));
}

#[test]
fn transcripts_are_cleaned() {
    let prompt = "Say hello.";
    assert_eq!(clean_transcription("   ", prompt), "");
    assert_eq!(clean_transcription(" say hello. ", prompt), "");
    assert_eq!(clean_transcription("[INAUDIBLE]", prompt), "");
    assert_eq!(clean_transcription("  hello there  ", prompt), "hello there");
}

use hyprwhspr_core::prompt::build_instruction;
use hyprwhspr_core::wav::pcm_i16_to_wav_bytes;

#[test]
fn instruction_adds_style_guidance() {
    let base = "You are a dedicated speech-to-text engine. Return only the verbatim transcription of the provided audio.\n";
    assert_eq!(build_instruction("   "), base);
    assert_eq!(
        build_instruction(" Be terse. "),
        format!("{base}\nTranscription style guidance: Be terse.")
    );
}

#[test]
fn writes_valid_wav_header() {
    let samples = vec![0.0f32, 0.5, -0.5];
    let pcm: Vec<i16> =
        samples.iter().map(|&s| (s * 32767.0).clamp(-32768.0, 32767.0) as i16).collect();
    let bytes = pcm_i16_to_wav_bytes(&pcm, 16_000);
    assert_eq!(&bytes[0..4], b"RIFF");
    assert_eq!(&bytes[8..12], b"WAVE");
    assert_eq!(&bytes[12..16], b"fmt ");
    assert_eq!(&bytes[36..40], b"data");
    let data_len = u32::from_le_bytes(bytes[40..44].try_into().unwrap());
    assert_eq!(data_len as usize, samples.len() * 2);
    assert_eq!(bytes.len(), 44 + samples.len() * 2);
}

#[test]
fn wav_samples_are_little_endian() {
    let bytes = pcm_i16_to_wav_bytes(&[1, -1, 0x1234, i16::MIN], 8_000);
    assert_eq!(u32::from_le_bytes(bytes[4..8].try_into().unwrap()), 36 + 8);
    assert_eq!(u32::from_le_bytes(bytes[24..28].try_into().unwrap()), 8_000);
    assert_eq!(u32::from_le_bytes(bytes[28..32].try_into().unwrap()), 16_000);
    assert_eq!(&bytes[44..], &[1, 0, 0xff, 0xff, 0x34, 0x12, 0x00, 0x80]);
}

use hyprwhspr_core::config::{normalize_shortcuts, sanitize_shortcut};

#[test]
fn shortcuts_are_trimmed_or_dropped() {
    assert_eq!(sanitize_shortcut("  SUPER+D "), Some("SUPER+D".to_string()));
    assert_eq!(sanitize_shortcut(" \t"), None);
}

#[test]
fn legacy_primary_shortcut_wins() {
    let mut primary = " CTRL+SPACE ".to_string();
    let mut shortcuts = ShortcutsConfig { hold: Some("  ".to_string()), press: Some("ALT+X".to_string()) };
    normalize_shortcuts(&mut primary, &mut shortcuts);
    assert_eq!(primary, "CTRL+SPACE");
    assert_eq!(shortcuts.press.as_deref(), Some("CTRL+SPACE"));
    assert_eq!(shortcuts.hold, None);

    let mut primary = String::new();
    let mut shortcuts = ShortcutsConfig { hold: Some(" F9 ".to_string()), press: Some(" ALT+X".to_string()) };
    normalize_shortcuts(&mut primary, &mut shortcuts);
    assert_eq!(primary, "ALT+X");
    assert_eq!(shortcuts.press.as_deref(), Some("ALT+X"));
    assert_eq!(shortcuts.hold.as_deref(), Some("F9"));

    let mut primary = String::new();
    let mut shortcuts = ShortcutsConfig { hold: None, press: None };
    normalize_shortcuts(&mut primary, &mut shortcuts);
    assert_eq!(primary, "SUPER+ALT+R");
    assert_eq!(shortcuts.press.as_deref(), Some("SUPER+ALT+R"));
}

use hyprwhspr_core::window::{extract_window_class_from_response, WindowClassError};

#[test]
fn extracts_class_from_plain_hyprland_output() {
    let sample = r#"
Address: 0x123456
Class: kitty
Title: sample
"#;
    let class = extract_window_class_from_response(sample).unwrap();
    assert_eq!(class, Some("kitty".to_string()));
}

#[test]
fn extracts_class_from_json_hyprland_output() {
    let sample = r#"{"address":"0x123","class":"foot","title":"shell"}"#;
    let class = extract_window_class_from_response(sample).unwrap();
    assert_eq!(class, Some("foot".to_string()));
}

#[test]
fn window_class_edge_cases() {
    assert_eq!(extract_window_class_from_response(""), Ok(None));
    assert_eq!(extract_window_class_from_response(r#"{"title":"x"}"#), Ok(None));
    assert_eq!(extract_window_class_from_response(r#"{"class":3}"#), Ok(None));
    assert_eq!(
        extract_window_class_from_response("Title: a\r\n  CLASS :  Foot Term \r\nclass: other"),
        Ok(Some("Foot Term".to_string()))
    );
    assert_eq!(
        extract_window_class_from_response("Title: a\nno colon here"),
        Err(WindowClassError::NoClassEntry)
    );
}

use hyprwhspr_core::shortcuts::{parse_key, parse_shortcut, ShortcutError, ShortcutKey};

#[test]
fn shortcuts_parse_into_distinct_keys() {
    assert_eq!(
        parse_shortcut("SUPER+ALT+R"),
        Ok(vec![ShortcutKey::LeftMeta, ShortcutKey::LeftAlt, ShortcutKey::R])
    );
    assert_eq!(
        parse_shortcut(" ctrl + shift + space "),
        Ok(vec![ShortcutKey::LeftCtrl, ShortcutKey::LeftShift, ShortcutKey::Space])
    );
    assert_eq!(parse_shortcut("WIN+meta+F12"), Ok(vec![ShortcutKey::LeftMeta, ShortcutKey::F12]));
    assert_eq!(parse_shortcut("alt+9"), Ok(vec![ShortcutKey::LeftAlt, ShortcutKey::Digit9]));
}

#[test]
fn shortcuts_reject_unknown_parts() {
    assert_eq!(parse_shortcut("ALT+foo+BAR"), Err(ShortcutError::UnknownKey("FOO".to_string())));
    assert_eq!(parse_shortcut(""), Err(ShortcutError::UnknownKey(String::new())));
    assert_eq!(parse_shortcut("ALT+"), Err(ShortcutError::UnknownKey(String::new())));
    assert_eq!(parse_key("PGDOWN"), Ok(ShortcutKey::PageDown));
    assert_eq!(parse_key("esc"), Err(ShortcutError::UnknownKey("esc".to_string())));
}

use hyprwhspr_core::pipeline::{escape_fragment, preview_value};

fn step(name: &str, before: &str, after: &str, count: Option<usize>) -> PipelineStepRecord {
    PipelineStepRecord::new(name.to_string(), before.to_string(), after.to_string(), count)
}

#[test]
fn render_pretty_shows_word_diffs() {
    let record = TextPipelineRecord::new(
        "hello world".to_string(),
        "Hello world".to_string(),
        vec![
            step("capitalize", "hello world", "Hello world", Some(1)),
            step("noop", "x", "x", None),
        ],
    );
    assert_eq!(
        record.render_pretty(false),
        "┌─ Text Pipeline (steps: 2, changed: 1)\n\
         │ IN  : hello world\n\
         │ • capitalize (applied ×1)\n\
         │   - hello world\n\
         │   + Hello world\n\
         │ OUT : Hello world\n\
         └─"
    );
    let colored = record.render_pretty(true);
    assert!(colored.contains("│ IN  : \u{1b}[36mhello world\u{1b}[39m"));
    assert!(colored.contains("│   - \u{1b}[31mhello\u{1b}[39m\u{1b}[2m \u{1b}[0m\u{1b}[2mworld\u{1b}[0m"));
}

#[test]
fn long_steps_show_before_and_after() {
    let before = "a".repeat(1500);
    let after = "b".repeat(1500);
    let record = TextPipelineRecord::new(String::new(), String::new(), vec![step("swap", &before, &after, Some(0))]);
    let rendered = record.render_pretty(false);
    let lines: Vec<&str> = rendered.lines().collect();
    assert_eq!(lines[2], "│ • swap (applied)");
    assert_eq!(lines[3], format!("│   - {}...", "a".repeat(160)));
    assert_eq!(lines[4], format!("│   + {}...", "b".repeat(160)));
    assert_eq!(lines.len(), 7);
}

#[test]
fn fragments_make_control_characters_visible() {
    assert_eq!(escape_fragment("a\nb\tc\rd\u{1}e\u{85}"), "a⏎b⇥c␍d\\u{0001}e\\u{0085}");
    assert_eq!(preview_value("abc", true), "\u{1b}[36mabc\u{1b}[39m");
    assert_eq!(preview_value(&"x".repeat(161), false), format!("{}...", "x".repeat(160)));
}
