//! Plain configuration values and their defaults.

use vstd::prelude::*;
use crate::prompt::DEFAULT_PROMPT;
use crate::text::{trim_str, trimmed};
use vstd::string::StrSliceExecFns;

verus! {

/// Where transcription happens.
#[derive(Debug, Clone, Copy, PartialEq, Eq, Structural)]
pub enum TranscriptionProvider {
    WhisperCpp,
    Groq,
    Gemini,
}

pub open spec fn provider_label(p: TranscriptionProvider) -> Seq<char> {
    match p {
        TranscriptionProvider::WhisperCpp => "whisper.cpp (local)"@,
        TranscriptionProvider::Groq => "Groq Whisper API"@,
        TranscriptionProvider::Gemini => "Gemini 2.5 Pro Flash"@,
    }
}

impl Default for TranscriptionProvider {
    fn default() -> (r: Self)
        ensures
            r == TranscriptionProvider::WhisperCpp,
    {
        TranscriptionProvider::WhisperCpp
    }
}

impl TranscriptionProvider {
    /// A human-readable name of the provider.
    pub fn label(&self) -> (r: &'static str)
        ensures
            r@ == provider_label(*self),
    {
        match self {
            TranscriptionProvider::WhisperCpp => "whisper.cpp (local)",
            TranscriptionProvider::Groq => "Groq Whisper API",
            TranscriptionProvider::Gemini => "Gemini 2.5 Pro Flash",
        }
    }
}

/// Keyboard shortcuts: one held down while speaking, one pressed to toggle.
#[derive(Debug, Clone, PartialEq)]
pub struct ShortcutsConfig {
    pub hold: Option<String>,
    pub press: Option<String>,
}

impl Default for ShortcutsConfig {
    fn default() -> (r: Self)
        ensures
            r.hold is None,
            r.press matches Some(s) && s@ == "SUPER+ALT+R"@,
    {
        ShortcutsConfig { hold: None, press: Some(default_primary_shortcut()) }
    }
}

/// A shortcut without surrounding whitespace; none when nothing is left.
pub open spec fn sanitized_shortcut(s: Seq<char>) -> Option<Seq<char>> {
    if trimmed(s).len() == 0 {
        None
    } else {
        Some(trimmed(s))
    }
}

pub open spec fn sanitized_option(o: Option<Seq<char>>) -> Option<Seq<char>> {
    match o {
        Some(s) => sanitized_shortcut(s),
        None => None,
    }
}

/// The press shortcut after normalisation: the legacy primary shortcut when
/// it is set, else the configured press shortcut, else the default.
pub open spec fn effective_shortcut(primary: Seq<char>, press: Option<Seq<char>>) -> Seq<char> {
    match sanitized_shortcut(primary) {
        Some(legacy) => legacy,
        None => match sanitized_option(press) {
            Some(p) => p,
            None => "SUPER+ALT+R"@,
        },
    }
}

pub fn sanitize_shortcut(value: &str) -> (r: Option<String>)
    ensures
        r.deep_view() == sanitized_shortcut(value@),
{
    let t = trim_str(value);
    if t.unicode_len() == 0 {
        None
    } else {
        Some(t.to_owned())
    }
}

/// Reconciles the legacy primary shortcut with the shortcut table: the
/// press shortcut and the primary shortcut end up equal, blank shortcuts
/// are dropped, and a default fills in when nothing is configured.
pub fn normalize_shortcuts(primary_shortcut: &mut String, shortcuts: &mut ShortcutsConfig)
    ensures
        final(shortcuts).hold.deep_view() == sanitized_option(old(shortcuts).hold.deep_view()),
        final(shortcuts).press.deep_view() == Some(
            effective_shortcut(old(primary_shortcut)@, old(shortcuts).press.deep_view()),
        ),
        final(primary_shortcut)@ == effective_shortcut(
            old(primary_shortcut)@,
            old(shortcuts).press.deep_view(),
        ),
{
    let legacy = sanitize_shortcut(primary_shortcut.as_str());
    let press = match &shortcuts.press {
        Some(v) => sanitize_shortcut(v.as_str()),
        None => None,
    };
    let hold = match &shortcuts.hold {
        Some(v) => sanitize_shortcut(v.as_str()),
        None => None,
    };
    let chosen = match legacy {
        Some(l) => l,
        None => match press {
            Some(p) => p,
            None => default_primary_shortcut(),
        },
    };
    *primary_shortcut = chosen.clone();
    shortcuts.press = Some(chosen);
    shortcuts.hold = hold;
}

/// Settings of the Groq transcription backend.
#[derive(Debug, Clone, PartialEq)]
pub struct GroqConfig {
    pub model: String,
    pub endpoint: String,
    pub prompt: String,
}

impl Default for GroqConfig {
    fn default() -> (r: Self)
        ensures
            r.model@ == "whisper-large-v3-turbo"@,
            r.endpoint@ == "https://api.groq.com/openai/v1/audio/transcriptions"@,
            r.prompt@ == DEFAULT_PROMPT@,
    {
        GroqConfig {
            model: default_groq_model(),
            endpoint: default_groq_endpoint(),
            prompt: default_whisper_prompt(),
        }
    }
}

/// All model layers offloaded to the GPU.
pub fn default_gpu_layers() -> (r: i32)
    ensures
        r == 999,
{
    999
}

pub fn default_primary_shortcut() -> (r: String)
    ensures
        r@ == "SUPER+ALT+R"@,
{
    "SUPER+ALT+R".to_owned()
}

pub fn default_model() -> (r: String)
    ensures
        r@ == "base"@,
{
    "base".to_owned()
}

pub fn default_threads() -> (r: usize)
    ensures
        r == 4,
{
    4
}

pub fn default_whisper_prompt() -> (r: String)
    ensures
        r@ == DEFAULT_PROMPT@,
{
    DEFAULT_PROMPT.to_owned()
}

pub fn default_auto_copy_clipboard() -> (r: bool)
    ensures
        r,
{
    true
}

pub fn default_shift_paste() -> (r: bool)
    ensures
        r,
{
    true
}

pub fn default_vad_model() -> (r: String)
    ensures
        r@ == "ggml-silero-v5.1.2.bin"@,
{
    "ggml-silero-v5.1.2.bin".to_owned()
}

pub fn default_vad_min_speech_ms() -> (r: u32)
    ensures
        r == 250,
{
    250
}

pub fn default_vad_min_silence_ms() -> (r: u32)
    ensures
        r == 100,
{
    100
}

pub fn default_vad_speech_pad_ms() -> (r: u32)
    ensures
        r == 30,
{
    30
}

pub fn default_transcription_request_timeout_secs() -> (r: u64)
    ensures
        r == 45,
{
    45
}

pub fn default_transcription_max_retries() -> (r: u32)
    ensures
        r == 2,
{
    2
}

pub fn default_groq_model() -> (r: String)
    ensures
        r@ == "whisper-large-v3-turbo"@,
{
    "whisper-large-v3-turbo".to_owned()
}

pub fn default_groq_endpoint() -> (r: String)
    ensures
        r@ == "https://api.groq.com/openai/v1/audio/transcriptions"@,
{
    "https://api.groq.com/openai/v1/audio/transcriptions".to_owned()
}

pub fn default_gemini_model() -> (r: String)
    ensures
        r@ == "gemini-2.5-pro-exp-0827"@,
{
    "gemini-2.5-pro-exp-0827".to_owned()
}

pub fn default_gemini_endpoint() -> (r: String)
    ensures
        r@ == "https://generativelanguage.googleapis.com/v1beta/models"@,
{
    "https://generativelanguage.googleapis.com/v1beta/models".to_owned()
}

pub fn default_gemini_max_output_tokens() -> (r: u32)
    ensures
        r == 1024,
{
    1024
}

} // verus!
