//! Core logic of a push-to-talk dictation tool: an adaptive voice-activity
//! trimmer for recorded utterances, and the text clean-up applied to
//! transcripts before they are typed into the focused window.

// The voice-activity trimmer: profiles, settings, the segmentation state
// machine, the volatility controller, the classifier and the trimmer itself,
// with the properties proved of them.
pub mod profile;
pub mod settings;
pub mod segment;
pub mod volatility;
pub mod detector;
pub mod vad;
pub mod laws;

// Text handling: regex rewriting, transcript filtering, clean-up of dictated
// text, spoken commands and the pipeline that runs them.
pub mod text;
pub mod pattern;
pub mod postprocess;
pub mod cleanup;
pub mod speech;
pub mod preprocess;
pub mod pipeline;
pub mod window;

// Configuration values, backend settings, prompts and WAV output.
pub mod config;
pub mod shortcuts;
pub mod backend;
pub mod selection;
pub mod prompt;
pub mod wav;

pub use cleanup::{
    capitalize_after_period, clean_control_artifacts, collapse_spaces, collapse_underscore_spacing,
    normalize_line_breaks, trim_spaces_around_newlines,
};
pub use profile::FastVadProfile;
pub use settings::{FastVadConfig, FastVadSettings};
pub use vad::{FastVad, FastVadOutcome, VadError};
pub use volatility::{Volatility, VolatilityController};
