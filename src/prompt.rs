//! The transcription prompt: a configured one, or a default.

use vstd::prelude::*;
use vstd::string::{StringExecFns, StrSliceExecFns};
use crate::text::{trim_str, trimmed};

verus! {

pub const DEFAULT_PROMPT: &'static str = "Transcribe with proper capitalization, including sentence beginnings, proper nouns, titles, and standard English capitalization rules.";

/// A prompt candidate with the fallback used when there is none.
pub struct PromptBlueprint<'a> {
    candidate: Option<&'a str>,
    fallback: &'a str,
}

impl<'a> PromptBlueprint<'a> {
    /// The prompt text this blueprint resolves to, before trimming.
    pub closed spec fn chosen(&self) -> Seq<char> {
        match self.candidate {
            Some(c) => c@,
            None => self.fallback@,
        }
    }

    pub fn new(candidate: Option<&'a str>, fallback: &'a str) -> (r: Self)
        ensures
            r.chosen() == (match candidate {
                Some(c) => c@,
                None => fallback@,
            }),
    {
        PromptBlueprint { candidate, fallback }
    }

    pub fn from(candidate: &'a str) -> (r: Self)
        ensures
            r.chosen() == candidate@,
    {
        PromptBlueprint { candidate: Some(candidate), fallback: DEFAULT_PROMPT }
    }

    pub fn with_default(candidate: Option<&'a str>) -> (r: Self)
        ensures
            r.chosen() == (match candidate {
                Some(c) => c@,
                None => DEFAULT_PROMPT@,
            }),
    {
        PromptBlueprint { candidate, fallback: DEFAULT_PROMPT }
    }

    /// The candidate, or else the fallback, without surrounding whitespace.
    pub fn resolve(self) -> (r: String)
        ensures
            r@ == trimmed(self.chosen()),
    {
        let chosen = match self.candidate {
            Some(c) => c,
            None => self.fallback,
        };
        trim_str(chosen).to_owned()
    }
}

pub const INSTRUCTION_BASE: &'static str = "You are a dedicated speech-to-text engine. Return only the verbatim transcription of the provided audio.\n";

pub const STYLE_GUIDANCE: &'static str = "\nTranscription style guidance: ";

/// The instruction sent with the audio: the base instruction, followed by
/// the prompt as style guidance when it holds more than whitespace.
pub open spec fn instruction_for(prompt: Seq<char>) -> Seq<char> {
    if trimmed(prompt).len() == 0 {
        INSTRUCTION_BASE@
    } else {
        INSTRUCTION_BASE@ + STYLE_GUIDANCE@ + trimmed(prompt)
    }
}

pub fn build_instruction(prompt: &str) -> (r: String)
    ensures
        r@ == instruction_for(prompt@),
{
    let mut instruction = INSTRUCTION_BASE.to_owned();
    let guidance = trim_str(prompt);
    if guidance.unicode_len() > 0 {
        instruction.append(STYLE_GUIDANCE);
        instruction.append(guidance);
    }
    instruction
}

} // verus!
