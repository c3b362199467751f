//! Choice of the remote speech-to-text vendor.

use vstd::prelude::*;
use crate::text::{trim_str, to_ascii_lowercase, same_text, trimmed, ascii_lower};

verus! {

/// Supported remote speech-to-text vendors.
#[derive(Debug, Clone, Copy, PartialEq, Eq, Structural)]
pub enum ProviderKind {
    Groq,
    Gemini,
}

pub open spec fn kind_name(k: ProviderKind) -> Seq<char> {
    match k {
        ProviderKind::Groq => "groq"@,
        ProviderKind::Gemini => "gemini"@,
    }
}

impl ProviderKind {
    pub fn as_str(&self) -> (r: &'static str)
        ensures
            r@ == kind_name(*self),
    {
        match self {
            ProviderKind::Groq => "groq",
            ProviderKind::Gemini => "gemini",
        }
    }
}

/// Failures of the remote speech-to-text layer that this library reports.
#[derive(Debug, PartialEq, Eq)]
pub enum SpeechToTextError {
    ProviderNotConfigured,
    UnsupportedProvider(String),
    ProviderUnavailable(String),
    MissingEnvironment(String),
    Configuration(String),
    EncoderMissing(String),
    Encoding(String),
}

/// Selection strategy that determines which backend serves a request.
#[derive(Debug, Clone, Copy, PartialEq, Eq, Structural)]
pub enum ProviderSelection {
    /// The first available backend.
    Auto,
    /// Always the given backend.
    Single(ProviderKind),
}

/// The key a raw selection is compared by: trimmed, ASCII lowercased.
pub open spec fn selection_key(raw: Seq<char>) -> Seq<char> {
    trimmed(raw).map_values(|c: char| ascii_lower(c))
}

impl ProviderSelection {
    /// Parses `auto`, `groq` or `gemini`, ignoring case and surrounding
    /// whitespace.
    pub fn parse(raw: &str) -> (r: Result<Self, SpeechToTextError>)
        ensures
            selection_key(raw@) == "auto"@ ==> r == Ok::<Self, SpeechToTextError>(ProviderSelection::Auto),
            selection_key(raw@) == "groq"@ ==> r == Ok::<Self, SpeechToTextError>(
                ProviderSelection::Single(ProviderKind::Groq),
            ),
            selection_key(raw@) == "gemini"@ ==> r == Ok::<Self, SpeechToTextError>(
                ProviderSelection::Single(ProviderKind::Gemini),
            ),
            selection_key(raw@) != "auto"@ && selection_key(raw@) != "groq"@ && selection_key(raw@)
                != "gemini"@ ==> (r matches Err(SpeechToTextError::UnsupportedProvider(key))
                && key@ == selection_key(raw@)),
    {
        let key = to_ascii_lowercase(trim_str(raw));
        proof {
            reveal_strlit("auto");
            reveal_strlit("groq");
            reveal_strlit("gemini");
            assert("gemini"@ != "auto"@ && "gemini"@ != "groq"@) by {
                assert("gemini"@.len() == 6 && "auto"@.len() == 4 && "groq"@.len() == 4);
            }
            assert("groq"@ != "auto"@) by {
                assert("groq"@[0] == 'g' && "auto"@[0] == 'a');
            }
        }
        if same_text(key.as_str(), "auto") {
            Ok(ProviderSelection::Auto)
        } else if same_text(key.as_str(), "groq") {
            Ok(ProviderSelection::Single(ProviderKind::Groq))
        } else if same_text(key.as_str(), "gemini") {
            Ok(ProviderSelection::Single(ProviderKind::Gemini))
        } else {
            Err(SpeechToTextError::UnsupportedProvider(key))
        }
    }

    /// The backend to use among those `available`.
    pub fn choose_provider(&self, available: &[ProviderKind]) -> (r: Result<ProviderKind, SpeechToTextError>)
        ensures
            match *self {
                ProviderSelection::Single(kind) => {
                    &&& available@.contains(kind) ==> r == Ok::<ProviderKind, SpeechToTextError>(kind)
                    &&& !available@.contains(kind) ==> (r matches Err(
                        SpeechToTextError::ProviderUnavailable(name),
                    ) && name@ == kind_name(kind))
                },
                ProviderSelection::Auto => {
                    &&& available@.len() > 0 ==> r == Ok::<ProviderKind, SpeechToTextError>(available@[0])
                    &&& available@.len() == 0 ==> r == Err::<ProviderKind, SpeechToTextError>(
                        SpeechToTextError::ProviderNotConfigured,
                    )
                },
            },
    {
        match *self {
            ProviderSelection::Single(kind) => {
                let mut i: usize = 0;
                while i < available.len()
                    invariant
                        i <= available@.len(),
                        *self == ProviderSelection::Single(kind),
                        forall|j: int| 0 <= j < i ==> available@[j] != kind,
                    decreases available@.len() - i,
                {
                    if available[i] == kind {
                        assert(available@[i as int] == kind);
                        return Ok(kind);
                    }
                    i = i + 1;
                }
                Err(SpeechToTextError::ProviderUnavailable(kind.as_str().to_owned()))
            },
            ProviderSelection::Auto => {
                if available.len() > 0 {
                    Ok(available[0])
                } else {
                    Err(SpeechToTextError::ProviderNotConfigured)
                }
            },
        }
    }
}

} // verus!
