//! Connection settings of the remote transcription backends and of the
//! capture device; the requests themselves are made by the application.

use vstd::prelude::*;

verus! {

/// Groq's Whisper-compatible transcription endpoint.
#[derive(Debug, Clone)]
pub struct GroqBackend {
    endpoint: String,
    model: String,
    api_key: String,
}

impl GroqBackend {
    pub closed spec fn view_parts(&self) -> (Seq<char>, Seq<char>, Seq<char>) {
        (self.endpoint@, self.model@, self.api_key@)
    }

    pub fn new(endpoint: String, model: String, api_key: String) -> (r: Self)
        ensures
            r.view_parts() == (endpoint@, model@, api_key@),
    {
        GroqBackend { endpoint, model, api_key }
    }

    pub fn endpoint(&self) -> (r: &str)
        ensures
            r@ == self.view_parts().0,
    {
        self.endpoint.as_str()
    }

    pub fn model(&self) -> (r: &str)
        ensures
            r@ == self.view_parts().1,
    {
        self.model.as_str()
    }

    pub fn api_key(&self) -> (r: &str)
        ensures
            r@ == self.view_parts().2,
    {
        self.api_key.as_str()
    }
}

/// Google's Gemini generative-language endpoint.
#[derive(Debug, Clone)]
pub struct GeminiBackend {
    base_url: String,
    model: String,
    api_key: String,
}

impl GeminiBackend {
    pub closed spec fn view_parts(&self) -> (Seq<char>, Seq<char>, Seq<char>) {
        (self.base_url@, self.model@, self.api_key@)
    }

    pub fn new(base_url: String, model: String, api_key: String) -> (r: Self)
        ensures
            r.view_parts() == (base_url@, model@, api_key@),
    {
        GeminiBackend { base_url, model, api_key }
    }

    pub fn base_url(&self) -> (r: &str)
        ensures
            r@ == self.view_parts().0,
    {
        self.base_url.as_str()
    }

    pub fn model(&self) -> (r: &str)
        ensures
            r@ == self.view_parts().1,
    {
        self.model.as_str()
    }

    pub fn api_key(&self) -> (r: &str)
        ensures
            r@ == self.view_parts().2,
    {
        self.api_key.as_str()
    }
}

/// The capture side as the rest of the program sees it: the rate at which
/// recordings are requested.
#[derive(Debug, Clone, Copy, PartialEq, Eq, Structural)]
pub struct AudioCapture {
    sample_rate: u32,
}

impl AudioCapture {
    pub closed spec fn rate_spec(&self) -> u32 {
        self.sample_rate
    }

    pub fn with_sample_rate(sample_rate: u32) -> (r: Self)
        ensures
            r.rate_spec() == sample_rate,
    {
        AudioCapture { sample_rate }
    }

    pub fn sample_rate_hint(&self) -> (r: u32)
        ensures
            r == self.rate_spec(),
    {
        self.sample_rate
    }
}

} // verus!
