//! The LLM model entity and the per-provider endpoint defaults.

use vstd::prelude::*;

verus! {

/// The vendor serving a model.
#[derive(Debug, Clone, Copy, PartialEq, Eq, Structural)]
pub enum Provider {
    OpenAI,
    Groq,
}

/// The base API URL used for a provider when a model names none of its own.
pub open spec fn spec_default_api_url(p: Provider) -> Seq<char> {
    match p {
        Provider::OpenAI => "https://api.openai.com/v1/"@,
        Provider::Groq => "https://api.groq.com/openai/v1/"@,
    }
}

/// A model row: identity, capability flags and endpoint settings.
#[derive(Debug, Clone)]
pub struct Model {
    pub id: u64,
    pub company_id: u64,
    pub provider: Provider,
    /// Name of the model as the provider knows it.
    pub name: String,
    /// Context window size.
    pub context_length: i32,
    /// Maximum new tokens the model can generate.
    pub max_tokens: i64,
    pub text_in: bool,
    pub text_out: bool,
    pub image_in: bool,
    pub image_out: bool,
    pub audio_in: bool,
    pub audio_out: bool,
    pub function_calling: bool,
    /// Base URL for the model's API; absent means the provider's default.
    pub api_url: Option<String>,
    /// API key; absent means the provider's default key.
    pub api_key: Option<String>,
    pub created_at: u64,
    pub updated_at: u64,
}

impl Model {
    /// The model's API base URL, or its provider's default when it has none.
    pub fn api_url_or_default(&self) -> (r: &str)
        ensures
            match self.api_url {
                Some(ref u) => r@ == u@,
                None => r@ == spec_default_api_url(self.provider),
            },
    {
        match self.api_url {
            Some(ref url) => url.as_str(),
            None => match self.provider {
                Provider::OpenAI => "https://api.openai.com/v1/",
                Provider::Groq => "https://api.groq.com/openai/v1/",
            },
        }
    }
}

} // verus!
