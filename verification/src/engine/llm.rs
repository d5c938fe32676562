//! Cleanup of recognised text: what a call takes and gives.

use crate::engine::asr::ProviderError;
use crate::proto::LlmUsage;
use vstd::prelude::*;

pub mod openai;

verus! {

/// What a cleanup call gave.
#[derive(Debug, Clone)]
pub struct LlmOutput {
    pub text: String,
    pub usage: Option<LlmUsage>,
}

/// A language model that cleans up recognised text.
pub trait LlmProvider: Send + Sync {
    /// Cleans up `text` under the given system prompt.
    fn cleanup(&self, text: &str, system_prompt: &str) -> (r: Result<LlmOutput, ProviderError>);
}

/// Stands in for the language model when cleanup is switched off. Sessions do
/// not call it then; a call is an error, never an empty text.
#[derive(Debug, Clone, Copy)]
pub struct DisabledLlm;

impl LlmProvider for DisabledLlm {
    fn cleanup(&self, text: &str, system_prompt: &str) -> (r: Result<LlmOutput, ProviderError>)
        ensures
            r matches Err(e) && !e.timed_out && e.message@
                == "LLM is disabled (--no-llm); cleanup() should never be called"@,
    {
        Err(
            ProviderError {
                timed_out: false,
                message: "LLM is disabled (--no-llm); cleanup() should never be called".to_owned(),
            },
        )
    }
}

} // verus!
