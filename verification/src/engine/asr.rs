//! Speech recognition: what a call takes and gives.

use crate::proto::AsrUsage;
use vstd::prelude::*;

pub mod audio;
pub mod ogg;
pub mod qwen;

verus! {

/// One recognition call on PCM16 little-endian 16 kHz mono audio. No language
/// asks the recogniser to detect it; the context is the merged glossary.
#[derive(Debug, Clone, Copy)]
pub struct AsrRequest<'a> {
    pub pcm: &'a [u8],
    pub language: Option<&'a str>,
    pub context: Option<&'a str>,
    pub enable_itn: bool,
}

/// What a recognition call gave.
#[derive(Debug, Clone)]
pub struct AsrOutput {
    pub text: String,
    /// Language that the recogniser reports, if any.
    pub language: Option<String>,
    /// Encoded audio bytes that were uploaded, before base64.
    pub upload_bytes: u64,
    pub usage: Option<AsrUsage>,
}

/// Why a provider call failed.
#[derive(Debug, Clone)]
pub struct ProviderError {
    /// The request ran into its time limit.
    pub timed_out: bool,
    pub message: String,
}

/// A speech recogniser.
pub trait AsrProvider: Send + Sync {
    /// Transcribes one piece of audio.
    fn transcribe(&self, req: AsrRequest<'_>) -> (r: Result<AsrOutput, ProviderError>);
}

} // verus!
