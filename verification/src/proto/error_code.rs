//! Well-known messages of [`Response::Error`](super::Response::Error).
//!
//! A message that starts with one of the two prefixes carries the
//! provider's own message behind it.

use vstd::prelude::*;

verus! {

pub const CANCELLED: &'static str = "cancelled";

pub const SUPERSEDED: &'static str = "superseded";

pub const NO_AUDIO: &'static str = "no_audio";

pub const TIMEOUT: &'static str = "timeout";

pub const ASR_FAILED_PREFIX: &'static str = "asr_failed:";

pub const LLM_FAILED_PREFIX: &'static str = "llm_failed:";

} // verus!
