//! Settings: the model, its storage, the settings form, and the engine's
//! command line.

use vstd::prelude::*;

pub mod form;
pub mod laws;
pub mod model;
pub mod spawn;
pub mod storage;

verus! {

/// Name under which the recognition key is kept.
pub const ASR_CRED_TARGET: &'static str = "airtalk/asr_api_key";

/// Name under which the cleanup key is kept.
pub const LLM_CRED_TARGET: &'static str = "airtalk/llm_api_key";

/// Environment variable that hands the recognition key to the engine.
pub const ENV_ASR_KEY: &'static str = "AIRTALK_ASR_API_KEY";

/// Environment variable that hands the cleanup key to the engine.
pub const ENV_LLM_KEY: &'static str = "AIRTALK_LLM_API_KEY";

/// Recognition endpoint in mainland China.
pub const MAINLAND_ASR_URL: &'static str =
    "https://dashscope.aliyuncs.com/api/v1/services/aigc/multimodal-generation/generation";

/// Cleanup endpoint in mainland China.
pub const MAINLAND_LLM_URL: &'static str = "https://dashscope.aliyuncs.com/compatible-mode/v1";

} // verus!
