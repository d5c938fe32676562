//! The speech engine: voice detection, speech recognition and cleanup, and
//! the sessions that string them together.

pub mod asr;
pub mod config;
pub mod llm;
pub mod params;
pub mod pipeline;
pub mod session;
pub mod usage;
pub mod util;
pub mod vad;
