//! AirTalk: voice input. Hold a hotkey, speak, release, and the cleaned-up
//! text is pasted into the focused application.

pub mod engine;
pub mod json;
pub mod proto;
pub mod text;
pub mod ui;
