//! Voice activity detection: cutting audio into stretches of speech.

use vstd::prelude::*;

pub mod pcm;
pub mod silero;

verus! {

/// A stretch of speech, ready for recognition.
#[derive(Debug, Clone)]
pub struct SpeechSegment {
    /// PCM16 little-endian 16 kHz mono, with padding on both ends.
    pub pcm: Vec<u8>,
}

/// A voice detector for one session.
pub trait VadEngine: Send {
    /// Takes PCM16 little-endian 16 kHz mono bytes. Returns the segments that
    /// ended inside them.
    fn push_pcm(&mut self, pcm: &[u8]) -> (r: Vec<SpeechSegment>);

    /// Takes the end of the audio. Returns speech that no silence had closed.
    fn finish(&mut self) -> (r: Option<SpeechSegment>);
}

/// Makes a fresh [`VadEngine`] for each session.
pub trait VadFactory: Send + Sync {
    type Engine: VadEngine;

    fn create(&self) -> (r: Self::Engine);
}

} // verus!
