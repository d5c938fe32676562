//! Wire protocol between the user interface and the speech engine.
//!
//! Each message is compact JSON followed by a single line feed. JSON
//! escapes line feeds inside strings, so the line feed is a reliable
//! record separator. Readers bound the line length to [`MAX_FRAME_SIZE`].
//!
//! The engine sends one [`Response::Ready`] on startup. The interface then
//! sends [`Request`] values, and the engine answers each
//! [`Request::Begin`] with exactly one [`Response::Result`] or
//! [`Response::Error`].
//!
//! Turning a message into JSON and back is left to the caller; this module
//! holds the messages, the framing of their lines, and the base64 text that
//! carries audio.

use vstd::prelude::*;

pub mod error_code;
pub mod frame;
pub mod pcm_base64;

verus! {

/// Protocol version. Bumped on any breaking change of the wire format.
///
/// * v1: postcard binary
/// * v2: MessagePack binary
/// * v3: one JSON message per line, PCM in base64 (current)
pub const PROTOCOL_VERSION: u32 = 3;

/// Maximum accepted line length (16 MB).
pub const MAX_FRAME_SIZE: usize = 16777216;

// ─── Messages ──────────────────────────────────────────────────────────

/// Interface to engine.
#[derive(Debug, Clone)]
pub enum Request {
    /// Open a session. Supersedes any session in flight. With `vad` the
    /// audio is cut at silences and each segment is recognised on its own;
    /// without it the whole audio is recognised once. The other fields
    /// override the engine's defaults when they are present.
    Begin {
        id: u64,
        vad: bool,
        context: Option<String>,
        language: Option<String>,
        enable_itn: Option<bool>,
        enable_llm: Option<bool>,
    },
    /// Audio of an open session: PCM16 little-endian, 16 kHz, mono.
    Chunk { id: u64, pcm: Vec<u8> },
    /// End of the audio.
    End { id: u64 },
    /// Cancel the open session.
    Cancel { id: u64 },
}

/// Engine to interface.
#[derive(Debug, Clone)]
pub enum Response {
    /// Sent once on startup, before any request is read.
    Ready { protocol_version: u32 },
    /// Successful completion: the final text, the text before cleanup, the
    /// detected language, and the counters of the session.
    Result {
        id: u64,
        text: String,
        raw: Option<String>,
        language: Option<String>,
        stats: SessionStats,
    },
    /// Abnormal end of a session. Well-known messages are in
    /// [`error_code`].
    Error { id: u64, message: String },
}

impl Request {
    /// The session that the request speaks of.
    pub open spec fn session(&self) -> u64 {
        match *self {
            Request::Begin { id, .. } => id,
            Request::Chunk { id, .. } => id,
            Request::End { id } => id,
            Request::Cancel { id } => id,
        }
    }
}

impl Response {
    /// Whether the response ends session `id`.
    pub open spec fn ends(&self, id: u64) -> bool {
        match *self {
            Response::Ready { .. } => false,
            Response::Result { id: got, .. } => got == id,
            Response::Error { id: got, .. } => got == id,
        }
    }

    /// Whether the response is the error `text` for session `id`.
    pub open spec fn is_error(&self, id: u64, text: Seq<char>) -> bool {
        match *self {
            Response::Error { id: got, message } => got == id && message@ == text,
            _ => false,
        }
    }
}

// ─── Counters ──────────────────────────────────────────────────────────

/// Counters, latencies and reported usage of one session. Durations are in
/// milliseconds; byte counts are of encoded audio, before base64.
#[derive(Debug, Clone, PartialEq)]
pub struct SessionStats {
    /// Audio received, before any silence was cut.
    pub pcm_received_ms: u32,
    /// Audio sent to speech recognition.
    pub pcm_sent_to_asr_ms: u32,
    /// Number of voice segments; `None` without segmentation.
    pub vad_segments: Option<u32>,
    /// Number of recognition calls.
    pub asr_calls: u32,
    /// Encoded bytes uploaded over all recognition calls.
    pub asr_upload_bytes: u64,
    /// Time of the slowest recognition call.
    pub asr_latency_ms: u32,
    /// Time spent on cleanup; `None` when it was skipped.
    pub llm_latency_ms: Option<u32>,
    /// Time from the end of the audio to the result.
    pub total_latency_ms: u32,
    /// Recognition usage summed over the segments.
    pub asr_usage: Option<AsrUsage>,
    /// Cleanup usage.
    pub llm_usage: Option<LlmUsage>,
}

impl Default for SessionStats {
    fn default() -> (r: Self)
        ensures
            r == (SessionStats {
                pcm_received_ms: 0,
                pcm_sent_to_asr_ms: 0,
                vad_segments: None,
                asr_calls: 0,
                asr_upload_bytes: 0,
                asr_latency_ms: 0,
                llm_latency_ms: None,
                total_latency_ms: 0,
                asr_usage: None,
                llm_usage: None,
            }),
    {
        SessionStats {
            pcm_received_ms: 0,
            pcm_sent_to_asr_ms: 0,
            vad_segments: None,
            asr_calls: 0,
            asr_upload_bytes: 0,
            asr_latency_ms: 0,
            llm_latency_ms: None,
            total_latency_ms: 0,
            asr_usage: None,
            llm_usage: None,
        }
    }
}

/// A step in the computation of a binary64 float.
#[derive(Debug, Clone, Copy, PartialEq, Eq, Structural)]
pub enum SecondsTerm {
    /// Pushes the float nearest to a whole number.
    Whole(u64),
    /// Pushes the float with this bit pattern.
    Bits(u64),
    /// Replaces the two topmost floats by their float sum.
    Plus,
}

/// A duration of audio in seconds. The number itself is a binary64 float;
/// it is kept as the postfix term that denotes it, and callers evaluate it.
#[derive(Debug, Clone, PartialEq)]
pub struct AudioSeconds {
    pub postfix: Vec<SecondsTerm>,
}

impl View for AudioSeconds {
    type V = Seq<SecondsTerm>;

    open spec fn view(&self) -> Seq<SecondsTerm> {
        self.postfix@
    }
}

impl AudioSeconds {
    /// A whole number of seconds.
    pub fn whole(n: u64) -> (r: Self)
        ensures
            r@ == seq![SecondsTerm::Whole(n)],
    {
        let mut postfix: Vec<SecondsTerm> = Vec::new();
        postfix.push(SecondsTerm::Whole(n));
        AudioSeconds { postfix }
    }

    /// The float with bit pattern `bits`.
    pub fn from_bits(bits: u64) -> (r: Self)
        ensures
            r@ == seq![SecondsTerm::Bits(bits)],
    {
        let mut postfix: Vec<SecondsTerm> = Vec::new();
        postfix.push(SecondsTerm::Bits(bits));
        AudioSeconds { postfix }
    }

    /// The float sum of two durations.
    pub fn plus(self, other: AudioSeconds) -> (r: Self)
        ensures
            r@ == self@ + other@ + seq![SecondsTerm::Plus],
    {
        let mut postfix = self.postfix;
        let mut rest = other.postfix;
        postfix.append(&mut rest);
        postfix.push(SecondsTerm::Plus);
        assert(postfix@ =~= self@ + other@ + seq![SecondsTerm::Plus]);
        AudioSeconds { postfix }
    }
}

/// Usage that the recognition provider reports.
#[derive(Debug, Clone, PartialEq)]
pub struct AsrUsage {
    pub audio_seconds: Option<AudioSeconds>,
    pub input_tokens: Option<u64>,
    pub output_tokens: Option<u64>,
    pub total_tokens: Option<u64>,
}

impl Default for AsrUsage {
    fn default() -> (r: Self)
        ensures
            r == (AsrUsage {
                audio_seconds: None,
                input_tokens: None,
                output_tokens: None,
                total_tokens: None,
            }),
    {
        AsrUsage { audio_seconds: None, input_tokens: None, output_tokens: None, total_tokens: None }
    }
}

/// Usage that the cleanup provider reports.
#[derive(Debug, Clone, Copy, PartialEq, Eq)]
pub struct LlmUsage {
    pub prompt_tokens: Option<u64>,
    pub completion_tokens: Option<u64>,
    pub total_tokens: Option<u64>,
}

impl Default for LlmUsage {
    fn default() -> (r: Self)
        ensures
            r == (LlmUsage { prompt_tokens: None, completion_tokens: None, total_tokens: None }),
    {
        LlmUsage { prompt_tokens: None, completion_tokens: None, total_tokens: None }
    }
}

// ─── Laws ──────────────────────────────────────────────────────────────

/// Messages belong to the session that they name: only a result or an error ends
/// a session, and only the one that it names; readiness ends none.
pub proof fn law_messages_belong_to_their_session(
    request: Request,
    response: Response,
    id: u64,
    text: Seq<char>,
)
    ensures
        response is Ready ==> !response.ends(id) && !response.is_error(id, text),
        response is Result ==> (response.ends(id) <==> response->Result_id == id)
            && !response.is_error(id, text),
        response is Error ==> (response.ends(id) <==> response->Error_id == id) && (
        response.is_error(id, text) <==> response->Error_id == id && response->message@ == text),
        request matches Request::Begin { id: own, .. } ==> request.session() == own,
        request matches Request::Chunk { id: own, .. } ==> request.session() == own,
        request matches Request::End { id: own } ==> request.session() == own,
        request matches Request::Cancel { id: own } ==> request.session() == own,
{
}

} // verus!
