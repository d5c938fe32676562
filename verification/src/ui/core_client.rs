//! The engine as a child process: how it is started, the handshake, and the
//! requests of a session.
//!
//! Running the process and its pipes are the caller's.

use crate::proto::{Request, Response, PROTOCOL_VERSION};
use crate::text;
use vstd::prelude::*;

verus! {

/// How long the engine may take to report that it is ready.
pub const READY_TIMEOUT_MS: u64 = 5000;

/// How long the engine may take to stop before it is killed.
pub const SHUTDOWN_GRACE_MS: u64 = 3000;

/// How to start the engine.
#[derive(Debug, Clone)]
pub struct SpawnConfig {
    pub exe: String,
    pub args: Vec<String>,
    pub env: Vec<(String, String)>,
}

/// What is wrong with the engine's first message.
#[derive(Debug)]
pub enum HandshakeError {
    /// It speaks another version of the protocol.
    VersionMismatch { core: u32 },
    /// It is no report of readiness.
    NotReady(Response),
}

/// Checks the engine's first message.
pub fn check_ready(first: Response) -> (r: Result<(), HandshakeError>)
    ensures
        match first {
            Response::Ready { protocol_version } => r == (if protocol_version == PROTOCOL_VERSION {
                Ok(())
            } else {
                Err(HandshakeError::VersionMismatch { core: protocol_version })
            }),
            _ => r == Err::<(), HandshakeError>(HandshakeError::NotReady(first)),
        },
{
    match first {
        Response::Ready { protocol_version } => if protocol_version == PROTOCOL_VERSION {
            Ok(())
        } else {
            Err(HandshakeError::VersionMismatch { core: protocol_version })
        },
        other => Err(HandshakeError::NotReady(other)),
    }
}

/// Describes a mismatch of versions.
pub fn version_mismatch(core: u32) -> (r: String)
    ensures
        r@ == "protocol version mismatch: core="@ + text::decimal(core as nat) + ", ui="@
            + text::decimal(PROTOCOL_VERSION as nat),
{
    "protocol version mismatch: core=".to_owned().concat(
        text::decimal_of(core as u64).as_str(),
    ).concat(", ui=").concat(text::decimal_of(PROTOCOL_VERSION as u64).as_str())
}

/// Hands out session numbers, from 1 on.
#[derive(Debug, Clone, Copy, PartialEq, Eq, Structural)]
pub struct SessionIds {
    pub next: u64,
}

impl SessionIds {
    pub fn new() -> (r: Self)
        ensures
            r == (SessionIds { next: 1 }),
    {
        SessionIds { next: 1 }
    }

    /// The next number. Each is one above the one before.
    pub fn next_session_id(&mut self) -> (r: u64)
        ensures
            r == old(self).next,
            final(self).next as int == (old(self).next + 1) % 0x1_0000_0000_0000_0000,
    {
        let id: u64 = self.next;
        self.next = if id == u64::MAX {
            0
        } else {
            id + 1
        };
        id
    }
}

/// Opens a session, with the engine's defaults.
pub fn begin(id: u64, vad: bool) -> (r: Request)
    ensures
        r == (Request::Begin {
            id,
            vad,
            context: None,
            language: None,
            enable_itn: None,
            enable_llm: None,
        }),
{
    Request::Begin {
        id,
        vad,
        context: None,
        language: None,
        enable_itn: None,
        enable_llm: None,
    }
}

} // verus!
