//! The microphone: which device to open, and how captured audio is handed on.
//!
//! Opening devices, mixing down and resampling are the caller's.

use crate::text;
use vstd::prelude::*;

verus! {

/// Sample rate that the engine takes.
pub const TARGET_SAMPLE_RATE: u32 = 16000;

/// 30 ms at 16 kHz.
pub const CHUNK_SAMPLES: usize = 480;

/// Bytes of one chunk.
pub const CHUNK_BYTES: usize = 960;

/// Shown while no device is open.
pub const NO_DEVICE_NAME: &'static str = "<no input device>";

/// Which input device to use. `Auto` follows the system's default.
#[derive(Debug, Clone, PartialEq, Eq)]
pub enum DeviceChoice {
    Auto,
    Named(String),
}

impl View for DeviceChoice {
    type V = Option<Seq<char>>;

    /// The name of the device, or none for the default.
    open spec fn view(&self) -> Option<Seq<char>> {
        match *self {
            DeviceChoice::Auto => None,
            DeviceChoice::Named(name) => Some(name@),
        }
    }
}

impl DeviceChoice {
    pub fn copied(&self) -> (r: Self)
        ensures
            r == *self,
    {
        match self {
            DeviceChoice::Auto => DeviceChoice::Auto,
            DeviceChoice::Named(name) => DeviceChoice::Named(name.clone()),
        }
    }

    pub fn same(&self, other: &DeviceChoice) -> (r: bool)
        ensures
            r == (self@ == other@),
    {
        match (self, other) {
            (DeviceChoice::Auto, DeviceChoice::Auto) => true,
            (DeviceChoice::Named(a), DeviceChoice::Named(b)) => text::same(a.as_str(), b.as_str()),
            _ => false,
        }
    }
}

/// The devices to try, in order: the chosen one, then the default.
pub open spec fn attempts_for(choice: Option<Seq<char>>) -> Seq<Option<Seq<char>>> {
    match choice {
        Some(_) => seq![choice, None],
        None => seq![None],
    }
}

/// The devices to try for a choice. A named device that is gone falls back to
/// the default.
pub fn device_attempts(choice: &DeviceChoice) -> (r: Vec<DeviceChoice>)
    ensures
        r@.map_values(|c: DeviceChoice| c@) == attempts_for(choice@),
{
    let mut attempts: Vec<DeviceChoice> = Vec::new();
    attempts.push(choice.copied());
    if let DeviceChoice::Named(_) = choice {
        attempts.push(DeviceChoice::Auto);
    }
    assert(attempts@.map_values(|c: DeviceChoice| c@) =~= attempts_for(choice@));
    attempts
}

/// What happened to the system's audio devices.
#[derive(Debug, Clone, Copy, PartialEq, Eq, Structural)]
pub enum DeviceChange {
    Added,
    Removed,
    StateChanged,
    /// Another default device, for capture or playback, in the console role or
    /// another one.
    DefaultChanged { capture: bool, console: bool },
    PropertyChanged,
}

/// Whether the capture device has to be looked for again. One change of the
/// default is announced for several roles, and only one of them counts;
/// property changes never do.
pub fn needs_reevaluation(change: DeviceChange) -> (r: bool)
    ensures
        r == (match change {
            DeviceChange::Added => true,
            DeviceChange::Removed => true,
            DeviceChange::StateChanged => true,
            DeviceChange::DefaultChanged { capture, console } => capture && console,
            DeviceChange::PropertyChanged => false,
        }),
{
    match change {
        DeviceChange::Added => true,
        DeviceChange::Removed => true,
        DeviceChange::StateChanged => true,
        DeviceChange::DefaultChanged { capture, console } => capture && console,
        DeviceChange::PropertyChanged => false,
    }
}

// ─── Chunks ────────────────────────────────────────────────────────────

/// Captured bytes on their way out in whole chunks.
#[derive(Debug, Clone)]
pub struct ChunkBuffer {
    out_buf: Vec<u8>,
}

/// The chunks one after the other.
pub open spec fn concatenated(chunks: Seq<Vec<u8>>) -> Seq<u8>
    decreases chunks.len(),
{
    if chunks.len() == 0 {
        seq![]
    } else {
        concatenated(chunks.drop_last()) + chunks.last()@
    }
}

impl View for ChunkBuffer {
    type V = Seq<u8>;

    /// The bytes that do not fill a chunk yet.
    closed spec fn view(&self) -> Seq<u8> {
        self.out_buf@
    }
}

impl ChunkBuffer {
    pub fn new() -> (r: Self)
        ensures
            r@ == Seq::<u8>::empty(),
    {
        ChunkBuffer { out_buf: Vec::new() }
    }

    /// Takes captured bytes. While the microphone is heard it returns the whole
    /// chunks that are there now and keeps the rest; otherwise it drops
    /// everything.
    pub fn push(&mut self, bytes: &[u8], gate_open: bool) -> (r: Vec<Vec<u8>>)
        ensures
            gate_open ==> {
                &&& concatenated(r@) + final(self)@ == old(self)@ + bytes@
                &&& final(self)@.len() < CHUNK_BYTES
                &&& forall|i: int| 0 <= i < r@.len() ==> (#[trigger] r@[i])@.len() == CHUNK_BYTES
            },
            !gate_open ==> r@.len() == 0 && final(self)@.len() == 0,
    {
        let mut chunks: Vec<Vec<u8>> = Vec::new();
        if !gate_open {
            self.out_buf.clear();
            return chunks;
        }
        self.out_buf.extend_from_slice(bytes);
        let ghost all = old(self)@ + bytes@;
        assert(self.out_buf@ =~= all);
        assert(concatenated(chunks@) + self.out_buf@ =~= all);
        while self.out_buf.len() >= CHUNK_BYTES
            invariant
                concatenated(chunks@) + self.out_buf@ == all,
                forall|i: int|
                    0 <= i < chunks@.len() ==> (#[trigger] chunks@[i])@.len() == CHUNK_BYTES,
            decreases self.out_buf@.len(),
        {
            let ghost had = self.out_buf@;
            let ghost before = chunks@;
            let mut chunk = self.out_buf.split_off(CHUNK_BYTES);
            std::mem::swap(&mut chunk, &mut self.out_buf);
            assert(chunk@ + self.out_buf@ =~= had);
            chunks.push(chunk);
            assert(chunks@.drop_last() =~= before);
            assert(concatenated(before) + (chunk@ + self.out_buf@) =~= (concatenated(before)
                + chunk@) + self.out_buf@);
        }
        chunks
    }
}

// ─── Laws ──────────────────────────────────────────────────────────────

/// The chosen device is tried first, and the default device last.
pub proof fn law_the_default_comes_last(choice: Option<Seq<char>>)
    ensures
        attempts_for(choice).len() == (if choice is Some {
            2nat
        } else {
            1
        }),
        attempts_for(choice).first() == choice,
        attempts_for(choice).last() is None,
{
}

/// Chunks that are put together keep all their bytes, in order.
pub proof fn law_chunks_keep_their_bytes(a: Seq<Vec<u8>>, b: Seq<Vec<u8>>, chunk: Vec<u8>)
    ensures
        concatenated(seq![chunk]) == chunk@,
        concatenated(a + b) == concatenated(a) + concatenated(b),
    decreases b.len(),
{
    assert((seq![chunk]).drop_last() =~= Seq::<Vec<u8>>::empty());
    assert(concatenated(seq![]) =~= Seq::<u8>::empty());
    assert(concatenated(seq![chunk]) =~= chunk@);
    if b.len() == 0 {
        assert(a + b =~= a);
        assert(concatenated(a) + Seq::<u8>::empty() =~= concatenated(a));
    } else {
        law_chunks_keep_their_bytes(a, b.drop_last(), chunk);
        assert((a + b).drop_last() =~= a + b.drop_last());
        assert(concatenated(a) + concatenated(b.drop_last()) + b.last()@ =~= concatenated(a) + (
        concatenated(b.drop_last()) + b.last()@));
    }
}

} // verus!
