//! The floating status pill: when it shows what, and where.
//!
//! Drawing it is the caller's.

use vstd::prelude::*;

verus! {

#[derive(Debug, Clone, Copy, PartialEq, Eq, Structural)]
pub enum OverlayState {
    /// Hidden.
    Idle,
    Recording,
    Processing,
    /// A check mark that fades by itself.
    Success,
    /// A cross that fades by itself.
    Error,
}

/// A command to the overlay.
#[derive(Debug, Clone, Copy, PartialEq, Eq, Structural)]
pub enum Command {
    SetState(OverlayState),
}

/// Makes commands for the overlay.
#[derive(Debug, Clone, Copy)]
pub struct OverlayHandle;

impl OverlayHandle {
    pub fn set_state(&self, state: OverlayState) -> (r: Command)
        ensures
            r == Command::SetState(state),
    {
        Command::SetState(state)
    }
}

/// What the overlay shows, and since when.
#[derive(Debug, Clone, Copy, PartialEq, Eq, Structural)]
pub struct Overlay {
    pub state: OverlayState,
    pub since_ms: u64,
}

/// How long a state lasts before the overlay hides by itself.
pub open spec fn lifetime(state: OverlayState) -> Option<u64> {
    match state {
        OverlayState::Success => Some(1100),
        OverlayState::Error => Some(800),
        _ => None,
    }
}

impl Overlay {
    pub fn new(now_ms: u64) -> (r: Self)
        ensures
            r == (Overlay { state: OverlayState::Idle, since_ms: now_ms }),
    {
        Overlay { state: OverlayState::Idle, since_ms: now_ms }
    }

    /// Takes a command. Returns whether the overlay appears: it then moves to
    /// the monitor of the focused window. It stays there until it is hidden.
    pub fn apply(&mut self, command: Command, now_ms: u64) -> (appears: bool)
        ensures
            ({
                let Command::SetState(wanted) = command;
                &&& *final(self) == (if wanted == old(self).state {
                    *old(self)
                } else {
                    Overlay { state: wanted, since_ms: now_ms }
                })
                &&& appears == (old(self).state == OverlayState::Idle && wanted
                    != OverlayState::Idle)
            }),
    {
        let Command::SetState(wanted) = command;
        if wanted == self.state {
            return false;
        }
        let was_idle = self.state == OverlayState::Idle;
        self.state = wanted;
        self.since_ms = now_ms;
        was_idle
    }

    /// Lets time pass. A state whose time is over gives way to hiding.
    pub fn advance(&mut self, now_ms: u64)
        ensures
            *final(self) == (match lifetime(old(self).state) {
                Some(limit) => if now_ms - old(self).since_ms > limit {
                    Overlay { state: OverlayState::Idle, since_ms: now_ms }
                } else {
                    *old(self)
                },
                None => *old(self),
            }),
    {
        let limit: u64 = match self.state {
            OverlayState::Success => 1100,
            OverlayState::Error => 800,
            _ => {
                return;
            },
        };
        if now_ms >= self.since_ms && now_ms - self.since_ms > limit {
            self.state = OverlayState::Idle;
            self.since_ms = now_ms;
        }
    }

    /// Milliseconds to the next frame: few frames while nothing is visible.
    pub fn frame_pause_ms(&self, faded_out: bool) -> (r: u64)
        ensures
            r == (if faded_out && self.state == OverlayState::Idle {
                160u64
            } else {
                16
            }),
    {
        if faded_out && self.state == OverlayState::Idle {
            160
        } else {
            16
        }
    }
}

// ─── Geometry ──────────────────────────────────────────────────────────

/// A rectangle in physical pixels, without its right and bottom edge.
#[derive(Debug, Clone, Copy, PartialEq, Eq, Structural)]
pub struct Rect {
    pub left: i32,
    pub top: i32,
    pub right: i32,
    pub bottom: i32,
}

/// Half of `n`, towards zero.
pub open spec fn half(n: int) -> int {
    if n < 0 {
        -((-n) / 2)
    } else {
        n / 2
    }
}

fn half_of(n: i32) -> (r: i32)
    requires
        n > i32::MIN,
    ensures
        r == half(n as int),
{
    if n < 0 {
        0 - ((0 - n) / 2)
    } else {
        n / 2
    }
}

/// Whether a window of the given size, with the given margin under it, can be
/// placed in a work area without leaving the range of coordinates.
pub open spec fn placeable(area: Rect, width: i32, height: i32, bottom_margin: i32) -> bool {
    &&& i32::MIN <= area.right - area.left <= i32::MAX
    &&& i32::MIN < area.right - area.left - width <= i32::MAX
    &&& i32::MIN <= area.left + half(area.right - area.left - width) <= i32::MAX
    &&& i32::MIN <= area.bottom - height <= i32::MAX
    &&& i32::MIN <= area.bottom - height - bottom_margin <= i32::MAX
}

/// Tells whether [`bottom_centre`] can place a window.
pub fn can_place(area: Rect, width: i32, height: i32, bottom_margin: i32) -> (r: bool)
    ensures
        r == placeable(area, width, height, bottom_margin),
{
    let least: i64 = i32::MIN as i64;
    let most: i64 = i32::MAX as i64;
    let room: i64 = area.right as i64 - area.left as i64;
    let free: i64 = room - width as i64;
    let top: i64 = area.bottom as i64 - height as i64;
    let margin: i64 = bottom_margin as i64;
    if room < least || room > most || free <= least || free > most {
        return false;
    }
    let left: i64 = area.left as i64 + half_of(free as i32) as i64;
    least <= left && left <= most && least <= top && top <= most && least <= top - margin && top
        - margin <= most
}

/// Where a window goes that is centred over the bottom of a work area.
pub fn bottom_centre(area: Rect, width: i32, height: i32, bottom_margin: i32) -> (r: (i32, i32))
    requires
        placeable(area, width, height, bottom_margin),
    ensures
        r.0 == area.left + half(area.right - area.left - width),
        r.1 == area.bottom - height - bottom_margin,
{
    let room: i32 = area.right - area.left - width;
    (area.left + half_of(room), area.bottom - height - bottom_margin)
}

// ─── Pixels ────────────────────────────────────────────────────────────

/// The byte at `i` when red and blue of each pixel trade places.
pub open spec fn swapped_byte(src: Seq<u8>, i: int) -> u8 {
    if i % 4 == 0 {
        src[i + 2]
    } else if i % 4 == 2 {
        src[i - 2]
    } else {
        src[i]
    }
}

/// The first `pixels` pixels with red and blue in each other's place.
pub open spec fn swapped(src: Seq<u8>, pixels: nat) -> Seq<u8> {
    Seq::new(4 * pixels, |i: int| swapped_byte(src, i))
}

/// Turns RGBA pixels into BGRA pixels.
pub fn rgba_to_bgra(src: &[u8], pixels: usize) -> (r: Vec<u8>)
    requires
        4 * pixels <= src@.len(),
    ensures
        r@ == swapped(src@, pixels as nat),
{
    let n: usize = src.len();
    let mut out: Vec<u8> = Vec::new();
    let mut i: usize = 0;
    while i < pixels
        invariant
            n == src@.len(),
            i <= pixels,
            4 * pixels <= n,
            out@.len() == 4 * i,
            forall|j: int| 0 <= j < 4 * i ==> #[trigger] out@[j] == swapped_byte(src@, j),
        decreases pixels - i,
    {
        let o: usize = i * 4;
        out.push(src[o + 2]);
        out.push(src[o + 1]);
        out.push(src[o]);
        out.push(src[o + 3]);
        i += 1;
    }
    assert(out@ =~= swapped(src@, pixels as nat));
    out
}

/// Trading places twice puts everything back.
pub proof fn law_swapping_twice_restores(src: Seq<u8>, pixels: nat)
    requires
        src.len() == 4 * pixels,
    ensures
        swapped(swapped(src, pixels), pixels) == src,
{
    let once = swapped(src, pixels);
    assert forall|i: int| 0 <= i < src.len() implies swapped_byte(once, i) == src[i] by {
        if i % 4 == 0 {
            assert(once[i + 2] == swapped_byte(src, i + 2));
        } else if i % 4 == 2 {
            assert(once[i - 2] == swapped_byte(src, i - 2));
        } else {
            assert(once[i] == swapped_byte(src, i));
        }
    }
    assert(swapped(once, pixels) =~= src);
}

/// Red and blue of each pixel trade places; green and opacity stay.
pub proof fn law_red_and_blue_trade_places(src: Seq<u8>, pixels: nat, p: int)
    requires
        src.len() >= 4 * pixels,
        0 <= p < pixels,
    ensures
        ({
            let out = swapped(src, pixels);
            &&& out.len() == 4 * pixels
            &&& out[4 * p] == src[4 * p + 2]
            &&& out[4 * p + 1] == src[4 * p + 1]
            &&& out[4 * p + 2] == src[4 * p]
            &&& out[4 * p + 3] == src[4 * p + 3]
        }),
{
    assert((4 * p) % 4 == 0 && (4 * p + 1) % 4 == 1 && (4 * p + 2) % 4 == 2 && (4 * p + 3) % 4
        == 3);
}

/// Only the check mark and the cross hide by themselves: after 1.1 and 0.8
/// seconds.
pub proof fn law_only_outcomes_fade(state: OverlayState)
    ensures
        lifetime(state) is Some <==> state == OverlayState::Success || state
            == OverlayState::Error,
        lifetime(OverlayState::Success) == Some(1100u64),
        lifetime(OverlayState::Error) == Some(800u64),
{
}

/// A window that is placed at half the free room is centred: the margins on both
/// sides differ by a pixel at most.
pub proof fn law_half_of_the_room_centres(room: int, width: int)
    ensures
        ({
            let left = half(room - width);
            let right = room - width - left;
            &&& -1 <= left - right <= 1
            &&& room >= width ==> 0 <= left <= right
            &&& room <= width ==> right <= left <= 0
        }),
{
}

/// Windows of an ordinary size find a place in an ordinary work area.
pub proof fn law_ordinary_windows_find_a_place(
    area: Rect,
    width: i32,
    height: i32,
    bottom_margin: i32,
)
    requires
        -100_000_000 <= area.left <= 100_000_000,
        -100_000_000 <= area.right <= 100_000_000,
        -100_000_000 <= area.bottom <= 100_000_000,
        -100_000_000 <= width <= 100_000_000,
        -100_000_000 <= height <= 100_000_000,
        -100_000_000 <= bottom_margin <= 100_000_000,
    ensures
        placeable(area, width, height, bottom_margin),
{
}

} // verus!
