//! One worker for the settings window and the recovery popup: what it is asked
//! for, and how the popup behaves on the screen.

use crate::ui::overlay::{self, bottom_centre, Rect};
use crate::ui::settings::form::SettingsEvent;
use crate::ui::settings::storage::SettingsSnapshot;
use vstd::prelude::*;

verus! {

/// How the popup was left.
#[derive(Debug, Clone, Copy, PartialEq, Eq, Structural)]
pub enum RecoveryEvent {
    Copied,
    Dismissed,
}

/// What the worker is asked for. It finishes one window before the next.
#[derive(Debug)]
pub enum Request {
    OpenSettings,
    ShowRecovery(String),
}

/// Makes requests for the popup.
#[derive(Debug, Clone, Copy)]
pub struct RecoveryHandle;

impl RecoveryHandle {
    pub fn show(&self, text: String) -> (r: Request)
        ensures
            r == Request::ShowRecovery(text),
    {
        Request::ShowRecovery(text)
    }
}

/// Keeps a second settings window from being asked for while one is open.
#[derive(Debug, Clone, Copy, PartialEq, Eq, Structural)]
pub struct SlintBridge {
    pub settings_is_open: bool,
}

impl SlintBridge {
    pub fn new() -> (r: Self)
        ensures
            r == (SlintBridge { settings_is_open: false }),
    {
        SlintBridge { settings_is_open: false }
    }

    /// Asks for the settings window, unless it is open.
    pub fn open_settings(&mut self) -> (r: Option<Request>)
        ensures
            final(self).settings_is_open,
            r == (if old(self).settings_is_open {
                None
            } else {
                Some(Request::OpenSettings)
            }),
    {
        if self.settings_is_open {
            return None;
        }
        self.settings_is_open = true;
        Some(Request::OpenSettings)
    }

    /// The settings window is closed, or the request could not be handed on.
    pub fn settings_closed(&mut self)
        ensures
            !final(self).settings_is_open,
    {
        self.settings_is_open = false;
    }
}

/// How the settings window ended, from what became of its request: nothing to
/// save, the settings after saving, or what went wrong.
pub fn settings_outcome(saved: Result<Option<SettingsSnapshot>, String>) -> (r: SettingsEvent)
    ensures
        r == (match saved {
            Ok(Some(snapshot)) => SettingsEvent::Applied(snapshot),
            Ok(None) => SettingsEvent::Cancelled,
            Err(what) => SettingsEvent::Failed(what),
        }),
{
    match saved {
        Ok(Some(snapshot)) => SettingsEvent::Applied(snapshot),
        Ok(None) => SettingsEvent::Cancelled,
        Err(what) => SettingsEvent::Failed(what),
    }
}

/// How the popup is left when the copy button is used.
pub fn copy_outcome(copied: bool) -> (r: RecoveryEvent)
    ensures
        r == (if copied {
            RecoveryEvent::Copied
        } else {
            RecoveryEvent::Dismissed
        }),
{
    if copied {
        RecoveryEvent::Copied
    } else {
        RecoveryEvent::Dismissed
    }
}

// ─── The popup on the screen ───────────────────────────────────────────

/// Height of the part by which the popup can be dragged, at 96 DPI.
pub const HEADER_DRAG_LOGICAL_H: i32 = 56;

/// Width of the part of it that belongs to the close glyph, at 96 DPI.
pub const HEADER_CLOSE_LOGICAL_W: i32 = 48;

/// Clearance of the popup over the bottom of the work area.
pub const BOTTOM_CLEARANCE: i32 = 140;

/// Where the popup goes.
pub fn popup_position(area: Rect, width: i32, height: i32) -> (r: (i32, i32))
    requires
        overlay::placeable(area, width, height, BOTTOM_CLEARANCE),
    ensures
        r.0 == area.left + overlay::half(area.right - area.left - width),
        r.1 == area.bottom - height - BOTTOM_CLEARANCE,
{
    bottom_centre(area, width, height, BOTTOM_CLEARANCE)
}

/// A size at 96 DPI, scaled to another resolution. None is below 96 DPI.
pub open spec fn at_dpi(size: int, dpi: u32) -> int {
    size * (if dpi < 96 {
        96
    } else {
        dpi as int
    }) / 96
}

/// Whether the popup is dragged by the point: it is in the header and not at
/// the close glyph.
pub fn drags(x: i32, y: i32, right: i32, dpi: u32) -> (r: bool)
    ensures
        r == (0 <= y < at_dpi(HEADER_DRAG_LOGICAL_H as int, dpi) && x <= right - at_dpi(
            HEADER_CLOSE_LOGICAL_W as int,
            dpi,
        )),
{
    let dpi: i64 = if dpi < 96 {
        96
    } else {
        dpi as i64
    };
    let drag_h: i64 = HEADER_DRAG_LOGICAL_H as i64 * dpi / 96;
    let close_w: i64 = HEADER_CLOSE_LOGICAL_W as i64 * dpi / 96;
    y >= 0 && (y as i64) < drag_h && !(x as i64 > right as i64 - close_w)
}

/// The 16-bit number with the given bits, as a signed one.
pub open spec fn signed16(bits: int) -> int {
    if bits >= 0x8000 {
        bits - 0x10000
    } else {
        bits
    }
}

/// The screen point that a message packs: x in the low half, y in the high.
pub fn unpack_point(raw: u32) -> (r: (i32, i32))
    ensures
        r.0 == signed16(raw as int % 0x10000),
        r.1 == signed16(raw as int / 0x10000),
{
    let lo: i32 = (raw % 0x10000) as i32;
    let hi: i32 = (raw / 0x10000) as i32;
    (
        if lo >= 0x8000 {
            lo - 0x10000
        } else {
            lo
        },
        if hi >= 0x8000 {
            hi - 0x10000
        } else {
            hi
        },
    )
}

// ─── Laws ──────────────────────────────────────────────────────────────

/// Sizes grow with the resolution, in proportion and rounded down, and never
/// shrink below their size at 96 DPI.
pub proof fn law_sizes_scale(size: int, dpi: u32)
    requires
        0 <= size,
    ensures
        dpi <= 96 ==> at_dpi(size, dpi) == size,
        dpi >= 96 ==> 96 * at_dpi(size, dpi) <= size * dpi < 96 * at_dpi(size, dpi) + 96,
{
}

/// The signed number has the given bits: it is the same but for multiples of two
/// to the 16th.
pub proof fn law_signed_numbers_have_the_bits(bits: int)
    requires
        0 <= bits < 0x10000,
    ensures
        -0x8000 <= signed16(bits) < 0x8000,
        signed16(bits) == bits || signed16(bits) == bits - 0x10000,
{
}

/// At twice 96 DPI the popup is dragged by its upper 112 pixels, but for the 96 on
/// the right, and it stands 140 pixels over the bottom at any resolution.
pub proof fn law_the_header_drags()
    ensures
        at_dpi(HEADER_DRAG_LOGICAL_H as int, 192) == 112,
        at_dpi(HEADER_CLOSE_LOGICAL_W as int, 192) == 96,
        BOTTOM_CLEARANCE == 140,
{
}

} // verus!
