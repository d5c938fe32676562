//! The popup that shows a text whose delivery failed, with a button that copies
//! it: its layout, its scrolling, and what clicks on it mean.
//!
//! Measuring and drawing text are the caller's, and so is scaling: all sizes
//! here are physical pixels.

use crate::ui::overlay::{self, bottom_centre, can_place, Rect};
use vstd::prelude::*;

verus! {

/// How the popup was left.
#[derive(Debug, Clone, Copy, PartialEq, Eq, Structural)]
pub enum RecoveryEvent {
    Copied,
    Dismissed,
}

/// A command to the popup.
#[derive(Debug)]
pub enum Cmd {
    Show { text: String },
    Hide,
}

/// Makes commands for the popup.
#[derive(Debug, Clone, Copy)]
pub struct RecoveryHandle;

impl RecoveryHandle {
    pub fn show(&self, text: String) -> (r: Cmd)
        ensures
            r == (Cmd::Show { text }),
    {
        Cmd::Show { text }
    }

    pub fn hide_popup(&self) -> (r: Cmd)
        ensures
            r == Cmd::Hide,
    {
        Cmd::Hide
    }
}

// ─── Layout ────────────────────────────────────────────────────────────

/// The sizes of the popup's parts on one monitor.
#[derive(Debug, Clone, Copy, PartialEq, Eq, Structural)]
pub struct Metrics {
    pub width: i32,
    pub padding: i32,
    pub title_height: i32,
    /// Between title and body.
    pub title_gap: i32,
    pub line_height: i32,
    pub max_body_height: i32,
    pub button_width: i32,
    pub button_height: i32,
    pub close_size: i32,
    pub close_margin: i32,
    /// Clearance over the bottom of the work area.
    pub bottom_margin: i32,
}

/// Where everything is.
#[derive(Debug, Clone, Copy, PartialEq, Eq, Structural)]
pub struct Layout {
    /// Position of the window on the screen.
    pub x: i32,
    pub y: i32,
    pub height: i32,
    /// Height of the whole text.
    pub text_height: i32,
    /// The following are in the window's own coordinates.
    pub body: Rect,
    pub copy_button: Rect,
    pub close_button: Rect,
}

/// Whether a number is a pixel coordinate.
pub open spec fn fits(n: int) -> bool {
    i32::MIN <= n <= i32::MAX
}

fn within(n: i64) -> (r: bool)
    ensures
        r == fits(n as int),
{
    i32::MIN as i64 <= n && n <= i32::MAX as i64
}

impl Metrics {
    /// The height of a text that was measured: at least one line.
    pub open spec fn text_height(self, measured: i32) -> int {
        if measured < self.line_height {
            self.line_height as int
        } else {
            measured as int
        }
    }

    /// The height of the body: the text, as far as the limit allows.
    pub open spec fn body_height(self, measured: i32) -> int {
        if self.text_height(measured) > self.max_body_height {
            self.max_body_height as int
        } else {
            self.text_height(measured)
        }
    }

    /// The height of the popup: title, body and buttons with padding around
    /// and between.
    pub open spec fn height(self, measured: i32) -> int {
        self.padding + self.title_height + self.title_gap + self.body_height(measured)
            + self.padding + self.button_height + self.padding
    }
}

impl Metrics {
    /// Whether everything in the layout of a text has a place on the screen:
    /// all coordinates can be written down.
    pub open spec fn layout_fits(self, measured: i32, area: Rect) -> bool {
        let body_top = self.padding + self.title_height + self.title_gap;
        let height = self.height(measured);
        &&& fits(height)
        &&& overlay::placeable(area, self.width, height as i32, self.bottom_margin)
        &&& fits(body_top)
        &&& fits(body_top + self.body_height(measured))
        &&& fits(self.width - self.padding)
        &&& fits(self.width - self.padding - self.button_width)
        &&& fits(height - self.padding)
        &&& fits(height - self.padding - self.button_height)
        &&& fits(self.width - self.close_margin)
        &&& fits(self.width - self.close_margin - self.close_size)
        &&& fits(self.close_margin + self.close_size)
    }

    /// The heights of a measured text, of the body and of the popup.
    fn heights(self, measured: i32) -> (r: (i32, i32, i64))
        ensures
            r.0 == self.text_height(measured),
            r.1 == self.body_height(measured),
            r.2 == self.height(measured),
    {
        let text_height: i32 = if measured < self.line_height {
            self.line_height
        } else {
            measured
        };
        let body_height: i32 = if text_height > self.max_body_height {
            self.max_body_height
        } else {
            text_height
        };
        let height: i64 = self.padding as i64 + self.title_height as i64 + self.title_gap as i64
            + body_height as i64 + self.padding as i64 + self.button_height as i64
            + self.padding as i64;
        (text_height, body_height, height)
    }

    /// Tells whether [`layout`] can lay out a text.
    pub fn can_lay_out(self, measured: i32, area: Rect) -> (r: bool)
        ensures
            r == self.layout_fits(measured, area),
    {
        let (_, body_height, height) = self.heights(measured);
        if !within(height) {
            return false;
        }
        let body_top: i64 = self.padding as i64 + self.title_height as i64
            + self.title_gap as i64;
        let body_right: i64 = self.width as i64 - self.padding as i64;
        let button_bottom: i64 = height - self.padding as i64;
        let close_right: i64 = self.width as i64 - self.close_margin as i64;
        can_place(area, self.width, height as i32, self.bottom_margin) && within(body_top)
            && within(body_top + body_height as i64) && within(body_right) && within(
            body_right - self.button_width as i64,
        ) && within(button_bottom) && within(button_bottom - self.button_height as i64) && within(
            close_right,
        ) && within(close_right - self.close_size as i64) && within(
            self.close_margin as i64 + self.close_size as i64,
        )
    }
}

/// Lays the popup out over the bottom of a work area.
pub fn layout(m: Metrics, measured: i32, area: Rect) -> (r: Layout)
    requires
        m.layout_fits(measured, area),
    ensures
        r.x == area.left + overlay::half(area.right - area.left - m.width),
        r.y == area.bottom - m.height(measured) - m.bottom_margin,
        r.height == m.height(measured),
        r.text_height == m.text_height(measured),
        r.body.left == m.padding,
        r.body.top == m.padding + m.title_height + m.title_gap,
        r.body.right == m.width - m.padding,
        r.body.bottom == r.body.top + m.body_height(measured),
        r.copy_button.left == r.body.right - m.button_width,
        r.copy_button.top == r.height - m.padding - m.button_height,
        r.copy_button.right == r.body.right,
        r.copy_button.bottom == r.copy_button.top + m.button_height,
        r.close_button.left == m.width - m.close_margin - m.close_size,
        r.close_button.top == m.close_margin,
        r.close_button.right == m.width - m.close_margin,
        r.close_button.bottom == m.close_margin + m.close_size,
{
    let (text_height, body_height, total) = m.heights(measured);
    let height: i32 = total as i32;
    let (x, y) = bottom_centre(area, m.width, height, m.bottom_margin);
    let body_top: i32 = (m.padding as i64 + m.title_height as i64 + m.title_gap as i64) as i32;
    let body_right: i32 = m.width - m.padding;
    let button_bottom: i32 = height - m.padding;
    Layout {
        x,
        y,
        height,
        text_height,
        body: Rect {
            left: m.padding,
            top: body_top,
            right: body_right,
            bottom: body_top + body_height,
        },
        copy_button: Rect {
            left: body_right - m.button_width,
            top: button_bottom - m.button_height,
            right: body_right,
            bottom: button_bottom,
        },
        close_button: Rect {
            left: m.width - m.close_margin - m.close_size,
            top: m.close_margin,
            right: m.width - m.close_margin,
            bottom: m.close_margin + m.close_size,
        },
    }
}

/// Where the title is drawn in a window of the given width.
pub fn title_rect(m: Metrics, width: i32) -> (r: Rect)
    requires
        fits(width - m.padding),
        fits(m.padding + m.title_height),
    ensures
        r.left == m.padding,
        r.top == m.padding,
        r.right == width - m.padding,
        r.bottom == m.padding + m.title_height,
{
    Rect {
        left: m.padding,
        top: m.padding,
        right: width - m.padding,
        bottom: m.padding + m.title_height,
    }
}

/// The text is never cut at the bottom without a way to see the rest: the body
/// is inside the popup, above the button, and as high as the text unless the
/// limit is reached.
pub proof fn law_body_stays_above_the_button(m: Metrics, measured: i32)
    requires
        m.padding >= 0,
    ensures
        m.padding + m.title_height + m.title_gap + m.body_height(measured) <= m.height(measured)
            - m.padding - m.button_height,
        m.body_height(measured) == m.text_height(measured) || m.body_height(measured)
            == m.max_body_height,
{
}

// ─── The popup ─────────────────────────────────────────────────────────

/// What the popup shows.
#[derive(Debug)]
pub struct Recovery {
    pub visible: bool,
    pub text: String,
    pub text_height: i32,
    /// How far the text is scrolled, in pixels from the top.
    pub scroll_offset: i32,
    pub body: Rect,
    pub copy_button: Rect,
    pub close_button: Rect,
}

/// What a click means.
#[derive(Debug, Clone, Copy, PartialEq, Eq, Structural)]
pub enum Click {
    Nothing,
    Copy,
    Close,
}

/// Whether a point is in a rectangle.
pub open spec fn inside(x: i32, y: i32, r: Rect) -> bool {
    r.left <= x < r.right && r.top <= y < r.bottom
}

pub fn point_in(x: i32, y: i32, r: &Rect) -> (yes: bool)
    ensures
        yes == inside(x, y, *r),
{
    x >= r.left && x < r.right && y >= r.top && y < r.bottom
}

/// `n` divided by `d`, towards zero.
pub open spec fn quotient(n: int, d: int) -> int {
    if n < 0 {
        -((-n) / d)
    } else {
        n / d
    }
}

/// `n` moved into the range from 0 to `most`.
pub open spec fn clamped(n: int, most: int) -> int {
    if n < 0 {
        0
    } else if n > most {
        most
    } else {
        n
    }
}

impl Recovery {
    pub open spec fn body_height(&self) -> int {
        self.body.bottom - self.body.top
    }

    /// How far the text can be scrolled.
    pub open spec fn max_scroll(&self) -> int {
        if self.text_height > self.body_height() {
            self.text_height - self.body_height()
        } else {
            0
        }
    }

    /// What every operation keeps: the scroll position is within the text.
    pub open spec fn valid(&self) -> bool {
        &&& 0 <= self.body_height() <= i32::MAX
        &&& 0 <= self.text_height
        &&& 0 <= self.scroll_offset <= self.max_scroll()
    }

    pub fn new() -> (r: Self)
        ensures
            r.valid(),
            !r.visible,
            r.text@.len() == 0,
            r.text_height == 0,
            r.scroll_offset == 0,
            r.body == (Rect { left: 0, top: 0, right: 0, bottom: 0 }),
            r.copy_button == r.body,
            r.close_button == r.body,
    {
        let none = Rect { left: 0, top: 0, right: 0, bottom: 0 };
        Recovery {
            visible: false,
            text: String::new(),
            text_height: 0,
            scroll_offset: 0,
            body: none,
            copy_button: none,
            close_button: none,
        }
    }

    /// Shows a text, from its top.
    pub fn present(&mut self, text: String, layout: &Layout)
        requires
            0 <= layout.text_height,
            0 <= layout.body.bottom - layout.body.top <= i32::MAX,
        ensures
            final(self).valid(),
            *final(self) == (Recovery {
                visible: true,
                text,
                text_height: layout.text_height,
                scroll_offset: 0,
                body: layout.body,
                copy_button: layout.copy_button,
                close_button: layout.close_button,
            }),
    {
        self.visible = true;
        self.text = text;
        self.text_height = layout.text_height;
        self.scroll_offset = 0;
        self.body = layout.body;
        self.copy_button = layout.copy_button;
        self.close_button = layout.close_button;
    }

    /// Hides the popup. There is an event only if it was visible.
    pub fn dismiss(&mut self) -> (r: Option<RecoveryEvent>)
        requires
            old(self).valid(),
        ensures
            final(self).valid(),
            *final(self) == (Recovery { visible: false, ..*old(self) }),
            r == (if old(self).visible {
                Some(RecoveryEvent::Dismissed)
            } else {
                None
            }),
    {
        let was_visible = self.visible;
        self.visible = false;
        if was_visible {
            Some(RecoveryEvent::Dismissed)
        } else {
            None
        }
    }

    /// What a click at a point means. The close glyph comes first.
    pub fn click(&self, x: i32, y: i32) -> (r: Click)
        ensures
            r == (if inside(x, y, self.close_button) {
                Click::Close
            } else if inside(x, y, self.copy_button) {
                Click::Copy
            } else {
                Click::Nothing
            }),
    {
        if point_in(x, y, &self.close_button) {
            Click::Close
        } else if point_in(x, y, &self.copy_button) {
            Click::Copy
        } else {
            Click::Nothing
        }
    }

    /// The events after the copy button was used: the copy itself if it worked,
    /// and in any case the dismissal.
    pub fn copy_done(&mut self, copied: bool) -> (r: Vec<RecoveryEvent>)
        requires
            old(self).valid(),
        ensures
            final(self).valid(),
            *final(self) == (Recovery { visible: false, ..*old(self) }),
            r@ == (if copied {
                seq![RecoveryEvent::Copied]
            } else {
                seq![]
            }) + (if old(self).visible {
                seq![RecoveryEvent::Dismissed]
            } else {
                seq![]
            }),
    {
        let mut events: Vec<RecoveryEvent> = Vec::new();
        if copied {
            events.push(RecoveryEvent::Copied);
        }
        if let Some(event) = self.dismiss() {
            events.push(event);
        }
        assert(events@ =~= (if copied {
            seq![RecoveryEvent::Copied]
        } else {
            seq![]
        }) + (if old(self).visible {
            seq![RecoveryEvent::Dismissed]
        } else {
            seq![]
        }));
        events
    }

    /// Scrolls by the mouse wheel: two lines for each notch of 120.
    pub fn wheel(&mut self, delta: i16, line_height: i32)
        requires
            old(self).valid(),
        ensures
            final(self).valid(),
            *final(self) == (Recovery {
                scroll_offset: clamped(
                    old(self).scroll_offset - quotient(delta as int, 120) * line_height * 2,
                    old(self).max_scroll(),
                ) as i32,
                ..*old(self)
            }),
    {
        let body_height: i32 = self.body.bottom - self.body.top;
        let max_scroll: i32 = if self.text_height > body_height {
            self.text_height - body_height
        } else {
            0
        };
        let delta64: i64 = delta as i64;
        let notches: i64 = if delta64 < 0 {
            0 - ((0 - delta64) / 120)
        } else {
            delta64 / 120
        };
        let line: i64 = line_height as i64;
        assert(-300 * 0x8000_0000 <= notches * line <= 300 * 0x8000_0000) by (nonlinear_arith)
            requires
                -300 <= notches <= 300,
                -0x8000_0000 <= line <= 0x8000_0000,
        ;
        let wanted: i64 = self.scroll_offset as i64 - notches * line * 2;
        self.scroll_offset = if wanted < 0 {
            0
        } else if wanted > max_scroll as i64 {
            max_scroll
        } else {
            wanted as i32
        };
    }

    /// Where the text is drawn: shifted up by what was scrolled.
    pub fn text_rect(&self) -> (r: Rect)
        requires
            self.valid(),
            i32::MIN <= self.body.top - self.scroll_offset,
            self.body.top - self.scroll_offset + self.text_height <= i32::MAX,
        ensures
            r == (Rect {
                left: self.body.left,
                top: (self.body.top - self.scroll_offset) as i32,
                right: self.body.right,
                bottom: (self.body.top - self.scroll_offset + self.text_height) as i32,
            }),
    {
        let top: i32 = self.body.top - self.scroll_offset;
        Rect { left: self.body.left, top, right: self.body.right, bottom: top + self.text_height }
    }

    /// The height of the scroll bar, if the text is longer than the body: its
    /// share of the body, but not below `least`.
    pub fn scroll_bar_height(&self, least: i32) -> (r: Option<i32>)
        requires
            self.valid(),
        ensures
            r is Some <==> self.text_height > self.body_height(),
            r matches Some(h) ==> h == (if self.body_height() * self.body_height()
                / self.text_height as int >= least {
                self.body_height() * self.body_height() / self.text_height as int
            } else {
                least as int
            }),
    {
        let body_height: i32 = self.body.bottom - self.body.top;
        if self.text_height <= body_height {
            return None;
        }
        let height: i64 = body_height as i64;
        let text: i64 = self.text_height as i64;
        assert(0 <= height * height <= 0x7fff_ffff * 0x7fff_ffff) by (nonlinear_arith)
            requires
                0 <= height <= 0x7fff_ffff,
        ;
        assert(0 <= height * height / (text as int) <= height) by (nonlinear_arith)
            requires
                0 <= height < text,
        ;
        let share: i32 = (height * height / text) as i32;
        if share >= least {
            Some(share)
        } else {
            Some(least)
        }
    }

    /// Where a scroll bar of the given size is drawn: one pixel off the right
    /// edge of the body, and `shift` below its top.
    pub fn scroll_bar_rect(&self, width: i32, height: i32, shift: i32) -> (r: Rect)
        requires
            fits(self.body.right - width),
            fits(self.body.right - width - 1),
            fits(self.body.right - 1),
            fits(self.body.top + shift),
            fits(self.body.top + shift + height),
        ensures
            r.left == self.body.right - width - 1,
            r.top == self.body.top + shift,
            r.right == self.body.right - 1,
            r.bottom == self.body.top + shift + height,
    {
        let left: i32 = self.body.right - width - 1;
        let top: i32 = self.body.top + shift;
        Rect { left, top, right: left + width, bottom: top + height }
    }
}

// ─── Laws ──────────────────────────────────────────────────────────────

/// The text gets all the height it needs, and at least a line; the body shows as
/// much of it as the limit allows, and no more than there is.
pub proof fn law_the_body_is_as_high_as_it_can_be(m: Metrics, measured: i32)
    ensures
        m.text_height(measured) >= measured && m.text_height(measured) >= m.line_height,
        m.text_height(measured) == measured || m.text_height(measured) == m.line_height,
        m.body_height(measured) <= m.text_height(measured),
        m.body_height(measured) <= m.max_body_height,
        m.height(measured) == m.title_height + m.title_gap + m.body_height(measured)
            + m.button_height + 3 * m.padding,
{
}

/// Scrolled all the way down, the text ends where the body ends; a text that fits
/// does not scroll.
pub proof fn law_scrolling_reaches_the_end(popup: Recovery)
    requires
        popup.valid(),
    ensures
        popup.text_height <= popup.body.bottom - popup.body.top ==> popup.max_scroll() == 0
            && popup.scroll_offset == 0,
        popup.text_height >= popup.body.bottom - popup.body.top ==> popup.text_height
            - popup.max_scroll() == popup.body.bottom - popup.body.top,
        0 <= popup.scroll_offset <= popup.max_scroll(),
{
}

/// A number in the range stays, and another one moves to the nearer end.
pub proof fn law_clamping_moves_to_the_nearer_end(n: int, most: int)
    requires
        0 <= most,
    ensures
        0 <= clamped(n, most) <= most,
        0 <= n <= most ==> clamped(n, most) == n,
        n < 0 ==> clamped(n, most) == 0,
        n > most ==> clamped(n, most) == most,
{
}

/// The wheel counts whole notches, away from the user and towards the user alike.
pub proof fn law_notches_are_counted_whole(n: int, d: int)
    requires
        0 < d,
    ensures
        quotient(-n, d) == -quotient(n, d),
        0 <= n ==> quotient(n, d) * d <= n < quotient(n, d) * d + d,
{
    if 0 <= n {
        assert(n / d * d <= n < n / d * d + d) by (nonlinear_arith)
            requires
                0 <= n,
                0 < d,
        ;
    }
    if n == 0 {
        assert(0int / d == 0) by (nonlinear_arith)
            requires
                0 < d,
        ;
    }
}

/// A rectangle has its left and top edge, and not its right and bottom edge.
pub proof fn law_edges(x: i32, y: i32, r: Rect)
    ensures
        inside(x, y, r) ==> x >= r.left && x < r.right && y >= r.top && y < r.bottom,
        x < r.left || x >= r.right || y < r.top || y >= r.bottom || inside(x, y, r),
{
}

/// Popups of an ordinary size can be laid out in an ordinary work area, whatever
/// the height of the text.
pub proof fn law_ordinary_popups_fit(m: Metrics, measured: i32, area: Rect)
    requires
        -100_000_000 <= area.left <= 100_000_000,
        -100_000_000 <= area.right <= 100_000_000,
        -100_000_000 <= area.bottom <= 100_000_000,
        0 <= m.width <= 10_000_000,
        0 <= m.padding <= 10_000_000,
        0 <= m.title_height <= 10_000_000,
        0 <= m.title_gap <= 10_000_000,
        0 <= m.line_height <= 10_000_000,
        0 <= m.max_body_height <= 10_000_000,
        0 <= m.button_width <= 10_000_000,
        0 <= m.button_height <= 10_000_000,
        0 <= m.close_size <= 10_000_000,
        0 <= m.close_margin <= 10_000_000,
        0 <= m.bottom_margin <= 10_000_000,
    ensures
        m.layout_fits(measured, area),
{
    let height = m.height(measured);
    assert(0 <= height <= 70_000_000);
    overlay::law_ordinary_windows_find_a_place(area, m.width, height as i32, m.bottom_margin);
}

} // verus!
