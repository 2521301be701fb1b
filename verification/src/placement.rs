//! Where the candidate window and the status bar go on screen, given the work
//! area of the monitor they are on (the caller asks the system for it).

use vstd::prelude::*;

verus! {

/// A monitor's work area in physical pixels (right and bottom exclusive).
#[derive(Debug, Clone, Copy, PartialEq, Eq, Structural)]
pub struct WorkArea {
    pub left: i32,
    pub top: i32,
    pub right: i32,
    pub bottom: i32,
}

/// The caret's rectangle on screen.
#[derive(Debug, Clone, Copy, PartialEq, Eq, Structural)]
pub struct CaretRect {
    pub left: i32,
    pub top: i32,
    pub right: i32,
    pub bottom: i32,
}

/// Gap between the caret and the candidate window.
pub const CARET_GAP: i32 = 2;

/// Gap between the status bar and the screen edge (at 16 pixels of margin).
pub const EDGE_GAP: i32 = 8;

/// `v` clamped into `lo..=hi` (`lo <= hi`).
pub open spec fn clamp_spec(v: int, lo: int, hi: int) -> int {
    if v < lo {
        lo
    } else if v > hi {
        hi
    } else {
        v
    }
}

pub open spec fn max_spec(a: int, b: int) -> int {
    if a >= b {
        a
    } else {
        b
    }
}

fn clamp_i32(v: i32, lo: i32, hi: i32) -> (r: i32)
    requires
        lo <= hi,
    ensures
        r == clamp_spec(v as int, lo as int, hi as int),
{
    if v < lo {
        lo
    } else if v > hi {
        hi
    } else {
        v
    }
}

fn max_i32(a: i32, b: i32) -> (r: i32)
    ensures
        r == max_spec(a as int, b as int),
{
    if a >= b {
        a
    } else {
        b
    }
}

/// No intermediate value of the placement leaves `i32`.
pub open spec fn fits(v: int) -> bool {
    i32::MIN <= v <= i32::MAX
}

/// The candidate window's top-left corner: left-aligned with the caret and
/// kept inside the work area; below the caret when it fits, else above it,
/// else as low as the work area allows.
pub open spec fn place_spec(anchor: CaretRect, content: (i32, i32), work: WorkArea) -> (int, int) {
    let x = clamp_spec(anchor.left as int, work.left as int, max_spec(work.right - content.0, work.left as int));
    let below = anchor.bottom + CARET_GAP;
    let above = anchor.top - CARET_GAP - content.1;
    let y = if below + content.1 <= work.bottom {
        below
    } else if above >= work.top {
        above
    } else {
        max_spec(work.bottom - content.1, work.top as int)
    };
    (x, y)
}

pub fn place(anchor: CaretRect, content: (i32, i32), work: WorkArea) -> (r: (i32, i32))
    requires
        fits(work.right - content.0),
        fits(anchor.bottom + CARET_GAP),
        fits(anchor.top - CARET_GAP),
        fits(anchor.bottom + CARET_GAP + content.1),
        fits(anchor.top - CARET_GAP - content.1),
        !(anchor.bottom + CARET_GAP + content.1 <= work.bottom) && !(anchor.top - CARET_GAP
            - content.1 >= work.top) ==> fits(work.bottom - content.1),
    ensures
        (r.0 as int, r.1 as int) == place_spec(anchor, content, work),
{
    let x = clamp_i32(anchor.left, work.left, max_i32(work.right - content.0, work.left));
    let below = anchor.bottom + CARET_GAP;
    let above = anchor.top - CARET_GAP - content.1;
    let y = if below + content.1 <= work.bottom {
        below
    } else if above >= work.top {
        above
    } else {
        max_i32(work.bottom - content.1, work.top)
    };
    (x, y)
}

/// Integer division by 16 rounding toward zero (Rust's `/` on `i32`).
pub open spec fn div16(v: int) -> int {
    if v >= 0 {
        v / 16
    } else {
        -((-v) / 16)
    }
}

/// The gap between the status bar and the screen edge: it grows with the
/// shadow margin, and is never below [`EDGE_GAP`].
pub open spec fn edge_gap(margin: i32) -> int {
    max_spec(div16(EDGE_GAP * margin), EDGE_GAP as int)
}

/// The status bar's first place: the bottom-right corner of the primary work
/// area, inset by the shadow margin and the edge gap.
pub open spec fn default_anchor_spec(content: (i32, i32), margin: i32, work: WorkArea) -> (int, int) {
    let gap = edge_gap(margin);
    (work.right - margin - gap - content.0, work.bottom - margin - gap - content.1)
}

pub fn default_anchor(content: (i32, i32), margin: i32, work: WorkArea) -> (r: (i32, i32))
    requires
        fits(EDGE_GAP * margin),
        fits(work.right - margin),
        fits(work.bottom - margin),
        fits(work.right - margin - edge_gap(margin)),
        fits(work.bottom - margin - edge_gap(margin)),
        fits(work.right - margin - edge_gap(margin) - content.0),
        fits(work.bottom - margin - edge_gap(margin) - content.1),
    ensures
        (r.0 as int, r.1 as int) == default_anchor_spec(content, margin, work),
{
    let scaled = EDGE_GAP * margin;
    let gap = max_i32(scaled / 16, EDGE_GAP);
    (work.right - margin - gap - content.0, work.bottom - margin - gap - content.1)
}

/// A remembered corner clamped so the whole bar stays visible in the work
/// area of the monitor it is on (inset by the margin).
pub open spec fn clamp_anchor_spec(anchor: (i32, i32), content: (i32, i32), margin: i32, work: WorkArea) -> (int, int) {
    let x = clamp_spec(
        anchor.0 as int,
        work.left + margin,
        max_spec(work.right - margin - content.0, work.left + margin),
    );
    let y = clamp_spec(
        anchor.1 as int,
        work.top + margin,
        max_spec(work.bottom - margin - content.1, work.top + margin),
    );
    (x, y)
}

pub fn clamp_anchor(anchor: (i32, i32), content: (i32, i32), margin: i32, work: WorkArea) -> (r: (i32, i32))
    requires
        fits(work.left + margin),
        fits(work.top + margin),
        fits(work.right - margin),
        fits(work.bottom - margin),
        fits(work.right - margin - content.0),
        fits(work.bottom - margin - content.1),
    ensures
        (r.0 as int, r.1 as int) == clamp_anchor_spec(anchor, content, margin, work),
{
    let x = clamp_i32(
        anchor.0,
        work.left + margin,
        max_i32(work.right - margin - content.0, work.left + margin),
    );
    let y = clamp_i32(
        anchor.1,
        work.top + margin,
        max_i32(work.bottom - margin - content.1, work.top + margin),
    );
    (x, y)
}

/// When the content fits in the work area and the caret is on it, the
/// candidate window lies wholly inside the work area.
pub proof fn lemma_window_stays_in_the_work_area(anchor: CaretRect, content: (i32, i32), work: WorkArea)
    requires
        0 <= content.0 <= work.right - work.left,
        0 <= content.1 <= work.bottom - work.top,
        work.top <= anchor.bottom,
        anchor.top <= work.bottom,
    ensures
        ({
            let (x, y) = place_spec(anchor, content, work);
            &&& work.left <= x && x + content.0 <= work.right
            &&& work.top <= y && y + content.1 <= work.bottom
        }),
{
}

/// A clamped status bar lies wholly inside the work area inset by the margin
/// whenever it fits there.
pub proof fn lemma_status_bar_stays_visible(anchor: (i32, i32), content: (i32, i32), margin: i32, work: WorkArea)
    requires
        0 <= content.0 <= work.right - work.left - 2 * margin,
        0 <= content.1 <= work.bottom - work.top - 2 * margin,
    ensures
        ({
            let (x, y) = clamp_anchor_spec(anchor, content, margin, work);
            &&& work.left + margin <= x && x + content.0 <= work.right - margin
            &&& work.top + margin <= y && y + content.1 <= work.bottom - margin
        }),
{
}

/// The candidate window goes just below the caret whenever it fits there
/// above the work area's bottom; only when it does not, just above the caret
/// when that fits under the work area's top; else as low as the work area
/// lets it. Horizontally it starts at the caret unless that would push it
/// past the right edge or start it before the left one.
pub proof fn lemma_below_the_caret_first(anchor: CaretRect, content: (i32, i32), work: WorkArea)
    ensures
        anchor.bottom + CARET_GAP + content.1 <= work.bottom ==> place_spec(anchor, content, work).1
            == anchor.bottom + CARET_GAP,
        anchor.bottom + CARET_GAP + content.1 > work.bottom && anchor.top - CARET_GAP - content.1
            >= work.top ==> place_spec(anchor, content, work).1 == anchor.top - CARET_GAP - content.1,
        anchor.bottom + CARET_GAP + content.1 > work.bottom && anchor.top - CARET_GAP - content.1
            < work.top ==> place_spec(anchor, content, work).1 == (if work.bottom - content.1 >= work.top {
            work.bottom - content.1
        } else {
            work.top as int
        }),
        work.left <= anchor.left && anchor.left + content.0 <= work.right ==> place_spec(
            anchor,
            content,
            work,
        ).0 == anchor.left,
{
}

} // verus!
