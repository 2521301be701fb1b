//! Hit testing in the candidate window: which candidate row, or the sentence
//! completion, lies under the mouse. Rectangles are in whole pixels relative to
//! the content area; the window adds a shadow margin around that area.

use vstd::prelude::*;

use crate::frame::Hover;
use crate::router::CandidateEvent;

verus! {

/// A rectangle in whole pixels; `right` and `bottom` are exclusive.
#[derive(Debug, Clone, Copy, PartialEq, Eq, Structural)]
pub struct HitRect {
    pub left: i32,
    pub top: i32,
    pub right: i32,
    pub bottom: i32,
}

/// What can be clicked in one frame.
#[derive(Debug, Clone, PartialEq, Eq)]
pub struct Bands {
    /// The candidate rows, relative to the content area.
    pub rows: Vec<HitRect>,
    /// The sentence completion, relative to the content area.
    pub sentence: Option<HitRect>,
    /// The content area in client coordinates: outside it nothing is hit.
    pub content: HitRect,
}

impl Default for Bands {
    /// Nothing to hit: an empty content area.
    fn default() -> (r: Self)
        ensures
            r.rows@.len() == 0,
            r.sentence is None,
            r.content == (HitRect { left: 0, top: 0, right: 0, bottom: 0 }),
    {
        Bands { rows: Vec::new(), sentence: None, content: HitRect { left: 0, top: 0, right: 0, bottom: 0 } }
    }
}

/// The point lies in the rectangle.
pub open spec fn inside_spec(rect: HitRect, x: int, y: int) -> bool {
    rect.left <= x < rect.right && rect.top <= y < rect.bottom
}

/// A row is hit: in a vertical list by its height alone (the whole row counts),
/// in a horizontal one by both extents.
pub open spec fn row_hit(rect: HitRect, vertical: bool, x: int, y: int) -> bool {
    if vertical {
        rect.top <= y < rect.bottom
    } else {
        inside_spec(rect, x, y)
    }
}

/// The first row hit, scanning from `from`.
pub open spec fn first_row_hit(rows: Seq<HitRect>, vertical: bool, x: int, y: int, from: int) -> Option<nat>
    decreases rows.len() - from,
{
    if from < 0 || from >= rows.len() {
        None
    } else if row_hit(rows[from], vertical, x, y) {
        Some(from as nat)
    } else {
        first_row_hit(rows, vertical, x, y, from + 1)
    }
}

/// What the mouse at client point `(x, y)` is on: nothing outside the content
/// area; the sentence when it is under it; otherwise the first row hit.
pub open spec fn target_spec(bands: Bands, vertical: bool, x: int, y: int) -> Option<Hover> {
    if !inside_spec(bands.content, x, y) {
        None
    } else {
        let (cx, cy) = (x - bands.content.left, y - bands.content.top);
        if bands.sentence matches Some(rect) && inside_spec(rect, cx, cy) {
            Some(Hover::Trailing)
        } else {
            match first_row_hit(bands.rows@, vertical, cx, cy, 0) {
                Some(row) => Some(Hover::Row(row as usize)),
                None => None,
            }
        }
    }
}

fn inside_at(rect: HitRect, x: i64, y: i64) -> (r: bool)
    ensures
        r == inside_spec(rect, x as int, y as int),
{
    x >= rect.left as i64 && x < rect.right as i64 && y >= rect.top as i64 && y < rect.bottom as i64
}

/// Whether the client point lies in `rect`.
pub fn inside(rect: HitRect, x: i32, y: i32) -> (r: bool)
    ensures
        r == inside_spec(rect, x as int, y as int),
{
    inside_at(rect, x as i64, y as i64)
}

/// What the mouse at client point `(x, y)` is on (see [`target_spec`]).
pub fn target_in(bands: &Bands, vertical: bool, x: i32, y: i32) -> (r: Option<Hover>)
    ensures
        r == target_spec(*bands, vertical, x as int, y as int),
{
    if !inside(bands.content, x, y) {
        return None;
    }
    let cx: i64 = x as i64 - bands.content.left as i64;
    let cy: i64 = y as i64 - bands.content.top as i64;
    if let Some(rect) = bands.sentence {
        if inside_at(rect, cx, cy) {
            return Some(Hover::Trailing);
        }
    }
    let mut k: usize = 0;
    while k < bands.rows.len()
        invariant
            k <= bands.rows@.len(),
            inside_spec(bands.content, x as int, y as int),
            cx == x as int - bands.content.left,
            cy == y as int - bands.content.top,
            !(bands.sentence matches Some(rect) && inside_spec(rect, cx as int, cy as int)),
            first_row_hit(bands.rows@, vertical, cx as int, cy as int, 0) == first_row_hit(
                bands.rows@,
                vertical,
                cx as int,
                cy as int,
                k as int,
            ),
        decreases bands.rows@.len() - k,
    {
        let rect = bands.rows[k];
        let in_y = cy >= rect.top as i64 && cy < rect.bottom as i64;
        let hit = if vertical {
            in_y
        } else {
            in_y && cx >= rect.left as i64 && cx < rect.right as i64
        };
        if hit {
            return Some(Hover::Row(k));
        }
        k = k + 1;
    }
    None
}

/// A point in the shadow margin, outside the content area, hits nothing; a
/// hit row is the first whose band contains the point (relative to the
/// content area).
pub proof fn lemma_hits_stay_in_their_band(bands: Bands, vertical: bool, x: int, y: int)
    ensures
        !inside_spec(bands.content, x, y) ==> target_spec(bands, vertical, x, y) is None,
        ({
            let (cx, cy) = (x - bands.content.left, y - bands.content.top);
            first_row_hit(bands.rows@, vertical, cx, cy, 0) matches Some(i) ==> {
                &&& i < bands.rows@.len()
                &&& row_hit(bands.rows@[i as int], vertical, cx, cy)
                &&& forall|j: int| 0 <= j < i ==> !row_hit(#[trigger] bands.rows@[j], vertical, cx, cy)
            }
        }),
{
    lemma_first_row_hit(bands.rows@, vertical, x - bands.content.left, y - bands.content.top, 0);
}

/// The row under the mouse holds the point, taken relative to the content
/// area: in a horizontal list inside the row's rectangle in both directions,
/// in a vertical list within its height. No earlier row holds it, so when a
/// row holds the point, one is found (and nothing is found outside the content
/// area or on the sentence).
pub proof fn lemma_the_hit_row_holds_the_point(bands: Bands, vertical: bool, x: int, y: int)
    ensures
        target_spec(bands, vertical, x, y) matches Some(Hover::Row(i)) ==> {
            let (cx, cy) = (x - bands.content.left, y - bands.content.top);
            &&& bands.content.left <= x < bands.content.right
            &&& bands.content.top <= y < bands.content.bottom
            &&& i < bands.rows@.len()
            &&& bands.rows@[i as int].top <= cy < bands.rows@[i as int].bottom
            &&& !vertical ==> bands.rows@[i as int].left <= cx < bands.rows@[i as int].right
            &&& forall|j: int|
                0 <= j < i ==> !(#[trigger] bands.rows@[j].top <= cy < bands.rows@[j].bottom && (vertical
                    || bands.rows@[j].left <= cx < bands.rows@[j].right))
        },
        ({
            let (cx, cy) = (x - bands.content.left, y - bands.content.top);
            (bands.content.left <= x < bands.content.right && bands.content.top <= y < bands.content.bottom
                && !(bands.sentence matches Some(r) && r.left <= cx < r.right && r.top <= cy < r.bottom)
                && exists|j: int|
                0 <= j < bands.rows@.len() && #[trigger] bands.rows@[j].top <= cy < bands.rows@[j].bottom
                    && (vertical || bands.rows@[j].left <= cx < bands.rows@[j].right)) ==> target_spec(
                bands,
                vertical,
                x,
                y,
            ) matches Some(Hover::Row(_))
        }),
{
    let (cx, cy) = (x - bands.content.left, y - bands.content.top);
    let rows = bands.rows@;
    lemma_first_row_hit(rows, vertical, cx, cy, 0);
    lemma_some_row_is_found(rows, vertical, cx, cy, 0);
    if let Some(r) = first_row_hit(rows, vertical, cx, cy, 0) {
        assert(r < rows.len());
        assert(rows.len() == bands.rows.len());
        assert((r as usize) as nat == r);
        assert forall|j: int| 0 <= j < r implies !(#[trigger] rows[j].top <= cy < rows[j].bottom && (vertical
            || rows[j].left <= cx < rows[j].right)) by {
            assert(!row_hit(rows[j], vertical, cx, cy));
        }
    }
    if exists|j: int|
        0 <= j < rows.len() && #[trigger] rows[j].top <= cy < rows[j].bottom && (vertical || rows[j].left <= cx
            < rows[j].right) {
        let j = choose|j: int|
            0 <= j < rows.len() && #[trigger] rows[j].top <= cy < rows[j].bottom && (vertical || rows[j].left
                <= cx < rows[j].right);
        assert(row_hit(rows[j], vertical, cx, cy));
    }
}

proof fn lemma_some_row_is_found(rows: Seq<HitRect>, vertical: bool, x: int, y: int, from: int)
    requires
        0 <= from,
    ensures
        (exists|j: int| from <= j < rows.len() && #[trigger] row_hit(rows[j], vertical, x, y)) ==> first_row_hit(
            rows,
            vertical,
            x,
            y,
            from,
        ) is Some,
    decreases rows.len() - from,
{
    if from < rows.len() && !row_hit(rows[from], vertical, x, y) {
        lemma_some_row_is_found(rows, vertical, x, y, from + 1);
        if exists|j: int| from <= j < rows.len() && #[trigger] row_hit(rows[j], vertical, x, y) {
            let j = choose|j: int| from <= j < rows.len() && #[trigger] row_hit(rows[j], vertical, x, y);
            assert(j != from);
        }
    }
}

proof fn lemma_first_row_hit(rows: Seq<HitRect>, vertical: bool, x: int, y: int, from: int)
    requires
        0 <= from,
    ensures
        first_row_hit(rows, vertical, x, y, from) matches Some(i) ==> {
            &&& from <= i < rows.len()
            &&& row_hit(rows[i as int], vertical, x, y)
            &&& forall|j: int| from <= j < i ==> !row_hit(#[trigger] rows[j], vertical, x, y)
        },
    decreases rows.len() - from,
{
    if from < rows.len() && !row_hit(rows[from], vertical, x, y) {
        lemma_first_row_hit(rows, vertical, x, y, from + 1);
    }
}

/// The first cell, in order, whose rectangle holds the point.
pub open spec fn first_cell_hit(cells: Seq<HitRect>, x: int, y: int, from: int) -> Option<nat>
    decreases cells.len() - from,
{
    if from < 0 || from >= cells.len() {
        None
    } else if inside_spec(cells[from], x, y) {
        Some(from as nat)
    } else {
        first_cell_hit(cells, x, y, from + 1)
    }
}

/// Which status-bar cell the client point `(x, y)` is on: the cell rectangles
/// are relative to the content, which starts `margin` pixels into the window.
pub fn cell_at(cells: &Vec<HitRect>, margin: i32, x: i32, y: i32) -> (r: Option<usize>)
    ensures
        match first_cell_hit(cells@, x - margin, y - margin, 0) {
            Some(i) => r == Some(i as usize),
            None => r is None,
        },
{
    let cx: i64 = x as i64 - margin as i64;
    let cy: i64 = y as i64 - margin as i64;
    let mut k: usize = 0;
    while k < cells.len()
        invariant
            k <= cells@.len(),
            cx == x - margin,
            cy == y - margin,
            first_cell_hit(cells@, cx as int, cy as int, 0) == first_cell_hit(cells@, cx as int, cy as int, k as int),
        decreases cells@.len() - k,
    {
        if inside_at(cells[k], cx, cy) {
            return Some(k);
        }
        k = k + 1;
    }
    None
}

/// A click on what lies under the mouse: a row picks that row, the sentence
/// accepts the sentence, elsewhere nothing happens.
pub fn click_event(target: Option<Hover>) -> (r: Option<CandidateEvent>)
    ensures
        r == (match target {
            Some(Hover::Row(row)) => Some(CandidateEvent::Pick(row)),
            Some(Hover::Trailing) => Some(CandidateEvent::PickSentence),
            None => None,
        }),
{
    match target {
        Some(Hover::Row(row)) => Some(CandidateEvent::Pick(row)),
        Some(Hover::Trailing) => Some(CandidateEvent::PickSentence),
        None => None,
    }
}

/// The mouse state of the candidate window: what can be hit, what the mouse
/// rests on, and whether the window waits for the mouse to leave.
#[derive(Debug)]
pub struct HitState {
    pub bands: Bands,
    /// Rows stacked vertically (hit by height alone) or side by side.
    pub vertical: bool,
    /// What the mouse rests on.
    pub hover: Option<Hover>,
    /// Leaving the window is being watched.
    pub tracking: bool,
}

/// What the window does after the mouse moved.
#[derive(Debug, Clone, Copy, PartialEq, Eq, Structural)]
pub struct MouseMove {
    /// Ask the system to report when the mouse leaves (once until it does).
    pub track_leave: bool,
    /// The hover changed: repaint with it.
    pub repaint: bool,
}

impl HitState {
    /// Nothing to hit, nothing hovered.
    pub fn new() -> (r: HitState)
        ensures
            r.bands.rows@.len() == 0,
            r.bands.sentence is None,
            r.vertical,
            r.hover is None,
            !r.tracking,
    {
        HitState { bands: Bands::default(), vertical: true, hover: None, tracking: false }
    }

    /// Sets the hover; whether it changed (and the window repaints).
    fn update_hover(&mut self, target: Option<Hover>) -> (repaint: bool)
        ensures
            final(self).hover == target,
            final(self).bands == old(self).bands,
            final(self).vertical == old(self).vertical,
            final(self).tracking == old(self).tracking,
            repaint == (old(self).hover != target),
    {
        let changed = match (self.hover, target) {
            (Some(a), Some(b)) => a != b,
            (None, None) => false,
            _ => true,
        };
        self.hover = target;
        changed
    }

    /// What lies under the client point.
    pub fn target_at(&self, x: i32, y: i32) -> (r: Option<Hover>)
        ensures
            r == target_spec(self.bands, self.vertical, x as int, y as int),
    {
        target_in(&self.bands, self.vertical, x, y)
    }

    /// The mouse moved to `(x, y)`: the hover follows it.
    pub fn on_mouse_move(&mut self, x: i32, y: i32) -> (r: MouseMove)
        ensures
            final(self).hover == target_spec(old(self).bands, old(self).vertical, x as int, y as int),
            final(self).tracking,
            r.track_leave == !old(self).tracking,
            r.repaint == (old(self).hover != final(self).hover),
            final(self).bands == old(self).bands,
            final(self).vertical == old(self).vertical,
    {
        let track_leave = !self.tracking;
        self.tracking = true;
        let target = self.target_at(x, y);
        let repaint = self.update_hover(target);
        MouseMove { track_leave, repaint }
    }

    /// The system could not watch for the mouse leaving: ask again next time.
    pub fn tracking_failed(&mut self)
        ensures
            !final(self).tracking,
            final(self).hover == old(self).hover,
            final(self).bands == old(self).bands,
            final(self).vertical == old(self).vertical,
    {
        self.tracking = false;
    }

    /// The mouse left the window (or the window hid): nothing is hovered.
    pub fn on_mouse_leave(&mut self) -> (repaint: bool)
        ensures
            final(self).hover is None,
            !final(self).tracking,
            repaint == (old(self).hover is Some),
            final(self).bands == old(self).bands,
            final(self).vertical == old(self).vertical,
    {
        self.tracking = false;
        self.update_hover(None)
    }

    /// A new frame was drawn: new bands, and the hover recomputed at the
    /// mouse's position (`None` when it could not be read).
    pub fn set_bands(&mut self, bands: Bands, vertical: bool, pointer: Option<(i32, i32)>) -> (repaint: bool)
        ensures
            final(self).bands == bands,
            final(self).vertical == vertical,
            final(self).tracking == old(self).tracking,
            final(self).hover == (match pointer {
                Some((x, y)) => target_spec(bands, vertical, x as int, y as int),
                None => None,
            }),
            repaint == (old(self).hover != final(self).hover),
    {
        self.bands = bands;
        self.vertical = vertical;
        let target = match pointer {
            Some((x, y)) => self.target_at(x, y),
            None => None,
        };
        self.update_hover(target)
    }

    /// A click at `(x, y)`.
    pub fn on_click(&self, x: i32, y: i32) -> (r: Option<CandidateEvent>)
        ensures
            r == (match target_spec(self.bands, self.vertical, x as int, y as int) {
                Some(Hover::Row(row)) => Some(CandidateEvent::Pick(row)),
                Some(Hover::Trailing) => Some(CandidateEvent::PickSentence),
                None => None,
            }),
    {
        click_event(self.target_at(x, y))
    }
}

} // verus!
