//! Screen layout: how the 128x64 panel is divided between the pet, the
//! metrics panel and the status bar.

use vstd::prelude::*;

verus! {

/// An axis-aligned rectangle in pixels.
#[derive(Debug, Clone, Copy)]
pub struct Rect {
    pub x: usize,
    pub y: usize,
    pub w: usize,
    pub h: usize,
}

impl Rect {
    /// First column right of the rectangle.
    pub fn right(&self) -> (r: usize)
        requires
            self.x + self.w <= usize::MAX,
        ensures
            r == self.x + self.w,
    {
        self.x + self.w
    }

    /// First row below the rectangle.
    pub fn bottom(&self) -> (r: usize)
        requires
            self.y + self.h <= usize::MAX,
        ensures
            r == self.y + self.h,
    {
        self.y + self.h
    }
}

/// The areas of the screen: the pet (56x56), the divider column, the
/// metrics panel (70x56, fourteen 5-pixel characters) and the status bar
/// (128x7).
pub struct Layout {
    pub pet: Rect,
    pub divider_x: usize,
    pub metrics: Rect,
    pub status: Rect,
}

/// Height of one metrics row.
pub const ROW_H: usize = 8;
/// Blank pixels between groups of metrics rows.
pub const GROUP_GAP: usize = 2;

/// The screen layout.
pub open spec fn screen_layout() -> Layout {
    Layout {
        pet: Rect { x: 0, y: 0, w: 56, h: 56 },
        divider_x: 56,
        metrics: Rect { x: 58, y: 0, w: 70, h: 56 },
        status: Rect { x: 0, y: 57, w: 128, h: 7 },
    }
}

/// The screen layout.
pub fn layout() -> (r: Layout)
    ensures
        r == screen_layout(),
{
    Layout {
        pet: Rect { x: 0, y: 0, w: 56, h: 56 },
        divider_x: 56,
        metrics: Rect { x: 58, y: 0, w: 70, h: 56 },
        status: Rect { x: 0, y: 57, w: 128, h: 7 },
    }
}

/// The areas lie on the panel and do not overlap: the pet ends where the
/// divider column is, the metrics panel starts right of it and reaches the
/// right edge, the status bar spans the full width below both panels and
/// reaches the bottom edge, and the metrics panel is fourteen 5-pixel
/// characters wide.
pub proof fn law_layout_partitions()
    ensures
        ({
            let l = screen_layout();
            &&& l.pet.x + l.pet.w == l.divider_x
            &&& l.divider_x < l.metrics.x
            &&& l.metrics.x + l.metrics.w == 128
            &&& l.pet.y + l.pet.h < l.status.y
            &&& l.metrics.y + l.metrics.h < l.status.y
            &&& l.status.x == 0 && l.status.w == 128
            &&& l.status.y + l.status.h == 64
            &&& l.metrics.w == 14 * 5
        }),
{
}

} // verus!
