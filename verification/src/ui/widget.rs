//! Reusable widgets: the status bar, the progress bar and the dividers.

use vstd::prelude::*;

use super::layout::{Layout, Rect};
use crate::display::framebuffer::{in_bounds, pixel_on, Framebuffer};
use crate::renderer::canvas::{
    draw_hline_dotted, draw_rect, fill_rect, fill_region, hrun_region, lit_over, rect_region,
};
use crate::renderer::text::{draw_text_inverted, ink, text_width};

verus! {

/// Pixel `(i, j)` is covered by the text `cs` drawn in the standard font
/// `font` with one column between characters from `(x, y)`.
pub open spec fn std_ink(font: Seq<u8>, cs: Seq<char>, x: int, y: int, i: int, j: int) -> bool {
    ink(cs, font, false, 1, x, y, cs.len() as int, i, j)
}

/// `a - b`, or zero when `b` is larger.
pub open spec fn sat_sub(a: int, b: int) -> int {
    if a >= b {
        a - b
    } else {
        0
    }
}

/// The right-hand text of a status bar is drawn: it is not empty and both
/// texts fit with four pixels between them inside the bar's inner width.
pub open spec fn shows_right(area: Rect, left: Seq<char>, right: Seq<char>) -> bool {
    right.len() > 0 && left.len() * 6 + right.len() * 6 + 4 <= sat_sub(area.w as int, 2)
}

/// Column at which the right-hand text starts: one pixel from the bar's
/// right end.
pub open spec fn right_text_x(area: Rect, right: Seq<char>) -> int {
    sat_sub(area.x + area.w, (right.len() * 6 + 1) as int)
}

/// The picture `after` is `before` with both regions lit.
pub open spec fn both(r1: spec_fn(int, int) -> bool, r2: spec_fn(int, int) -> bool) -> spec_fn(
    int,
    int,
) -> bool {
    |i: int, j: int| r1(i, j) || r2(i, j)
}

proof fn lemma_lit_chain(
    a: Seq<u8>,
    b: Seq<u8>,
    c: Seq<u8>,
    r1: spec_fn(int, int) -> bool,
    r2: spec_fn(int, int) -> bool,
)
    requires
        lit_over(b, a, r1),
        lit_over(c, b, r2),
    ensures
        lit_over(c, a, both(r1, r2)),
{
    assert forall|i: int, j: int| #![trigger pixel_on(c, i, j)] in_bounds(i, j) implies pixel_on(
        c,
        i,
        j,
    ) == (both(r1, r2)(i, j) || pixel_on(a, i, j)) by {
        assert(pixel_on(b, i, j) == (r1(i, j) || pixel_on(a, i, j)));
    }
}

/// Pixel `(i, j)` after drawing a status bar over a picture in which it
/// was `prev`: dark under the texts, else lit inside the area, else
/// unchanged.
pub open spec fn status_bar_pixel(
    prev: bool,
    font: Seq<u8>,
    area: Rect,
    left: Seq<char>,
    right: Seq<char>,
    i: int,
    j: int,
) -> bool {
    if std_ink(font, left, area.x + 1, area.y as int, i, j) || (shows_right(area, left, right)
        && std_ink(
        font,
        right,
        right_text_x(area, right),
        area.y as int,
        i,
        j,
    )) {
        false
    } else {
        fill_region(area.x as int, area.y as int, area.w as int, area.h as int)(i, j) || prev
    }
}

/// Pixel `(i, j)` after drawing a progress bar over a picture in which it
/// was `prev`.
pub open spec fn bar_pixel(
    prev: bool,
    x: int,
    y: int,
    w: int,
    h: int,
    fill: int,
    i: int,
    j: int,
) -> bool {
    if w < 3 || h < 3 {
        prev
    } else {
        (!(x >= 128 || y >= 64) && rect_region(x, y, w, h)(i, j)) || fill_region(
            x + 1,
            y + 1,
            fill,
            h - 2,
        )(i, j) || prev
    }
}

/// Status bar: the area filled, `left` drawn dark from one pixel inside
/// its left edge, and `right` drawn dark against its right edge when it
/// is not empty and both texts fit; texts in the standard font `font`.
pub fn status_bar(fb: &mut Framebuffer, font: &[u8; 475], area: &Rect, left: &str, right: &str)
    requires
        old(fb)@.len() == 1024,
        !(area.w == 0 || area.h == 0 || area.x >= 128 || area.y >= 64) ==> area.x + area.w
            <= usize::MAX && area.y + area.h <= usize::MAX,
        area.x + 1 <= usize::MAX,
        right@.len() > 0 ==> left@.len() * 6 + right@.len() * 6 + 4 <= usize::MAX,
        shows_right(*area, left@, right@) ==> area.x + area.w <= usize::MAX,
    ensures
        final(fb)@.len() == 1024,
        forall|i: int, j: int|
            #![trigger pixel_on(final(fb)@, i, j)]
            in_bounds(i, j) ==> pixel_on(final(fb)@, i, j) == status_bar_pixel(
                pixel_on(old(fb)@, i, j),
                font@,
                *area,
                left@,
                right@,
                i,
                j,
            ),
{
    let ghost before = fb@;
    fill_rect(fb, area.x, area.y, area.w, area.h);
    let ghost filled = fb@;
    draw_text_inverted(fb, font, area.x + 1, area.y, left);
    let ghost with_left = fb@;
    let mut shown = false;
    let mut rx: usize = 0;
    if !right.is_empty() {
        let left_px = text_width(left, 1);
        let right_px = text_width(right, 1);
        if left_px + right_px + 4 <= area.w.saturating_sub(2) {
            rx = area.right().saturating_sub(right_px + 1);
            draw_text_inverted(fb, font, rx, area.y, right);
            shown = true;
        }
    }
    proof {
        assert(shown == shows_right(*area, left@, right@));
        assert(shown ==> rx == right_text_x(*area, right@));
        assert forall|i: int, j: int| #![trigger pixel_on(fb@, i, j)] in_bounds(i, j) implies pixel_on(
            fb@,
            i,
            j,
        ) == status_bar_pixel(pixel_on(before, i, j), font@, *area, left@, right@, i, j) by {
            assert(pixel_on(filled, i, j) == (fill_region(
                area.x as int,
                area.y as int,
                area.w as int,
                area.h as int,
            )(i, j) || pixel_on(before, i, j)));
            assert(pixel_on(with_left, i, j) == (!std_ink(font@, left@, area.x + 1, area.y as int, i, j)
                && pixel_on(filled, i, j)));
        }
    }
}

/// Progress bar: the outline of the `w` x `h` box and `fill` columns of
/// its inside filled from the left. Boxes narrower or lower than three
/// pixels draw nothing.
pub fn progress_bar(fb: &mut Framebuffer, x: usize, y: usize, w: usize, h: usize, fill: usize)
    requires
        old(fb)@.len() == 1024,
        w >= 3 && h >= 3 ==> fill <= w - 2 && x + w <= usize::MAX && y + h <= usize::MAX,
    ensures
        (w < 3 || h < 3) ==> final(fb)@ == old(fb)@,
        final(fb)@.len() == 1024,
        forall|i: int, j: int|
            #![trigger pixel_on(final(fb)@, i, j)]
            in_bounds(i, j) ==> pixel_on(final(fb)@, i, j) == bar_pixel(
                pixel_on(old(fb)@, i, j),
                x as int,
                y as int,
                w as int,
                h as int,
                fill as int,
                i,
                j,
            ),
{
    if w < 3 || h < 3 {
        return;
    }
    let ghost before = fb@;
    draw_rect(fb, x, y, w, h);
    let ghost mid = fb@;
    fill_rect(fb, x + 1, y + 1, fill, h - 2);
    proof {
        if !(x >= 128 || y >= 64) {
            lemma_lit_chain(
                before,
                mid,
                fb@,
                rect_region(x as int, y as int, w as int, h as int),
                fill_region(x + 1, y + 1, fill as int, h - 2),
            );
        }
    }
}

/// Pixels of the column `x` from row `y0` up to (not including) row `y1`.
pub open spec fn column_region(x: int, y0: int, y1: int) -> spec_fn(int, int) -> bool {
    |i: int, j: int| i == x && y0 <= j < y1
}

/// Dividers: a solid column at `divider_x` along the pet area's height, and
/// a dotted line across the panel on the row above the status bar.
pub fn draw_dividers(fb: &mut Framebuffer, layout: &Layout)
    requires
        old(fb)@.len() == 1024,
        layout.pet.y + layout.pet.h <= usize::MAX,
    ensures
        lit_over(
            final(fb)@,
            old(fb)@,
            both(
                column_region(
                    layout.divider_x as int,
                    layout.pet.y as int,
                    layout.pet.y + layout.pet.h,
                ),
                hrun_region(0, sat_sub(layout.status.y as int, 1), 128, 2),
            ),
        ),
{
    let ghost before = fb@;
    let dx = layout.divider_x;
    let y0 = layout.pet.y;
    let y1 = layout.pet.bottom();
    let mut y: usize = y0;
    while y < y1
        invariant
            y0 <= y <= y1,
            fb@.len() == 1024,
            lit_over(fb@, before, column_region(dx as int, y0 as int, y as int)),
        decreases y1 - y,
    {
        let ghost prev = fb@;
        fb.set_pixel(dx, y, true);
        proof {
            assert forall|i: int, j: int| #![trigger pixel_on(fb@, i, j)] in_bounds(i, j) implies pixel_on(
                fb@,
                i,
                j,
            ) == (column_region(dx as int, y0 as int, y + 1)(i, j) || pixel_on(before, i, j)) by {
                assert(pixel_on(prev, i, j) == (column_region(dx as int, y0 as int, y as int)(i, j)
                    || pixel_on(before, i, j)));
            }
        }
        y = y + 1;
    }
    let ghost mid = fb@;
    let sep_y = layout.status.y.saturating_sub(1);
    draw_hline_dotted(fb, 0, sep_y, 128);
    proof {
        lemma_lit_chain(
            before,
            mid,
            fb@,
            column_region(dx as int, y0 as int, y1 as int),
            hrun_region(0, sep_y as int, 128, 2),
        );
    }
}

} // verus!
