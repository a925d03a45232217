//! Drawing primitives: rectangle outline, filled rectangle, lines.

use vstd::prelude::*;

use crate::display::framebuffer::{in_bounds, pixel_on, Framebuffer};

verus! {

/// The picture `after` is `before` with exactly the pixels selected by
/// `region` turned on.
pub open spec fn lit_over(after: Seq<u8>, before: Seq<u8>, region: spec_fn(int, int) -> bool) -> bool {
    &&& after.len() == 1024
    &&& forall|i: int, j: int|
        #![trigger pixel_on(after, i, j)]
        in_bounds(i, j) ==> pixel_on(after, i, j) == (region(i, j) || pixel_on(before, i, j))
}

/// Pixels of the filled rectangle clipped to the panel.
pub open spec fn fill_region(x: int, y: int, w: int, h: int) -> spec_fn(int, int) -> bool {
    |i: int, j: int| x <= i < x + w && y <= j < y + h
}

/// Last column or row of an outline that starts at `a` and spans `n`
/// pixels, clipped to `limit`.
pub open spec fn outline_end(a: int, n: int, limit: int) -> int {
    if a + n - 1 > limit {
        limit
    } else {
        a + n - 1
    }
}

/// Pixels of the outline of the rectangle clipped to the panel.
pub open spec fn rect_region(x: int, y: int, w: int, h: int) -> spec_fn(int, int) -> bool {
    let x2 = outline_end(x, w, 127);
    let y2 = outline_end(y, h, 63);
    |i: int, j: int|
        (x <= i <= x2 && (j == y || j == y2)) || ((i == x || i == x2) && y <= j <= y2)
}

/// Pixels of a horizontal run of `len` pixels from `(x, y)`, every `step`-th one.
pub open spec fn hrun_region(x: int, y: int, len: int, step: int) -> spec_fn(int, int) -> bool {
    |i: int, j: int| j == y && x <= i < x + len && (i - x) % step == 0
}

/// Pixels of a vertical run of `len` pixels from `(x, y)`, every `step`-th one.
pub open spec fn vrun_region(x: int, y: int, len: int, step: int) -> spec_fn(int, int) -> bool {
    |i: int, j: int| i == x && y <= j < y + len && (j - y) % step == 0
}

/// Outline of the `w` x `h` rectangle at `(x, y)`, clipped to the panel.
/// Empty rectangles and rectangles starting off the panel draw nothing.
pub fn draw_rect(fb: &mut Framebuffer, x: usize, y: usize, w: usize, h: usize)
    requires
        old(fb)@.len() == 1024,
    ensures
        (w == 0 || h == 0 || x >= 128 || y >= 64) ==> final(fb)@ == old(fb)@,
        !(w == 0 || h == 0 || x >= 128 || y >= 64) ==> lit_over(
            final(fb)@,
            old(fb)@,
            rect_region(x as int, y as int, w as int, h as int),
        ),
{
    if w == 0 || h == 0 || x >= 128 || y >= 64 {
        return;
    }
    let x2 = if x.saturating_add(w.saturating_sub(1)) < 127 {
        x.saturating_add(w.saturating_sub(1))
    } else {
        127
    };
    let y2 = if y.saturating_add(h.saturating_sub(1)) < 63 {
        y.saturating_add(h.saturating_sub(1))
    } else {
        63
    };
    assert(x2 == outline_end(x as int, w as int, 127));
    assert(y2 == outline_end(y as int, h as int, 63));
    let ghost start = fb@;
    let ghost region = rect_region(x as int, y as int, w as int, h as int);
    let mut px = x;
    while px <= x2
        invariant
            x <= px <= x2 + 1,
            x2 <= 127,
            y2 <= 63,
            y < 64,
            fb@.len() == 1024,
            forall|i: int, j: int|
                #![trigger pixel_on(fb@, i, j)]
                in_bounds(i, j) ==> pixel_on(fb@, i, j) == ((x <= i < px && (j == y || j == y2))
                    || pixel_on(start, i, j)),
        decreases x2 + 1 - px,
    {
        let ghost b0 = fb@;
        fb.set_pixel(px, y, true);
        let ghost b1 = fb@;
        fb.set_pixel(px, y2, true);
        assert forall|i: int, j: int|
            #![trigger pixel_on(fb@, i, j)]
            in_bounds(i, j) implies pixel_on(fb@, i, j) == ((x <= i < px + 1 && (j == y || j
                == y2)) || pixel_on(start, i, j)) by {
            if !(i == px && j == y2) {
                assert(pixel_on(fb@, i, j) == pixel_on(b1, i, j));
            }
            if !(i == px && j == y) {
                assert(pixel_on(b1, i, j) == pixel_on(b0, i, j));
            }
        }
        px = px + 1;
    }
    let mut py = y;
    while py <= y2
        invariant
            y <= py <= y2 + 1,
            x2 <= 127,
            y2 <= 63,
            x < 128,
            x <= x2,
            fb@.len() == 1024,
            forall|i: int, j: int|
                #![trigger pixel_on(fb@, i, j)]
                in_bounds(i, j) ==> pixel_on(fb@, i, j) == ((x <= i <= x2 && (j == y || j == y2))
                    || ((i == x || i == x2) && y <= j < py) || pixel_on(start, i, j)),
        decreases y2 + 1 - py,
    {
        let ghost b0 = fb@;
        fb.set_pixel(x, py, true);
        let ghost b1 = fb@;
        fb.set_pixel(x2, py, true);
        assert forall|i: int, j: int|
            #![trigger pixel_on(fb@, i, j)]
            in_bounds(i, j) implies pixel_on(fb@, i, j) == ((x <= i <= x2 && (j == y || j == y2))
                || ((i == x || i == x2) && y <= j < py + 1) || pixel_on(start, i, j)) by {
            if !(i == x2 && j == py) {
                assert(pixel_on(fb@, i, j) == pixel_on(b1, i, j));
            }
            if !(i == x && j == py) {
                assert(pixel_on(b1, i, j) == pixel_on(b0, i, j));
            }
        }
        py = py + 1;
    }
}

/// Filled `w` x `h` rectangle at `(x, y)`, clipped to the panel.
pub fn fill_rect(fb: &mut Framebuffer, x: usize, y: usize, w: usize, h: usize)
    requires
        old(fb)@.len() == 1024,
        !(w == 0 || h == 0 || x >= 128 || y >= 64) ==> x + w <= usize::MAX && y + h
            <= usize::MAX,
    ensures
        lit_over(final(fb)@, old(fb)@, fill_region(x as int, y as int, w as int, h as int)),
        (w == 0 || h == 0 || x >= 128 || y >= 64) ==> final(fb)@ == old(fb)@,
{
    if w == 0 || h == 0 || x >= 128 || y >= 64 {
        return;
    }
    let x2 = if x + w < 128 {
        x + w
    } else {
        128
    };
    let y2 = if y + h < 64 {
        y + h
    } else {
        64
    };
    let ghost start = fb@;
    let mut py = y;
    while py < y2
        invariant
            y <= py <= y2,
            y2 <= 64,
            x < x2 <= 128,
            x2 == (if x + w < 128 { x + w } else { 128 }),
            y2 == (if y + h < 64 { y + h } else { 64 }),
            fb@.len() == 1024,
            forall|i: int, j: int|
                #![trigger pixel_on(fb@, i, j)]
                in_bounds(i, j) ==> pixel_on(fb@, i, j) == ((x <= i < x2 && y <= j < py)
                    || pixel_on(start, i, j)),
        decreases y2 - py,
    {
        let mut px = x;
        while px < x2
            invariant
                x <= px <= x2,
                y <= py < y2,
                y2 <= 64,
                x2 <= 128,
                fb@.len() == 1024,
                forall|i: int, j: int|
                    #![trigger pixel_on(fb@, i, j)]
                    in_bounds(i, j) ==> pixel_on(fb@, i, j) == ((x <= i < x2 && y <= j < py) || (
                    j == py && x <= i < px) || pixel_on(start, i, j)),
            decreases x2 - px,
        {
            let ghost b0 = fb@;
            fb.set_pixel(px, py, true);
            assert forall|i: int, j: int|
                #![trigger pixel_on(fb@, i, j)]
                in_bounds(i, j) implies pixel_on(fb@, i, j) == ((x <= i < x2 && y <= j < py) || (j
                    == py && x <= i < px + 1) || pixel_on(start, i, j)) by {
                if !(i == px && j == py) {
                    assert(pixel_on(fb@, i, j) == pixel_on(b0, i, j));
                }
            }
            px = px + 1;
        }
        py = py + 1;
    }
}

/// Lights every `step`-th pixel of the horizontal run of `len` pixels from `(x, y)`.
fn hrun(fb: &mut Framebuffer, x: usize, y: usize, len: usize, step: usize)
    requires
        old(fb)@.len() == 1024,
        step == 1 || step == 2,
    ensures
        lit_over(final(fb)@, old(fb)@, hrun_region(x as int, y as int, len as int, step as int)),
{
    let ghost start = fb@;
    let mut i: usize = 0;
    while i < len
        invariant
            step == 1 || step == 2,
            i <= len,
            i == len || i % step == 0,
            fb@.len() == 1024,
            forall|a: int, b: int|
                #![trigger pixel_on(fb@, a, b)]
                in_bounds(a, b) ==> pixel_on(fb@, a, b) == ((b == y && x <= a < x + i && (a - x)
                    % (step as int) == 0) || pixel_on(start, a, b)),
        decreases len - i,
    {
        let ghost b0 = fb@;
        fb.set_pixel(x.saturating_add(i), y, true);
        assert forall|a: int, b: int|
            #![trigger pixel_on(fb@, a, b)]
            in_bounds(a, b) implies pixel_on(fb@, a, b) == ((b == y && x <= a < x + i + step && (a
                - x) % (step as int) == 0) || pixel_on(start, a, b)) by {
            if !(a == x + i && b == y) {
                assert(pixel_on(fb@, a, b) == pixel_on(b0, a, b));
            }
        }
        if len - i <= step {
            i = len;
        } else {
            i = i + step;
        }
    }
    assert forall|a: int, b: int|
        #![trigger pixel_on(fb@, a, b)]
        in_bounds(a, b) implies pixel_on(fb@, a, b) == (hrun_region(
            x as int,
            y as int,
            len as int,
            step as int,
        )(a, b) || pixel_on(start, a, b)) by {
    }
}

/// Lights every `step`-th pixel of the vertical run of `len` pixels from `(x, y)`.
fn vrun(fb: &mut Framebuffer, x: usize, y: usize, len: usize, step: usize)
    requires
        old(fb)@.len() == 1024,
        step == 1 || step == 2,
    ensures
        lit_over(final(fb)@, old(fb)@, vrun_region(x as int, y as int, len as int, step as int)),
{
    let ghost start = fb@;
    let mut i: usize = 0;
    while i < len
        invariant
            step == 1 || step == 2,
            i <= len,
            i == len || i % step == 0,
            fb@.len() == 1024,
            forall|a: int, b: int|
                #![trigger pixel_on(fb@, a, b)]
                in_bounds(a, b) ==> pixel_on(fb@, a, b) == ((a == x && y <= b < y + i && (b - y)
                    % (step as int) == 0) || pixel_on(start, a, b)),
        decreases len - i,
    {
        let ghost b0 = fb@;
        fb.set_pixel(x, y.saturating_add(i), true);
        assert forall|a: int, b: int|
            #![trigger pixel_on(fb@, a, b)]
            in_bounds(a, b) implies pixel_on(fb@, a, b) == ((a == x && y <= b < y + i + step && (b
                - y) % (step as int) == 0) || pixel_on(start, a, b)) by {
            if !(a == x && b == y + i) {
                assert(pixel_on(fb@, a, b) == pixel_on(b0, a, b));
            }
        }
        if len - i <= step {
            i = len;
        } else {
            i = i + step;
        }
    }
    assert forall|a: int, b: int|
        #![trigger pixel_on(fb@, a, b)]
        in_bounds(a, b) implies pixel_on(fb@, a, b) == (vrun_region(
            x as int,
            y as int,
            len as int,
            step as int,
        )(a, b) || pixel_on(start, a, b)) by {
    }
}

/// Solid horizontal line of `len` pixels from `(x, y)`.
pub fn draw_hline(fb: &mut Framebuffer, x: usize, y: usize, len: usize)
    requires
        old(fb)@.len() == 1024,
    ensures
        lit_over(final(fb)@, old(fb)@, hrun_region(x as int, y as int, len as int, 1)),
{
    hrun(fb, x, y, len, 1);
}

/// Dotted horizontal line: every other pixel of the `len` pixels from `(x, y)`.
pub fn draw_hline_dotted(fb: &mut Framebuffer, x: usize, y: usize, len: usize)
    requires
        old(fb)@.len() == 1024,
    ensures
        lit_over(final(fb)@, old(fb)@, hrun_region(x as int, y as int, len as int, 2)),
{
    hrun(fb, x, y, len, 2);
}

/// Dotted vertical line: every other pixel of the `len` pixels from `(x, y)`.
pub fn draw_vline_dotted(fb: &mut Framebuffer, x: usize, y: usize, len: usize)
    requires
        old(fb)@.len() == 1024,
    ensures
        lit_over(final(fb)@, old(fb)@, vrun_region(x as int, y as int, len as int, 2)),
{
    vrun(fb, x, y, len, 2);
}

} // verus!
