//! Text rendering in the 5x7 standard font and the 4x6 small font, lit or
//! cleared ("inverted") on the frame buffer.

use vstd::prelude::*;

use super::font::{self, ascii_slot, glyph_of, small_glyph_of, FALLBACK_FONT_DATA};
use crate::display::framebuffer::{in_bounds, law_cleared_is_dark, pixel_on, Framebuffer};
use crate::utils::chars::str_chars;
use crate::utils::number::{dec, lemma_dec_len_pow, pow10, push_dec};

verus! {

/// Glyph of `c` in the chosen size.
pub open spec fn sized_glyph(font: Seq<u8>, small: bool, c: char) -> Seq<u8> {
    if small {
        small_glyph_of(c)
    } else {
        glyph_of(font, c)
    }
}

/// Rows of a glyph in the chosen size.
pub open spec fn glyph_rows(small: bool) -> int {
    if small {
        6
    } else {
        7
    }
}

/// Horizontal advance per character.
pub open spec fn advance(small: bool, gap: int) -> int {
    (if small {
        4int
    } else {
        5int
    }) + gap
}

/// Column at which character `k` of `cs` starts: every `'\n'` returns to
/// `x`, every other character moves on by `adv`.
pub open spec fn cursor(cs: Seq<char>, x: int, adv: int, k: int) -> int
    decreases k,
{
    if k <= 0 {
        x
    } else if cs[k - 1] == '\n' {
        x
    } else {
        cursor(cs, x, adv, k - 1) + adv
    }
}

/// None of the first `k` characters stopped the line (a character that
/// would start at or right of column 128 stops drawing of the whole text).
pub open spec fn live(cs: Seq<char>, x: int, adv: int, k: int) -> bool
    decreases k,
{
    if k <= 0 {
        true
    } else {
        live(cs, x, adv, k - 1) && !(cs[k - 1] != '\n' && cursor(cs, x, adv, k - 1) >= 128)
    }
}

/// Glyph `g` placed with its top-left corner at `(cx, y)` has a set bit
/// at pixel `(i, j)`.
pub open spec fn glyph_covers(g: Seq<u8>, rows: int, cx: int, y: int, i: int, j: int) -> bool {
    &&& cx <= i < cx + g.len()
    &&& y <= j < y + rows
    &&& g[i - cx] & (1u8 << ((j - y) as u8)) != 0
}

/// Some of the first `k` characters of `cs` drawn from `(x, y)` covers
/// pixel `(i, j)`.
pub open spec fn ink(
    cs: Seq<char>,
    font: Seq<u8>,
    small: bool,
    gap: int,
    x: int,
    y: int,
    k: int,
    i: int,
    j: int,
) -> bool
    decreases k,
{
    if k <= 0 {
        false
    } else {
        ink(cs, font, small, gap, x, y, k - 1, i, j) || (live(cs, x, advance(small, gap), k)
            && cs[k - 1] != '\n' && glyph_covers(
            sized_glyph(font, small, cs[k - 1]),
            glyph_rows(small),
            cursor(cs, x, advance(small, gap), k - 1),
            y,
            i,
            j,
        ))
    }
}

/// `after` is `before` with the text `cs` drawn at `(x, y)`: covered pixels
/// become `lit`, all others keep their state.
pub open spec fn text_drawn(
    before: Seq<u8>,
    after: Seq<u8>,
    cs: Seq<char>,
    font: Seq<u8>,
    small: bool,
    gap: int,
    x: int,
    y: int,
    lit: bool,
) -> bool {
    &&& after.len() == 1024
    &&& forall|i: int, j: int|
        #![trigger pixel_on(after, i, j)]
        in_bounds(i, j) ==> pixel_on(after, i, j) == if ink(
            cs,
            font,
            small,
            gap,
            x,
            y,
            cs.len() as int,
            i,
            j,
        ) {
            lit
        } else {
            pixel_on(before, i, j)
        }
}

proof fn lemma_stopped(
    cs: Seq<char>,
    font: Seq<u8>,
    small: bool,
    gap: int,
    x: int,
    y: int,
    m: int,
    n: int,
    i: int,
    j: int,
)
    requires
        0 <= m <= n,
        !live(cs, x, advance(small, gap), m),
    ensures
        !live(cs, x, advance(small, gap), n),
        ink(cs, font, small, gap, x, y, n, i, j) == ink(cs, font, small, gap, x, y, m, i, j),
    decreases n - m,
{
    if n > m {
        lemma_stopped(cs, font, small, gap, x, y, m, n - 1, i, j);
    }
}

/// No character of `cs` is a line break.
pub open spec fn one_line(cs: Seq<char>) -> bool {
    forall|k: int| 0 <= k < cs.len() ==> cs[k] != '\n'
}

proof fn lemma_glyph_len(font: Seq<u8>, c: char)
    requires
        font.len() == 475,
    ensures
        glyph_of(font, c).len() == 5,
{
    assert(0 <= ascii_slot(c) < 95);
}

proof fn lemma_mul_pred(k: int, adv: int)
    by (nonlinear_arith)
    ensures
        (k - 1) * adv + adv == k * adv,
        adv >= 0 ==> (k - 1) * adv <= k * adv,
        k == 0 ==> k * adv == 0,
{
}

proof fn lemma_cursor_one_line(cs: Seq<char>, x: int, adv: int, k: int)
    requires
        one_line(cs),
        0 <= k <= cs.len(),
    ensures
        cursor(cs, x, adv, k) == x + k * adv,
    decreases k,
{
    if k > 0 {
        assert(cs[k - 1] != '\n');
        lemma_cursor_one_line(cs, x, adv, k - 1);
        lemma_mul_pred(k, adv);
    } else {
        lemma_mul_pred(k, adv);
    }
}

#[verifier::rlimit(60)]
proof fn lemma_live_one_line(cs: Seq<char>, x: int, adv: int, k: int)
    requires
        one_line(cs),
        0 < k <= cs.len(),
        adv >= 0,
    ensures
        live(cs, x, adv, k) == (x + (k - 1) * adv < 128),
    decreases k,
{
    lemma_cursor_one_line(cs, x, adv, k - 1);
    assert(cs[k - 1] != '\n');
    lemma_mul_pred(k - 1, adv);
    if k > 1 {
        lemma_live_one_line(cs, x, adv, k - 1);
    } else {
        assert(live(cs, x, adv, 0));
    }
}

#[verifier::rlimit(60)]
proof fn lemma_ink_box(cs: Seq<char>, font: Seq<u8>, x: int, y: int, k: int, i: int, j: int)
    requires
        font.len() == 475,
        one_line(cs),
        0 <= k <= cs.len(),
        ink(cs, font, false, 1, x, y, k, i, j),
    ensures
        x <= i < x + k * 6,
        y <= j < y + 7,
    decreases k,
{
    if ink(cs, font, false, 1, x, y, k - 1, i, j) {
        lemma_ink_box(cs, font, x, y, k - 1, i, j);
    } else {
        lemma_cursor_one_line(cs, x, 6, k - 1);
        lemma_glyph_len(font, cs[k - 1]);
        let g = glyph_of(font, cs[k - 1]);
        assert(glyph_covers(g, 7, x + (k - 1) * 6, y, i, j));
    }
}

/// Drawing text only lights pixels: after `draw_text` a pixel is lit exactly
/// when it was lit before or the same text drawn at the same place on a
/// dark picture lights it. Text without a line break lights nothing outside
/// its box of `6 * len` columns from `x` and 7 rows from `y`.
pub proof fn law_draw_text_lights_glyphs(
    before: Seq<u8>,
    after: Seq<u8>,
    dark: Seq<u8>,
    alone: Seq<u8>,
    cs: Seq<char>,
    font: Seq<u8>,
    x: int,
    y: int,
)
    requires
        font.len() == 475,
        dark.len() == 1024,
        forall|k: int| 0 <= k < 1024 ==> dark[k] == 0,
        text_drawn(before, after, cs, font, false, 1, x, y, true),
        text_drawn(dark, alone, cs, font, false, 1, x, y, true),
    ensures
        forall|i: int, j: int|
            #![trigger pixel_on(after, i, j)]
            in_bounds(i, j) ==> pixel_on(after, i, j) == (pixel_on(before, i, j) || pixel_on(alone, i, j)),
        one_line(cs) ==> forall|i: int, j: int|
            #![trigger pixel_on(alone, i, j)]
            in_bounds(i, j) && pixel_on(alone, i, j) ==> x <= i < x + cs.len() * 6 && y <= j < y + 7,
{
    assert forall|i: int, j: int| #![trigger pixel_on(after, i, j)] in_bounds(i, j) implies pixel_on(
        after,
        i,
        j,
    ) == (pixel_on(before, i, j) || pixel_on(alone, i, j)) by {
        law_cleared_is_dark(dark, i, j);
        assert(pixel_on(alone, i, j) == ink(cs, font, false, 1, x, y, cs.len() as int, i, j));
    }
    if one_line(cs) {
        assert forall|i: int, j: int| #![trigger pixel_on(alone, i, j)] in_bounds(i, j) && pixel_on(
            alone,
            i,
            j,
        ) implies x <= i < x + cs.len() * 6 && y <= j < y + 7 by {
            law_cleared_is_dark(dark, i, j);
            lemma_ink_box(cs, font, x, y, cs.len() as int, i, j);
        }
    }
}

/// Inverted text only clears pixels: after `draw_text_inverted` a pixel is
/// lit exactly when it was lit before and `draw_text` of the same text at
/// the same place on a dark picture leaves it dark.
pub proof fn law_inverted_clears_glyphs(
    before: Seq<u8>,
    after: Seq<u8>,
    dark: Seq<u8>,
    alone: Seq<u8>,
    cs: Seq<char>,
    font: Seq<u8>,
    x: int,
    y: int,
)
    requires
        dark.len() == 1024,
        forall|k: int| 0 <= k < 1024 ==> dark[k] == 0,
        text_drawn(before, after, cs, font, false, 1, x, y, false),
        text_drawn(dark, alone, cs, font, false, 1, x, y, true),
    ensures
        forall|i: int, j: int|
            #![trigger pixel_on(after, i, j)]
            in_bounds(i, j) ==> pixel_on(after, i, j) == (pixel_on(before, i, j) && !pixel_on(alone, i, j)),
{
    assert forall|i: int, j: int| #![trigger pixel_on(after, i, j)] in_bounds(i, j) implies pixel_on(
        after,
        i,
        j,
    ) == (pixel_on(before, i, j) && !pixel_on(alone, i, j)) by {
        law_cleared_is_dark(dark, i, j);
        assert(pixel_on(alone, i, j) == ink(cs, font, false, 1, x, y, cs.len() as int, i, j));
    }
}

/// Step `k` of drawing `cs` one character at a time: `steps[k + 1]` is
/// `steps[k]` with character `k` drawn by `draw_text` at column `x + 5k`.
pub open spec fn char_step(steps: Seq<Seq<u8>>, cs: Seq<char>, font: Seq<u8>, x: int, y: int, k: int) -> bool {
    text_drawn(steps[k], steps[k + 1], seq![cs[k]], font, false, 1, x + k * 5, y, true)
}

#[verifier::rlimit(60)]
proof fn lemma_char_steps(
    steps: Seq<Seq<u8>>,
    cs: Seq<char>,
    font: Seq<u8>,
    x: int,
    y: int,
    k: int,
    i: int,
    j: int,
)
    requires
        one_line(cs),
        steps.len() == cs.len() + 1,
        forall|m: int| 0 <= m < cs.len() ==> #[trigger] char_step(steps, cs, font, x, y, m),
        0 <= k <= cs.len(),
        in_bounds(i, j),
    ensures
        pixel_on(steps[k], i, j) == (pixel_on(steps[0], i, j) || ink(cs, font, false, 0, x, y, k, i, j)),
    decreases k,
{
    if k > 0 {
        lemma_char_steps(steps, cs, font, x, y, k - 1, i, j);
        assert(char_step(steps, cs, font, x, y, k - 1));
        let xk = x + (k - 1) * 5;
        let single = seq![cs[k - 1]];
        lemma_cursor_one_line(cs, x, 5, k - 1);
        lemma_live_one_line(cs, x, 5, k);
        assert(single[0] == cs[k - 1]);
        assert(cs[k - 1] != '\n');
        assert(live(single, xk, 6, 0));
        assert(!ink(single, font, false, 1, xk, y, 0, i, j));
        assert(cursor(single, xk, 6, 0) == xk);
        assert(live(single, xk, 6, 1) == (xk < 128));
        assert(pixel_on(steps[k], i, j) == if ink(single, font, false, 1, xk, y, 1, i, j) {
            true
        } else {
            pixel_on(steps[k - 1], i, j)
        });
    }
}

/// Packed text draws the same glyphs as drawing each of its characters on
/// its own with `draw_text`, one after the other, `CHAR_WIDTH` columns
/// apart: for text without a line break, the picture after
/// `draw_text_packed` equals the one after those character steps.
pub proof fn law_packed_is_per_char(
    before: Seq<u8>,
    after: Seq<u8>,
    steps: Seq<Seq<u8>>,
    cs: Seq<char>,
    font: Seq<u8>,
    x: int,
    y: int,
)
    requires
        one_line(cs),
        text_drawn(before, after, cs, font, false, 0, x, y, true),
        steps.len() == cs.len() + 1,
        steps[0] == before,
        forall|k: int| 0 <= k < cs.len() ==> #[trigger] char_step(steps, cs, font, x, y, k),
    ensures
        forall|i: int, j: int|
            #![trigger pixel_on(after, i, j)]
            in_bounds(i, j) ==> pixel_on(after, i, j) == pixel_on(steps[cs.len() as int], i, j),
{
    assert forall|i: int, j: int| #![trigger pixel_on(after, i, j)] in_bounds(i, j) implies pixel_on(
        after,
        i,
        j,
    ) == pixel_on(steps[cs.len() as int], i, j) by {
        lemma_char_steps(steps, cs, font, x, y, cs.len() as int, i, j);
    }
}

/// Draws glyph `g` with its top-left corner at `(cx, y)`, setting each
/// covered pixel to `lit`.
fn draw_glyph(fb: &mut Framebuffer, cx: usize, y: usize, g: &[u8], rows: usize, lit: bool)
    requires
        old(fb)@.len() == 1024,
        cx < 128,
        rows <= 8,
        g@.len() <= 5,
    ensures
        final(fb)@.len() == 1024,
        forall|i: int, j: int|
            #![trigger pixel_on(final(fb)@, i, j)]
            in_bounds(i, j) ==> pixel_on(final(fb)@, i, j) == if glyph_covers(
                g@,
                rows as int,
                cx as int,
                y as int,
                i,
                j,
            ) {
                lit
            } else {
                pixel_on(old(fb)@, i, j)
            },
{
    let ghost start = fb@;
    let mut col: usize = 0;
    while col < g.len()
        invariant
            col <= g@.len() <= 5,
            cx < 128,
            rows <= 8,
            fb@.len() == 1024,
            forall|i: int, j: int|
                #![trigger pixel_on(fb@, i, j)]
                in_bounds(i, j) ==> pixel_on(fb@, i, j) == if i < cx + col && glyph_covers(
                    g@,
                    rows as int,
                    cx as int,
                    y as int,
                    i,
                    j,
                ) {
                    lit
                } else {
                    pixel_on(start, i, j)
                },
        decreases g@.len() - col,
    {
        let px = cx + col;
        let bits = g[col];
        let mut bit: usize = 0;
        while bit < rows
            invariant
                bit <= rows <= 8,
                col < g@.len() <= 5,
                px == cx + col,
                bits == g@[col as int],
                cx < 128,
                fb@.len() == 1024,
                forall|i: int, j: int|
                    #![trigger pixel_on(fb@, i, j)]
                    in_bounds(i, j) ==> pixel_on(fb@, i, j) == if (i < cx + col || (i == px && j
                        < y + bit)) && glyph_covers(g@, rows as int, cx as int, y as int, i, j) {
                        lit
                    } else {
                        pixel_on(start, i, j)
                    },
            decreases rows - bit,
        {
            let ghost before = fb@;
            if y < 64 - bit && px < 128 && bits & (1u8 << (bit as u8)) != 0 {
                fb.set_pixel(px, y + bit, lit);
            }
            assert forall|i: int, j: int|
                #![trigger pixel_on(fb@, i, j)]
                in_bounds(i, j) implies pixel_on(fb@, i, j) == if (i < cx + col || (i == px && j
                    < y + bit + 1)) && glyph_covers(g@, rows as int, cx as int, y as int, i, j) {
                    lit
                } else {
                    pixel_on(start, i, j)
                } by {
                if !(i == px && j == y + bit) {
                    assert(pixel_on(fb@, i, j) == pixel_on(before, i, j));
                } else {
                    assert(((j - y) as u8) == bit as u8);
                }
            }
            bit = bit + 1;
        }
        col = col + 1;
    }
}

/// Draws `cs` from `(x, y)` with glyphs of `font` (or the small font) and a
/// gap of `gap` columns between characters; covered pixels become `lit`.
#[verifier::rlimit(50)]
pub fn draw_chars(
    fb: &mut Framebuffer,
    font: &[u8; 475],
    x: usize,
    y: usize,
    cs: &[char],
    gap: usize,
    lit: bool,
    small: bool,
)
    requires
        old(fb)@.len() == 1024,
        gap <= usize::MAX - 133,
    ensures
        text_drawn(old(fb)@, final(fb)@, cs@, font@, small, gap as int, x as int, y as int, lit),
{
    let ghost start = fb@;
    let ghost adv = advance(small, gap as int);
    let char_w = if small {
        font::CHAR_WIDTH_SMALL
    } else {
        font::CHAR_WIDTH
    };
    let char_h = if small {
        font::CHAR_HEIGHT_SMALL
    } else {
        font::CHAR_HEIGHT
    };
    let mut cx = x;
    let mut k: usize = 0;
    let mut stopped = false;
    while k < cs.len() && !stopped
        invariant
            k <= cs@.len(),
            gap <= usize::MAX - 133,
            char_w + gap == adv,
            adv == advance(small, gap as int),
            char_w <= 5,
            char_h == glyph_rows(small),
            fb@.len() == 1024,
            !stopped ==> cx == cursor(cs@, x as int, adv, k as int),
            !stopped ==> live(cs@, x as int, adv, k as int),
            stopped ==> !live(cs@, x as int, adv, k as int),
            forall|i: int, j: int|
                #![trigger pixel_on(fb@, i, j)]
                in_bounds(i, j) ==> pixel_on(fb@, i, j) == if ink(
                    cs@,
                    font@,
                    small,
                    gap as int,
                    x as int,
                    y as int,
                    k as int,
                    i,
                    j,
                ) {
                    lit
                } else {
                    pixel_on(start, i, j)
                },
        decreases cs@.len() - k,
    {
        let ch = cs[k];
        let ghost before = fb@;
        let ghost kk = k as int;
        if ch == '\n' {
            cx = x;
            k = k + 1;
            proof {
                assert forall|i: int, j: int|
                    ink(cs@, font@, small, gap as int, x as int, y as int, kk + 1, i, j) == ink(
                        cs@,
                        font@,
                        small,
                        gap as int,
                        x as int,
                        y as int,
                        kk,
                        i,
                        j,
                    ) by {}
            }
        } else if cx >= 128 {
            stopped = true;
            k = k + 1;
            proof {
                assert forall|i: int, j: int|
                    ink(cs@, font@, small, gap as int, x as int, y as int, kk + 1, i, j) == ink(
                        cs@,
                        font@,
                        small,
                        gap as int,
                        x as int,
                        y as int,
                        kk,
                        i,
                        j,
                    ) by {}
            }
        } else {
            let ghost gl = sized_glyph(font@, small, ch);
            if small {
                let g = font::glyph_small(ch);
                draw_glyph(fb, cx, y, &g, char_h, lit);
            } else {
                let g = font::glyph(font, ch);
                draw_glyph(fb, cx, y, &g, char_h, lit);
            }
            proof {
                assert forall|i: int, j: int|
                    #![trigger pixel_on(fb@, i, j)]
                    in_bounds(i, j) implies pixel_on(fb@, i, j) == if ink(
                        cs@,
                        font@,
                        small,
                        gap as int,
                        x as int,
                        y as int,
                        kk + 1,
                        i,
                        j,
                    ) {
                        lit
                    } else {
                        pixel_on(start, i, j)
                    } by {
                    assert(ink(cs@, font@, small, gap as int, x as int, y as int, kk + 1, i, j) == (
                    ink(cs@, font@, small, gap as int, x as int, y as int, kk, i, j)
                        || glyph_covers(gl, char_h as int, cx as int, y as int, i, j)));
                    assert(pixel_on(before, i, j) == if ink(
                        cs@,
                        font@,
                        small,
                        gap as int,
                        x as int,
                        y as int,
                        kk,
                        i,
                        j,
                    ) {
                        lit
                    } else {
                        pixel_on(start, i, j)
                    });
                }
            }
            cx = cx + char_w + gap;
            k = k + 1;
        }
    }
    proof {
        if stopped {
            assert forall|i: int, j: int|
                #![trigger pixel_on(fb@, i, j)]
                in_bounds(i, j) implies pixel_on(fb@, i, j) == if ink(
                    cs@,
                    font@,
                    small,
                    gap as int,
                    x as int,
                    y as int,
                    cs@.len() as int,
                    i,
                    j,
                ) {
                    lit
                } else {
                    pixel_on(start, i, j)
                } by {
                lemma_stopped(
                    cs@,
                    font@,
                    small,
                    gap as int,
                    x as int,
                    y as int,
                    k as int,
                    cs@.len() as int,
                    i,
                    j,
                );
            }
        }
    }
}

/// Draws `text` from `(x, y)` with glyphs of `font` (or the small font) and
/// a gap of `gap` columns between characters; covered pixels become `lit`.
pub fn draw_impl(
    fb: &mut Framebuffer,
    font: &[u8; 475],
    x: usize,
    y: usize,
    text: &str,
    gap: usize,
    lit: bool,
    small: bool,
)
    requires
        old(fb)@.len() == 1024,
        gap <= usize::MAX - 133,
    ensures
        text_drawn(old(fb)@, final(fb)@, text@, font@, small, gap as int, x as int, y as int, lit),
{
    let cs = str_chars(text);
    draw_chars(fb, font, x, y, &cs, gap, lit, small);
}

/// Standard font `font`, one column between characters, pixels lit.
pub fn draw_text(fb: &mut Framebuffer, font: &[u8; 475], x: usize, y: usize, text: &str)
    requires
        old(fb)@.len() == 1024,
    ensures
        text_drawn(old(fb)@, final(fb)@, text@, font@, false, 1, x as int, y as int, true),
{
    draw_impl(fb, font, x, y, text, 1, true, false);
}

/// Standard font `font`, no gap between characters, pixels lit.
pub fn draw_text_packed(fb: &mut Framebuffer, font: &[u8; 475], x: usize, y: usize, text: &str)
    requires
        old(fb)@.len() == 1024,
    ensures
        text_drawn(old(fb)@, final(fb)@, text@, font@, false, 0, x as int, y as int, true),
{
    draw_impl(fb, font, x, y, text, 0, true, false);
}

/// Standard font `font`, one column between characters, glyph pixels cleared.
pub fn draw_text_inverted(fb: &mut Framebuffer, font: &[u8; 475], x: usize, y: usize, text: &str)
    requires
        old(fb)@.len() == 1024,
    ensures
        text_drawn(old(fb)@, final(fb)@, text@, font@, false, 1, x as int, y as int, false),
{
    draw_impl(fb, font, x, y, text, 1, false, false);
}

/// Small font, one column between characters, pixels lit.
pub fn draw_small(fb: &mut Framebuffer, x: usize, y: usize, text: &str)
    requires
        old(fb)@.len() == 1024,
    ensures
        text_drawn(old(fb)@, final(fb)@, text@, FALLBACK_FONT_DATA@, true, 1, x as int, y as int, true),
{
    draw_impl(fb, &FALLBACK_FONT_DATA, x, y, text, 1, true, true);
}

/// Small font, no gap between characters, pixels lit.
pub fn draw_small_packed(fb: &mut Framebuffer, x: usize, y: usize, text: &str)
    requires
        old(fb)@.len() == 1024,
    ensures
        text_drawn(old(fb)@, final(fb)@, text@, FALLBACK_FONT_DATA@, true, 0, x as int, y as int, true),
{
    draw_impl(fb, &FALLBACK_FONT_DATA, x, y, text, 0, true, true);
}

/// Width in pixels of `text` in the standard font with `gap` columns per character.
pub fn text_width(text: &str, gap: usize) -> (r: usize)
    requires
        gap <= usize::MAX - 5,
        text@.len() * (5 + gap) <= usize::MAX,
    ensures
        r == text@.len() * (5 + gap),
{
    let n = str_chars(text).len();
    let w = 5 + gap;
    assert(n * w == text@.len() * (5 + gap));
    n * w
}

/// Width in pixels of `text` in the small font with `gap` columns per character.
pub fn text_width_small(text: &str, gap: usize) -> (r: usize)
    requires
        gap <= usize::MAX - 4,
        text@.len() * (4 + gap) <= usize::MAX,
    ensures
        r == text@.len() * (4 + gap),
{
    let n = str_chars(text).len();
    let w = 4 + gap;
    assert(n * w == text@.len() * (4 + gap));
    n * w
}

/// Decimal rendering of a signed value.
pub open spec fn signed_dec(v: int) -> Seq<char> {
    if v < 0 {
        seq!['-'] + dec((-v) as nat)
    } else {
        dec(v as nat)
    }
}

/// Draws `value` in the standard font `font` so that its text ends at
/// `x_right` (6 columns per character; starts at column 0 when it does not
/// fit).
#[verifier::rlimit(60)]
pub fn draw_int_right(fb: &mut Framebuffer, font: &[u8; 475], x_right: usize, y: usize, value: i32)
    requires
        old(fb)@.len() == 1024,
    ensures
        ({
            let t = signed_dec(value as int);
            let w = t.len() * 6;
            let x = if x_right >= w {
                x_right - w
            } else {
                0
            };
            text_drawn(old(fb)@, final(fb)@, t, font@, false, 1, x, y as int, true)
        }),
{
    let mut t: Vec<char> = Vec::new();
    if value < 0 {
        t.push('-');
        let mag = (0i64 - value as i64) as u64;
        push_dec(&mut t, mag);
    } else {
        push_dec(&mut t, value as u64);
    }
    proof {
        assert(t@ =~= signed_dec(value as int));
        let m: nat = (if value < 0 { -(value as int) } else { value as int }) as nat;
        assert(pow10(10) == 10_000_000_000nat) by {
            reveal_with_fuel(pow10, 11);
        }
        lemma_dec_len_pow(m, 10);
    }
    assert(t@.len() <= 11);
    assert(t.len() * 6 <= 66) by (nonlinear_arith)
        requires
            t.len() <= 11,
    ;
    let w = t.len() * 6;
    draw_chars(fb, font, x_right.saturating_sub(w), y, &t, 1, true, false);
}

} // verus!
