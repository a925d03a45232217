//! Screen composition: the boot and shutdown screen, and the main screen
//! (pet sprite with blinking eyes, dividers, metrics panel, status bar).
//!
//! Order matters on the main screen: the sprite writes dark pixels too, so
//! it is drawn first and everything else over it.

use vstd::prelude::*;

use crate::display::framebuffer::{in_bounds, law_cleared_is_dark, pixel_on, sprite_bit, Framebuffer};
use crate::notify::{shown, polled, Notifier};
use crate::renderer::canvas::{draw_rect, fill_rect, fill_region, hrun_region, rect_region};
use crate::renderer::text::{draw_chars, draw_text, draw_text_packed, ink};
use crate::ui::fmt::{
    clock_text, disk_text, fmt_clock, fmt_disk, fmt_ram, fmt_uptime, lemma_status_texts_short,
    ram_text, uptime_text,
};
use crate::ui::layout::{layout, screen_layout, Rect};
use crate::ui::widget::{
    bar_pixel, both, column_region, draw_dividers, progress_bar, sat_sub, status_bar,
    status_bar_pixel,
};
use crate::utils::number::{dec, push_dec};
use vstd::utf8::encode_utf8;

verus! {

/// Width of the boot and shutdown progress bar.
pub const BAR_W: usize = 80;
/// Height of the boot and shutdown progress bar.
pub const BAR_H: usize = 6;
/// Left edge of the boot and shutdown progress bar.
pub const BAR_X: usize = 20;
/// Top edge of the boot and shutdown progress bar.
pub const BAR_Y: usize = 34;
/// Columns between the bar and its percentage.
pub const BAR_PCT_GAP: usize = 3;
/// Status-bar frames that each of uptime and clock stays on screen.
pub const STATUS_TOGGLE: u64 = 4;
/// Width of the box blanked around an eye, before its margin.
pub const EYE_BOX_W: usize = 6;
/// Height of the box blanked around an eye, before its margin.
pub const EYE_BOX_H: usize = 3;

/// Pixel `(i, j)` after drawing `cs` lit in the standard font `font` with
/// `gap` columns between characters from `(x, y)` over a picture in which
/// it was `prev`.
pub open spec fn text_pixel(
    prev: bool,
    font: Seq<u8>,
    cs: Seq<char>,
    gap: int,
    x: int,
    y: int,
    i: int,
    j: int,
) -> bool {
    if ink(cs, font, false, gap, x, y, cs.len() as int, i, j) {
        true
    } else {
        prev
    }
}

/// Column at which a text of `bytes` bytes is centred (6 columns per byte).
pub open spec fn centered_x(bytes: int) -> int {
    sat_sub(128, bytes * 6) / 2
}

/// Filled columns of the boot bar at `progress` percent (at most 100).
pub open spec fn progress_fill(progress: u8) -> int {
    78 * (if progress > 100 {
        100int
    } else {
        progress as int
    }) / 100
}

/// `"<progress>%"`.
pub open spec fn percent_text(progress: u8) -> Seq<char> {
    dec(progress as nat) + seq!['%']
}

/// Pixel `(i, j)` of the boot or shutdown screen: title, bar outline, bar
/// fill, percentage and label, on a cleared screen.
pub open spec fn centered_screen_pixel(
    font: Seq<u8>,
    title: Seq<char>,
    title_bytes: int,
    progress: u8,
    label: Seq<char>,
    label_bytes: int,
    i: int,
    j: int,
) -> bool {
    text_pixel(
        text_pixel(
            fill_region(21, 35, progress_fill(progress), 4)(i, j) || rect_region(20, 34, 80, 6)(i, j)
                || text_pixel(false, font, title, 1, centered_x(title_bytes), 18, i, j),
            font,
            percent_text(progress),
            1,
            103,
            34,
            i,
            j,
        ),
        font,
        label,
        1,
        centered_x(label_bytes),
        44,
        i,
        j,
    )
}

/// Boot or shutdown screen: the title centred on row 18, a progress bar
/// filled to `progress` percent (at most 100) with the percentage right of
/// it, and the label centred on row 44, all in the standard font `font`.
/// Centring counts 6 columns per byte of text.
pub fn draw_centered_screen(fb: &mut Framebuffer, font: &[u8; 475], title: &str, progress: u8, label: &str)
    requires
        old(fb)@.len() == 1024,
        title.len() * 6 <= usize::MAX,
        label.len() * 6 <= usize::MAX,
    ensures
        final(fb)@.len() == 1024,
        forall|i: int, j: int|
            #![trigger pixel_on(final(fb)@, i, j)]
            in_bounds(i, j) ==> pixel_on(final(fb)@, i, j) == centered_screen_pixel(
                font@,
                title@,
                title.len() as int,
                progress,
                label@,
                label.len() as int,
                i,
                j,
            ),
{
    fb.clear();
    let ghost blank = fb@;
    let title_w = title.len() * 6;
    let title_x = 128usize.saturating_sub(title_w) / 2;
    draw_text(fb, font, title_x, 18, title);
    let ghost s1 = fb@;
    draw_rect(fb, BAR_X, BAR_Y, BAR_W, BAR_H);
    let ghost s2 = fb@;
    let p: u32 = if progress < 100 {
        progress as u32
    } else {
        100
    };
    let fill = ((BAR_W - 2) as u32 * p / 100) as usize;
    if fill > 0 {
        fill_rect(fb, BAR_X + 1, BAR_Y + 1, fill, BAR_H - 2);
    }
    let ghost s3 = fb@;
    let mut pct: Vec<char> = Vec::new();
    push_dec(&mut pct, progress as u64);
    pct.push('%');
    proof {
        assert(pct@ =~= percent_text(progress));
    }
    draw_chars(fb, font, BAR_X + BAR_W + BAR_PCT_GAP, BAR_Y, pct.as_slice(), 1, true, false);
    let ghost s4 = fb@;
    let label_w = label.len() * 6;
    let label_x = 128usize.saturating_sub(label_w) / 2;
    draw_text(fb, font, label_x, 44, label);
    proof {
        assert forall|i: int, j: int| #![trigger pixel_on(fb@, i, j)] in_bounds(i, j) implies pixel_on(
            fb@,
            i,
            j,
        ) == centered_screen_pixel(
            font@,
            title@,
            title.len() as int,
            progress,
            label@,
            label.len() as int,
            i,
            j,
        ) by {
            law_cleared_is_dark(blank, i, j);
            assert(pixel_on(s1, i, j) == text_pixel(false, font@, title@, 1, title_x as int, 18, i, j));
            assert(pixel_on(s2, i, j) == (rect_region(20, 34, 80, 6)(i, j) || pixel_on(s1, i, j)));
            assert(pixel_on(s3, i, j) == (fill_region(21, 35, fill as int, 4)(i, j) || pixel_on(
                s2,
                i,
                j,
            )));
            assert(pixel_on(s4, i, j) == text_pixel(pixel_on(s3, i, j), font@, pct@, 1, 103, 34, i, j));
        }
    }
}

/// The text on the right of the status bar: the uptime for four status
/// frames, then the clock for four (a status frame is four display frames).
pub open spec fn status_right(cycle: u64, uptime_secs: u64, clock: Option<(u32, u32)>) -> Seq<char> {
    if (cycle / 4) % 8 < 4 {
        uptime_text(uptime_secs as nat)
    } else {
        clock_text(clock)
    }
}

/// The message of a notifier at `now`, or the empty text.
pub open spec fn shown_text(m: Option<Seq<char>>) -> Seq<char> {
    match m {
        Some(s) => s,
        None => seq![],
    }
}

/// Status bar of the main screen: the current notification on the left
/// and, alternating every four status frames, the uptime or the local
/// clock on the right, in the standard font `font`. Asking the notifier
/// drops an expired message.
pub fn render_status(
    fb: &mut Framebuffer,
    font: &[u8; 475],
    uptime_secs: u64,
    notifier: &mut Notifier,
    cycle: u64,
    now: u64,
    clock: Option<(u32, u32)>,
)
    requires
        old(fb)@.len() == 1024,
        old(notifier)@.current matches Some(m) ==> m.len() * 6 + 300 <= usize::MAX,
    ensures
        final(notifier)@ == polled(old(notifier)@, now),
        final(fb)@.len() == 1024,
        forall|i: int, j: int|
            #![trigger pixel_on(final(fb)@, i, j)]
            in_bounds(i, j) ==> pixel_on(final(fb)@, i, j) == status_bar_pixel(
                pixel_on(old(fb)@, i, j),
                font@,
                screen_layout().status,
                shown_text(shown(old(notifier)@, now)),
                status_right(cycle, uptime_secs, clock),
                i,
                j,
            ),
{
    let mc = cycle / 4;
    let right = if mc % (STATUS_TOGGLE * 2) < STATUS_TOGGLE {
        fmt_uptime(uptime_secs)
    } else {
        fmt_clock(clock)
    };
    let left: &str = match notifier.current(now) {
        Some(s) => s,
        None => "",
    };
    proof {
        reveal_strlit("");
        lemma_status_texts_short(uptime_secs, clock);
        assert(left@ == shown_text(shown(old(notifier)@, now)));
        assert(right@ == status_right(cycle, uptime_secs, clock));
    }
    let l = layout();
    status_bar(fb, font, &l.status, left, right.as_str());
}

/// Pet sprite: the 64x64 bitmap (rows of 8 bytes, most significant bit
/// leftmost) and the top-left pixels of its eyes.
pub struct PetSprite {
    pub bitmap: [u8; 512],
    pub eye_l_x: usize,
    pub eye_l_y: usize,
    pub eye_r_x: usize,
    pub eye_r_y: usize,
}

/// The pet blinks on frame `cycle`: every `interval` frames (only on frame
/// 0 when the interval is 0).
pub open spec fn blinking(cycle: u64, interval: u64) -> bool {
    if interval == 0 {
        cycle == 0
    } else {
        cycle % interval == 0
    }
}

/// `min(a, b)`.
pub open spec fn min_int(a: int, b: int) -> int {
    if a < b {
        a
    } else {
        b
    }
}

/// Row of the closed-eye slit: two thirds down the blanked box of the
/// left eye.
pub open spec fn slit_row(eye_l_y: int) -> int {
    min_int(sat_sub(eye_l_y + 8, 3), 63)
}

/// Pixel `(i, j)` after closing the eye at `(ex, ey)` over a picture in
/// which it was `prev`: a lit box of 12x8 pixels around the eye (3 pixels
/// of margin), with two dark slit rows across it.
pub open spec fn eye_pixel(prev: bool, ex: int, ey: int, slit: int, i: int, j: int) -> bool {
    let x0 = sat_sub(ex, 3);
    let y0 = sat_sub(ey, 3);
    let in_slit = x0 + 1 <= i < min_int(sat_sub(x0 + 12, 1), 128) && (j == min_int(slit, 63) || j
        == min_int(slit + 1, 63));
    let in_box = x0 <= i < min_int(ex + 12, 128) && y0 <= j < min_int(ey + 8, 64);
    if in_slit {
        false
    } else if in_box {
        true
    } else {
        prev
    }
}

/// Pixel `(i, j)` after drawing the pet over a picture in which it was
/// `prev`: the sprite over the left 64 columns, then, on a blink frame,
/// both eyes closed.
pub open spec fn pet_pixel(prev: bool, sprite: PetSprite, blink: bool, i: int, j: int) -> bool {
    let s = if i < 64 {
        sprite_bit(sprite.bitmap@, i, j)
    } else {
        prev
    };
    if blink {
        let slit = slit_row(sprite.eye_l_y as int);
        eye_pixel(
            eye_pixel(s, sprite.eye_l_x as int, sprite.eye_l_y as int, slit, i, j),
            sprite.eye_r_x as int,
            sprite.eye_r_y as int,
            slit,
            i,
            j,
        )
    } else {
        s
    }
}

fn fill_box(fb: &mut Framebuffer, x0: usize, x1: usize, y0: usize, y1: usize, on: bool)
    requires
        old(fb)@.len() == 1024,
    ensures
        final(fb)@.len() == 1024,
        forall|i: int, j: int|
            #![trigger pixel_on(final(fb)@, i, j)]
            in_bounds(i, j) ==> pixel_on(final(fb)@, i, j) == if x0 <= i < x1 && y0 <= j < y1 {
                on
            } else {
                pixel_on(old(fb)@, i, j)
            },
{
    let ghost start = fb@;
    let mut y: usize = y0;
    while y < y1
        invariant
            y0 <= y,
            y <= y1 || y == y0,
            fb@.len() == 1024,
            forall|i: int, j: int|
                #![trigger pixel_on(fb@, i, j)]
                in_bounds(i, j) ==> pixel_on(fb@, i, j) == if x0 <= i < x1 && y0 <= j < y {
                    on
                } else {
                    pixel_on(start, i, j)
                },
        decreases y1 - y,
    {
        let mut x: usize = x0;
        while x < x1
            invariant
                x0 <= x,
                x <= x1 || x == x0,
                y0 <= y < y1,
                fb@.len() == 1024,
                forall|i: int, j: int|
                    #![trigger pixel_on(fb@, i, j)]
                    in_bounds(i, j) ==> pixel_on(fb@, i, j) == if x0 <= i < x1 && (y0 <= j < y || (
                    j == y && i < x)) {
                        on
                    } else {
                        pixel_on(start, i, j)
                    },
            decreases x1 - x,
        {
            let ghost before = fb@;
            fb.set_pixel(x, y, on);
            proof {
                assert forall|i: int, j: int| #![trigger pixel_on(fb@, i, j)] in_bounds(i, j) implies pixel_on(
                    fb@,
                    i,
                    j,
                ) == if x0 <= i < x1 && (y0 <= j < y || (j == y && i < x + 1)) {
                    on
                } else {
                    pixel_on(start, i, j)
                } by {
                    if !(i == x as int && j == y as int) {
                        assert(pixel_on(before, i, j) == pixel_on(fb@, i, j));
                    }
                }
            }
            x = x + 1;
        }
        y = y + 1;
    }
}

fn close_eye(fb: &mut Framebuffer, ex: usize, ey: usize, slit: usize)
    requires
        old(fb)@.len() == 1024,
        ex + 12 <= usize::MAX,
        ey + 8 <= usize::MAX,
        slit <= 63,
    ensures
        final(fb)@.len() == 1024,
        forall|i: int, j: int|
            #![trigger pixel_on(final(fb)@, i, j)]
            in_bounds(i, j) ==> pixel_on(final(fb)@, i, j) == eye_pixel(
                pixel_on(old(fb)@, i, j),
                ex as int,
                ey as int,
                slit as int,
                i,
                j,
            ),
{
    let ghost start = fb@;
    let m: usize = 3;
    let ew = EYE_BOX_W + m * 2;
    let eh = EYE_BOX_H + m + 2;
    let x0 = ex.saturating_sub(m);
    let y0 = ey.saturating_sub(m);
    let bot = if ey + eh < 64 {
        ey + eh
    } else {
        64
    };
    let right = if ex + ew < 128 {
        ex + ew
    } else {
        128
    };
    fill_box(fb, x0, right, y0, bot, true);
    let ghost boxed = fb@;
    let slit_end = if (x0 + ew).saturating_sub(1) < 128 {
        (x0 + ew).saturating_sub(1)
    } else {
        128
    };
    let sy1 = if slit + 1 < 63 {
        slit + 1
    } else {
        63
    };
    fill_box(fb, x0 + 1, slit_end, slit, slit + 1, false);
    let ghost first = fb@;
    fill_box(fb, x0 + 1, slit_end, sy1, sy1 + 1, false);
    proof {
        assert forall|i: int, j: int| #![trigger pixel_on(fb@, i, j)] in_bounds(i, j) implies pixel_on(
            fb@,
            i,
            j,
        ) == eye_pixel(pixel_on(start, i, j), ex as int, ey as int, slit as int, i, j) by {
            assert(pixel_on(boxed, i, j) == if x0 <= i < right && y0 <= j < bot {
                true
            } else {
                pixel_on(start, i, j)
            });
            assert(pixel_on(first, i, j) == if x0 + 1 <= i < slit_end && j == slit {
                false
            } else {
                pixel_on(boxed, i, j)
            });
        }
    }
}

/// Pet area: the sprite, with both eyes closed on blink frames (every
/// `blink_interval` frames).
pub fn render_pet(fb: &mut Framebuffer, sprite: &PetSprite, cycle: u64, blink_interval: u64)
    requires
        old(fb)@.len() == 1024,
        sprite.eye_l_x + 12 <= usize::MAX,
        sprite.eye_l_y + 8 <= usize::MAX,
        sprite.eye_r_x + 12 <= usize::MAX,
        sprite.eye_r_y + 8 <= usize::MAX,
    ensures
        final(fb)@.len() == 1024,
        forall|i: int, j: int|
            #![trigger pixel_on(final(fb)@, i, j)]
            in_bounds(i, j) ==> pixel_on(final(fb)@, i, j) == pet_pixel(
                pixel_on(old(fb)@, i, j),
                *sprite,
                blinking(cycle, blink_interval),
                i,
                j,
            ),
{
    let ghost start = fb@;
    fb.draw_sprite(&sprite.bitmap);
    let ghost drawn = fb@;
    let blink = if blink_interval == 0 {
        cycle == 0
    } else {
        cycle % blink_interval == 0
    };
    if blink {
        let eh = EYE_BOX_H + 3 + 2;
        let s = (sprite.eye_l_y + eh).saturating_sub(eh / 3 + 1);
        let slit = if s < 63 {
            s
        } else {
            63
        };
        close_eye(fb, sprite.eye_l_x, sprite.eye_l_y, slit);
        let ghost left = fb@;
        close_eye(fb, sprite.eye_r_x, sprite.eye_r_y, slit);
        proof {
            assert forall|i: int, j: int| #![trigger pixel_on(fb@, i, j)] in_bounds(i, j) implies pixel_on(
                fb@,
                i,
                j,
            ) == pet_pixel(pixel_on(start, i, j), *sprite, true, i, j) by {
                assert(pixel_on(left, i, j) == eye_pixel(
                    pixel_on(drawn, i, j),
                    sprite.eye_l_x as int,
                    sprite.eye_l_y as int,
                    slit as int,
                    i,
                    j,
                ));
            }
        }
    }
}

/// Pixels of the per-core bars: on rows 52 to 55 of the pet area, core
/// `k` lights `fills[k]` columns from column 2.
pub open spec fn core_bars_region(fills: Seq<usize>) -> spec_fn(int, int) -> bool {
    |i: int, j: int| 52 <= j < 56 && 2 <= i < 2 + fills[j - 52]
}

/// Per-core load bars at the bottom of the pet area: one row per core,
/// `fills[k]` pixels wide (at most 52, a full bar).
pub fn render_percore_bars(fb: &mut Framebuffer, fills: &[usize; 4])
    requires
        old(fb)@.len() == 1024,
        forall|k: int| 0 <= k < 4 ==> fills@[k] <= 52,
    ensures
        final(fb)@.len() == 1024,
        forall|i: int, j: int|
            #![trigger pixel_on(final(fb)@, i, j)]
            in_bounds(i, j) ==> pixel_on(final(fb)@, i, j) == (core_bars_region(fills@)(i, j)
                || pixel_on(old(fb)@, i, j)),
{
    let ghost start = fb@;
    let pet = layout().pet;
    let bar_y = pet.bottom() - 4;
    let bar_x: usize = 2;
    let mut k: usize = 0;
    while k < 4
        invariant
            k <= 4,
            bar_y == 52,
            bar_x == 2,
            fb@.len() == 1024,
            forall|m: int| 0 <= m < 4 ==> fills@[m] <= 52,
            forall|i: int, j: int|
                #![trigger pixel_on(fb@, i, j)]
                in_bounds(i, j) ==> pixel_on(fb@, i, j) == ((j < 52 + k && core_bars_region(fills@)(
                    i,
                    j,
                )) || pixel_on(start, i, j)),
        decreases 4 - k,
    {
        let y = bar_y + k;
        let fill = fills[k];
        let ghost before = fb@;
        if fill > 0 {
            fill_rect(fb, bar_x, y, fill, 1);
        }
        proof {
            assert forall|i: int, j: int| #![trigger pixel_on(fb@, i, j)] in_bounds(i, j) implies pixel_on(
                fb@,
                i,
                j,
            ) == ((j < 52 + k + 1 && core_bars_region(fills@)(i, j)) || pixel_on(start, i, j)) by {
                assert(pixel_on(before, i, j) == ((j < 52 + k && core_bars_region(fills@)(i, j))
                    || pixel_on(start, i, j)));
            }
        }
        k = k + 1;
    }
}

/// What the metrics panel shows. The rows with fractional values, the CPU
/// percentage and the bar fills are formatted by the caller; the memory
/// and disk rows are formatted here from their raw figures.
pub struct MetricRows {
    /// The monitor's own memory and CPU use.
    pub self_row: String,
    /// CPU temperature and frequency.
    pub cpu_row: String,
    /// CPU load as a percentage, right of the CPU bar.
    pub cpu_pct: String,
    /// Filled columns of the CPU bar (at most its inner width).
    pub cpu_fill: usize,
    pub mem_used_kb: u64,
    pub mem_total_kb: u64,
    /// Used and total bytes of the root file system.
    pub disk_used: u64,
    pub disk_total: u64,
    /// Threads and network rates.
    pub net_row: String,
    /// Filled columns of each core's bar (at most 52).
    pub core_fills: [usize; 4],
}

/// Width of the CPU bar: what is left of the 70-column panel after the
/// percentage (5 columns per byte) and one blank column.
pub open spec fn cpu_bar_w(pct_bytes: int) -> int {
    sat_sub(70, pct_bytes * 5 + 1)
}

/// Width of the CPU bar next to the percentage text `cpu_pct`.
pub fn cpu_bar_width(cpu_pct: &str) -> (r: usize)
    requires
        cpu_pct.len() * 5 + 1 <= usize::MAX,
    ensures
        r == cpu_bar_w(cpu_pct.len() as int),
{
    let pct_px = cpu_pct.len() * 5;
    70usize.saturating_sub(pct_px + 1)
}

/// Pixel `(i, j)` after drawing the metrics panel over a picture in which
/// it was `prev`: own process, CPU temperature, CPU bar and percentage,
/// memory, disk, threads and network, then the per-core bars.
pub open spec fn metrics_pixel(prev: bool, font: Seq<u8>, rows: MetricRows, i: int, j: int) -> bool {
    let bw = cpu_bar_w(encode_utf8(rows.cpu_pct@).len() as int);
    let p1 = text_pixel(prev, font, rows.self_row@, 0, 58, 0, i, j);
    let p2 = text_pixel(p1, font, rows.cpu_row@, 0, 58, 10, i, j);
    let p3 = bar_pixel(p2, 58, 19, bw, 5, rows.cpu_fill as int, i, j);
    let p4 = text_pixel(p3, font, rows.cpu_pct@, 0, 58 + bw + 1, 18, i, j);
    let p5 = text_pixel(
        p4,
        font,
        ram_text(rows.mem_used_kb as nat, rows.mem_total_kb as nat),
        0,
        58,
        28,
        i,
        j,
    );
    let p6 = text_pixel(
        p5,
        font,
        disk_text(rows.disk_used as nat, rows.disk_total as nat),
        0,
        58,
        36,
        i,
        j,
    );
    let p7 = text_pixel(p6, font, rows.net_row@, 0, 58, 46, i, j);
    core_bars_region(rows.core_fills@)(i, j) || p7
}

/// Metrics panel: rows of 8 pixels, with 2 blank pixels between groups
/// (own process | CPU temperature and bar | memory and disk | network),
/// texts in the standard font `font`.
pub fn render_metrics(fb: &mut Framebuffer, font: &[u8; 475], rows: &MetricRows)
    requires
        old(fb)@.len() == 1024,
        encode_utf8(rows.cpu_pct@).len() * 5 + 1 <= usize::MAX,
        cpu_bar_w(encode_utf8(rows.cpu_pct@).len() as int) >= 3 ==> rows.cpu_fill <= cpu_bar_w(
            encode_utf8(rows.cpu_pct@).len() as int,
        ) - 2,
        forall|k: int| 0 <= k < 4 ==> rows.core_fills@[k] <= 52,
    ensures
        final(fb)@.len() == 1024,
        forall|i: int, j: int|
            #![trigger pixel_on(final(fb)@, i, j)]
            in_bounds(i, j) ==> pixel_on(final(fb)@, i, j) == metrics_pixel(
                pixel_on(old(fb)@, i, j),
                font@,
                *rows,
                i,
                j,
            ),
{
    let ghost s0 = fb@;
    let area = layout().metrics;
    let x = area.x;
    let w = area.w;
    let mut y = area.y;
    draw_text_packed(fb, font, x, y, rows.self_row.as_str());
    let ghost s1 = fb@;
    y = y + 8 + 2;
    draw_text_packed(fb, font, x, y, rows.cpu_row.as_str());
    let ghost s2 = fb@;
    y = y + 8;
    let pct = rows.cpu_pct.as_str();
    let bar_w = cpu_bar_width(pct);
    progress_bar(fb, x, y + 1, bar_w, 5, rows.cpu_fill);
    let ghost s3 = fb@;
    draw_text_packed(fb, font, x + bar_w + 1, y, pct);
    let ghost s4 = fb@;
    y = y + 8 + 2;
    let ram = fmt_ram(rows.mem_used_kb, rows.mem_total_kb);
    draw_text_packed(fb, font, x, y, ram.as_str());
    let ghost s5 = fb@;
    y = y + 8;
    let disk = fmt_disk(rows.disk_used, rows.disk_total);
    draw_text_packed(fb, font, x, y, disk.as_str());
    let ghost s6 = fb@;
    y = y + 8 + 2;
    draw_text_packed(fb, font, x, y, rows.net_row.as_str());
    let ghost s7 = fb@;
    render_percore_bars(fb, &rows.core_fills);
    proof {
        assert(w == 70);
        assert forall|i: int, j: int| #![trigger pixel_on(fb@, i, j)] in_bounds(i, j) implies pixel_on(
            fb@,
            i,
            j,
        ) == metrics_pixel(pixel_on(s0, i, j), font@, *rows, i, j) by {
            assert(pixel_on(s1, i, j) == text_pixel(pixel_on(s0, i, j), font@, rows.self_row@, 0, 58, 0, i, j));
            assert(pixel_on(s2, i, j) == text_pixel(pixel_on(s1, i, j), font@, rows.cpu_row@, 0, 58, 10, i, j));
            assert(pixel_on(s3, i, j) == bar_pixel(
                pixel_on(s2, i, j),
                58,
                19,
                bar_w as int,
                5,
                rows.cpu_fill as int,
                i,
                j,
            ));
            assert(pixel_on(s4, i, j) == text_pixel(
                pixel_on(s3, i, j),
                font@,
                rows.cpu_pct@,
                0,
                58 + bar_w + 1,
                18,
                i,
                j,
            ));
            assert(pixel_on(s5, i, j) == text_pixel(pixel_on(s4, i, j), font@, ram@, 0, 58, 28, i, j));
            assert(pixel_on(s6, i, j) == text_pixel(pixel_on(s5, i, j), font@, disk@, 0, 58, 36, i, j));
            assert(pixel_on(s7, i, j) == text_pixel(pixel_on(s6, i, j), font@, rows.net_row@, 0, 58, 46, i, j));
        }
    }
}

/// Pixel `(i, j)` after drawing the dividers of the screen layout over a
/// picture in which it was `prev`.
pub open spec fn divider_pixel(prev: bool, i: int, j: int) -> bool {
    column_region(56, 0, 56)(i, j) || hrun_region(0, 56, 128, 2)(i, j) || prev
}

/// Pixel `(i, j)` of the main screen drawn over a picture in which it was
/// `prev`: pet, dividers, metrics, status bar, in that order.
pub open spec fn screen_pixel(
    prev: bool,
    font: Seq<u8>,
    sprite: PetSprite,
    rows: MetricRows,
    blink: bool,
    left: Seq<char>,
    right: Seq<char>,
    i: int,
    j: int,
) -> bool {
    status_bar_pixel(
        metrics_pixel(divider_pixel(pet_pixel(prev, sprite, blink, i, j), i, j), font, rows, i, j),
        font,
        screen_layout().status,
        left,
        right,
        i,
        j,
    )
}

/// Main screen: the pet (blinking every `blink_interval` frames), the
/// dividers, the metrics panel and the status bar with the current
/// notification and the uptime or clock; texts in the standard font `font`.
pub fn render_screen(
    fb: &mut Framebuffer,
    font: &[u8; 475],
    sprite: &PetSprite,
    rows: &MetricRows,
    uptime_secs: u64,
    notifier: &mut Notifier,
    cycle: u64,
    blink_interval: u64,
    now: u64,
    clock: Option<(u32, u32)>,
)
    requires
        old(fb)@.len() == 1024,
        sprite.eye_l_x + 12 <= usize::MAX,
        sprite.eye_l_y + 8 <= usize::MAX,
        sprite.eye_r_x + 12 <= usize::MAX,
        sprite.eye_r_y + 8 <= usize::MAX,
        encode_utf8(rows.cpu_pct@).len() * 5 + 1 <= usize::MAX,
        cpu_bar_w(encode_utf8(rows.cpu_pct@).len() as int) >= 3 ==> rows.cpu_fill <= cpu_bar_w(
            encode_utf8(rows.cpu_pct@).len() as int,
        ) - 2,
        forall|k: int| 0 <= k < 4 ==> rows.core_fills@[k] <= 52,
        old(notifier)@.current matches Some(m) ==> m.len() * 6 + 300 <= usize::MAX,
    ensures
        final(notifier)@ == polled(old(notifier)@, now),
        final(fb)@.len() == 1024,
        forall|i: int, j: int|
            #![trigger pixel_on(final(fb)@, i, j)]
            in_bounds(i, j) ==> pixel_on(final(fb)@, i, j) == screen_pixel(
                pixel_on(old(fb)@, i, j),
                font@,
                *sprite,
                *rows,
                blinking(cycle, blink_interval),
                shown_text(shown(old(notifier)@, now)),
                status_right(cycle, uptime_secs, clock),
                i,
                j,
            ),
{
    let ghost s0 = fb@;
    render_pet(fb, sprite, cycle, blink_interval);
    let ghost s1 = fb@;
    let l = layout();
    draw_dividers(fb, &l);
    let ghost s2 = fb@;
    render_metrics(fb, font, rows);
    let ghost s3 = fb@;
    render_status(fb, font, uptime_secs, notifier, cycle, now, clock);
    proof {
        assert forall|i: int, j: int| #![trigger pixel_on(fb@, i, j)] in_bounds(i, j) implies pixel_on(
            fb@,
            i,
            j,
        ) == screen_pixel(
            pixel_on(s0, i, j),
            font@,
            *sprite,
            *rows,
            blinking(cycle, blink_interval),
            shown_text(shown(old(notifier)@, now)),
            status_right(cycle, uptime_secs, clock),
            i,
            j,
        ) by {
            assert(pixel_on(s1, i, j) == pet_pixel(
                pixel_on(s0, i, j),
                *sprite,
                blinking(cycle, blink_interval),
                i,
                j,
            ));
            assert(pixel_on(s2, i, j) == divider_pixel(pixel_on(s1, i, j), i, j));
            assert(pixel_on(s3, i, j) == metrics_pixel(pixel_on(s2, i, j), font@, *rows, i, j));
        }
    }
}

} // verus!
