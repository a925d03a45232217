use oled_desktop_pet::display::Framebuffer;
use oled_desktop_pet::renderer::font::{glyph, glyph_small, FALLBACK_FONT_DATA};
use oled_desktop_pet::renderer::text::{
    draw_int_right, draw_small, draw_small_packed, draw_text, draw_text_inverted,
    draw_text_packed, text_width, text_width_small,
};

#[test]
fn draw_text_ok() {
    let mut fb = Framebuffer::new();
    draw_text(&mut fb, &FALLBACK_FONT_DATA, 0, 0, "OK");
}

#[test]
fn draw_small_ok() {
    let mut fb = Framebuffer::new();
    draw_small(&mut fb, 0, 0, "ok");
}

#[test]
fn draw_small_packed_ok() {
    let mut fb = Framebuffer::new();
    draw_small_packed(&mut fb, 0, 0, "CPU 48.5°C");
}

#[test]
fn degree_renders() {
    let mut fb = Framebuffer::new();
    draw_text(&mut fb, &FALLBACK_FONT_DATA, 0, 0, "48.5°C");
}

#[test]
fn inverted_works() {
    let mut fb = Framebuffer::new();
    for px in 0..40 {
        for py in 0..10 {
            fb.set_pixel(px, py, true);
        }
    }
    draw_text_inverted(&mut fb, &FALLBACK_FONT_DATA, 0, 0, "OK");
    assert!(!fb.get_pixel(0, 3));
}

#[test]
fn zero_gap_smaller() {
    assert!(text_width("CPU", 0) < text_width("CPU", 1));
}

#[test]
fn small_narrower() {
    assert!(text_width_small("CPU", 0) < text_width("CPU", 0));
}

#[test]
fn oob_no_panic() {
    let mut fb = Framebuffer::new();
    draw_text(&mut fb, &FALLBACK_FONT_DATA, 200, 200, "X");
}

#[test]
fn widths_count_characters() {
    assert_eq!(text_width("CPU", 1), 18);
    assert_eq!(text_width("48.5°C", 0), 30);
    assert_eq!(text_width_small("ab", 1), 10);
}

#[test]
fn glyph_of_a_is_drawn_column_by_column() {
    let g = glyph(&FALLBACK_FONT_DATA, 'A');
    assert_eq!(g, [0x7E, 0x11, 0x11, 0x11, 0x7E]);
    let mut fb = Framebuffer::new();
    draw_text(&mut fb, &FALLBACK_FONT_DATA, 10, 8, "A");
    assert!(!fb.get_pixel(10, 8));
    assert!(fb.get_pixel(10, 9));
    assert!(fb.get_pixel(11, 8));
    assert!(!fb.get_pixel(15, 8));
}

#[test]
fn packed_text_starts_every_five_columns() {
    let mut a = Framebuffer::new();
    draw_text_packed(&mut a, &FALLBACK_FONT_DATA, 0, 0, "AA");
    let mut b = Framebuffer::new();
    draw_text(&mut b, &FALLBACK_FONT_DATA, 0, 0, "A");
    draw_text(&mut b, &FALLBACK_FONT_DATA, 5, 0, "A");
    assert_eq!(a.buffer, b.buffer);
}

#[test]
fn small_glyphs_are_four_columns() {
    let g = glyph_small('1');
    assert_eq!(g.len(), 4);
    let unknown = glyph_small('€');
    assert_eq!(unknown, glyph_small('?'));
}

#[test]
fn text_stops_at_right_edge() {
    let mut fb = Framebuffer::new();
    draw_text(&mut fb, &FALLBACK_FONT_DATA, 126, 0, "AAAA");
    let lit: u32 = fb.buffer.iter().map(|b| b.count_ones()).sum();
    let mut one = Framebuffer::new();
    draw_text(&mut one, &FALLBACK_FONT_DATA, 126, 0, "A");
    let lit_one: u32 = one.buffer.iter().map(|b| b.count_ones()).sum();
    assert_eq!(lit, lit_one);
}

#[test]
fn int_right_ends_at_column() {
    let mut a = Framebuffer::new();
    draw_int_right(&mut a, &FALLBACK_FONT_DATA, 60, 0, -42);
    let mut b = Framebuffer::new();
    draw_text(&mut b, &FALLBACK_FONT_DATA, 42, 0, "-42");
    assert_eq!(a.buffer, b.buffer);
}

#[test]
fn text_is_drawn_with_the_given_font() {
    let mut font = FALLBACK_FONT_DATA;
    let a = ('A' as usize - 32) * 5;
    font[a..a + 5].copy_from_slice(&[0x01, 0x00, 0x00, 0x00, 0x40]);
    let mut fb = Framebuffer::new();
    draw_text(&mut fb, &font, 0, 0, "A");
    let lit: Vec<(usize, usize)> =
        (0..8).flat_map(|x| (0..8).map(move |y| (x, y))).filter(|&(x, y)| fb.get_pixel(x, y)).collect();
    assert_eq!(lit, vec![(0, 0), (4, 6)]);
}

fn pattern() -> Framebuffer {
    let mut fb = Framebuffer::new();
    for px in 0..128 {
        for py in 0..64 {
            if (px + 2 * py) % 3 == 0 {
                fb.set_pixel(px, py, true);
            }
        }
    }
    fb
}

#[test]
fn text_over_a_picture_is_old_or_glyphs() {
    let before = pattern();
    let mut after = pattern();
    draw_text(&mut after, &FALLBACK_FONT_DATA, 20, 30, "Hi 42");
    let mut alone = Framebuffer::new();
    draw_text(&mut alone, &FALLBACK_FONT_DATA, 20, 30, "Hi 42");
    for px in 0..128 {
        for py in 0..64 {
            assert_eq!(after.get_pixel(px, py), before.get_pixel(px, py) || alone.get_pixel(px, py));
            if alone.get_pixel(px, py) {
                assert!((20..20 + 5 * 6).contains(&px) && (30..37).contains(&py));
            }
        }
    }
}

#[test]
fn inverted_text_clears_exactly_the_glyphs() {
    let before = pattern();
    let mut after = pattern();
    draw_text_inverted(&mut after, &FALLBACK_FONT_DATA, 3, 50, "SSH pi");
    let mut alone = Framebuffer::new();
    draw_text(&mut alone, &FALLBACK_FONT_DATA, 3, 50, "SSH pi");
    for px in 0..128 {
        for py in 0..64 {
            assert_eq!(after.get_pixel(px, py), before.get_pixel(px, py) && !alone.get_pixel(px, py));
        }
    }
}

#[test]
fn packed_text_is_its_characters_drawn_one_by_one() {
    let mut packed = pattern();
    draw_text_packed(&mut packed, &FALLBACK_FONT_DATA, 100, 2, "12.5%");
    let mut steps = pattern();
    for (k, c) in "12.5%".chars().enumerate() {
        draw_text(&mut steps, &FALLBACK_FONT_DATA, 100 + 5 * k, 2, &c.to_string());
    }
    assert_eq!(packed.buffer, steps.buffer);
}
