use oled_desktop_pet::display::Framebuffer;
use oled_desktop_pet::renderer::canvas::{
    draw_hline, draw_hline_dotted, draw_rect, draw_vline_dotted, fill_rect,
};

#[test]
fn rect_does_not_panic_at_bounds() {
    let mut fb = Framebuffer::new();
    draw_rect(&mut fb, 0, 0, 128, 64);
    draw_rect(&mut fb, 200, 200, 50, 50);
}

#[test]
fn fill_rect_works() {
    let mut fb = Framebuffer::new();
    fill_rect(&mut fb, 0, 0, 10, 10);
    assert!(fb.get_pixel(5, 5));
    assert!(!fb.get_pixel(15, 5));
}

#[test]
fn dotted_line_spacing() {
    let mut fb = Framebuffer::new();
    draw_hline_dotted(&mut fb, 0, 0, 10);
    assert!(fb.get_pixel(0, 0));
    assert!(!fb.get_pixel(1, 0));
    assert!(fb.get_pixel(2, 0));
}

#[test]
fn empty_rect_noop() {
    let mut fb = Framebuffer::new();
    fb.set_pixel(10, 10, true);
    draw_rect(&mut fb, 10, 10, 0, 0);
    draw_rect(&mut fb, 10, 10, 1, 0);
    assert!(fb.get_pixel(10, 10));
}

#[test]
fn rect_outline_is_hollow_and_clipped() {
    let mut fb = Framebuffer::new();
    draw_rect(&mut fb, 120, 60, 20, 20);
    assert!(fb.get_pixel(120, 60));
    assert!(fb.get_pixel(127, 60));
    assert!(fb.get_pixel(127, 63));
    assert!(fb.get_pixel(120, 63));
    assert!(!fb.get_pixel(121, 61));
}

#[test]
fn fill_rect_clips_at_edges() {
    let mut fb = Framebuffer::new();
    fill_rect(&mut fb, 126, 62, 10, 10);
    assert!(fb.get_pixel(127, 63));
    assert!(fb.get_pixel(126, 62));
    assert!(!fb.get_pixel(125, 62));
}

#[test]
fn solid_and_vertical_dotted_lines() {
    let mut fb = Framebuffer::new();
    draw_hline(&mut fb, 2, 5, 3);
    assert!(fb.get_pixel(2, 5) && fb.get_pixel(3, 5) && fb.get_pixel(4, 5));
    assert!(!fb.get_pixel(5, 5));
    draw_vline_dotted(&mut fb, 7, 0, 5);
    assert!(fb.get_pixel(7, 0) && fb.get_pixel(7, 2) && fb.get_pixel(7, 4));
    assert!(!fb.get_pixel(7, 1) && !fb.get_pixel(7, 3) && !fb.get_pixel(7, 5));
}
