use oled_desktop_pet::app::render::{
    cpu_bar_width, draw_centered_screen, render_metrics, render_percore_bars, render_pet,
    render_screen, render_status, MetricRows, PetSprite,
};
use oled_desktop_pet::display::Framebuffer;
use oled_desktop_pet::notify::{Notification, Notifier, NotifyKind};
use oled_desktop_pet::renderer::canvas::{draw_rect, fill_rect};
use oled_desktop_pet::renderer::font::FALLBACK_FONT_DATA;
use oled_desktop_pet::renderer::text::{draw_text, draw_text_inverted, draw_text_packed};
use oled_desktop_pet::ui::fmt::{fmt_disk, fmt_ram};
use oled_desktop_pet::ui::layout::{layout, Rect, GROUP_GAP, ROW_H};
use oled_desktop_pet::ui::widget::{draw_dividers, progress_bar, status_bar};

fn lit(fb: &Framebuffer) -> u32 {
    fb.buffer.iter().map(|b| b.count_ones()).sum()
}

#[test]
fn layout_areas() {
    let l = layout();
    assert_eq!((l.pet.x, l.pet.y, l.pet.w, l.pet.h), (0, 0, 56, 56));
    assert_eq!(l.divider_x, 56);
    assert_eq!(l.metrics.right(), 128);
    assert_eq!(l.status.bottom(), 64);
    assert_eq!((ROW_H, GROUP_GAP), (8, 2));
}

#[test]
fn centered_screen_matches_its_parts() {
    let mut a = Framebuffer::new();
    a.fill_all();
    draw_centered_screen(&mut a, &FALLBACK_FONT_DATA, "Booting...", 50, "Load font");
    let mut b = Framebuffer::new();
    draw_text(&mut b, &FALLBACK_FONT_DATA, 34, 18, "Booting...");
    draw_rect(&mut b, 20, 34, 80, 6);
    fill_rect(&mut b, 21, 35, 39, 4);
    draw_text(&mut b, &FALLBACK_FONT_DATA, 103, 34, "50%");
    draw_text(&mut b, &FALLBACK_FONT_DATA, 37, 44, "Load font");
    assert_eq!(a.buffer, b.buffer);
}

#[test]
fn centered_screen_caps_progress() {
    let mut a = Framebuffer::new();
    draw_centered_screen(&mut a, &FALLBACK_FONT_DATA, "", 250, "");
    let mut b = Framebuffer::new();
    draw_rect(&mut b, 20, 34, 80, 6);
    fill_rect(&mut b, 21, 35, 78, 4);
    draw_text(&mut b, &FALLBACK_FONT_DATA, 103, 34, "250%");
    assert_eq!(a.buffer, b.buffer);
    let mut empty = Framebuffer::new();
    draw_centered_screen(&mut empty, &FALLBACK_FONT_DATA, "", 0, "");
    let mut outline = Framebuffer::new();
    draw_rect(&mut outline, 20, 34, 80, 6);
    draw_text(&mut outline, &FALLBACK_FONT_DATA, 103, 34, "0%");
    assert_eq!(empty.buffer, outline.buffer);
}

#[test]
fn status_bar_hides_right_text_when_crowded() {
    let area = Rect { x: 0, y: 57, w: 128, h: 7 };
    let mut a = Framebuffer::new();
    status_bar(&mut a, &FALLBACK_FONT_DATA, &area, "SSH pi", "5m30s");
    let mut b = Framebuffer::new();
    fill_rect(&mut b, 0, 57, 128, 7);
    draw_text_inverted(&mut b, &FALLBACK_FONT_DATA, 1, 57, "SSH pi");
    draw_text_inverted(&mut b, &FALLBACK_FONT_DATA, 128 - 30 - 1, 57, "5m30s");
    assert_eq!(a.buffer, b.buffer);
    let mut c = Framebuffer::new();
    status_bar(&mut c, &FALLBACK_FONT_DATA, &area, "a very long message here", "5m30s");
    let mut d = Framebuffer::new();
    fill_rect(&mut d, 0, 57, 128, 7);
    draw_text_inverted(&mut d, &FALLBACK_FONT_DATA, 1, 57, "a very long message here");
    assert_eq!(c.buffer, d.buffer);
}

#[test]
fn progress_bar_outline_and_fill() {
    let mut a = Framebuffer::new();
    progress_bar(&mut a, 58, 19, 40, 5, 10);
    let mut b = Framebuffer::new();
    draw_rect(&mut b, 58, 19, 40, 5);
    fill_rect(&mut b, 59, 20, 10, 3);
    assert_eq!(a.buffer, b.buffer);
    let mut tiny = Framebuffer::new();
    progress_bar(&mut tiny, 0, 0, 2, 5, 0);
    assert_eq!(lit(&tiny), 0);
}

#[test]
fn dividers_column_and_dotted_row() {
    let mut fb = Framebuffer::new();
    draw_dividers(&mut fb, &layout());
    assert!(fb.get_pixel(56, 0) && fb.get_pixel(56, 55));
    assert!(!fb.get_pixel(57, 56) && !fb.get_pixel(55, 10));
    assert!(fb.get_pixel(0, 56) && !fb.get_pixel(1, 56) && fb.get_pixel(126, 56));
    assert_eq!(lit(&fb), 56 + 64);
}

fn sprite() -> PetSprite {
    PetSprite { bitmap: [0u8; 512], eye_l_x: 22, eye_l_y: 18, eye_r_x: 34, eye_r_y: 18 }
}

#[test]
fn pet_blinks_on_interval() {
    let mut open = Framebuffer::new();
    open.fill_all();
    render_pet(&mut open, &sprite(), 5, 6);
    assert!(!open.get_pixel(10, 10));
    assert!(open.get_pixel(100, 10));
    let mut closed = Framebuffer::new();
    render_pet(&mut closed, &sprite(), 6, 6);
    assert!(closed.get_pixel(19, 15));
    assert!(closed.get_pixel(30, 22));
    assert!(!closed.get_pixel(20, 23));
    assert!(!closed.get_pixel(20, 24));
    assert!(closed.get_pixel(19, 23));
    assert!(!closed.get_pixel(32, 23));
    assert!(closed.get_pixel(43, 20));
    let mut never = Framebuffer::new();
    render_pet(&mut never, &sprite(), 6, 0);
    assert_eq!(lit(&never), 0);
}

#[test]
fn core_bars() {
    let mut fb = Framebuffer::new();
    render_percore_bars(&mut fb, &[0, 52, 26, 1]);
    assert_eq!(lit(&fb), 52 + 26 + 1);
    assert!(fb.get_pixel(2, 53) && fb.get_pixel(53, 53) && !fb.get_pixel(54, 53));
    assert!(fb.get_pixel(2, 55) && !fb.get_pixel(3, 55));
}

fn rows() -> MetricRows {
    MetricRows {
        self_row: "Me1584k   0.0%".to_string(),
        cpu_row: "CPU ↑48°C 2.4G".to_string(),
        cpu_pct: "12.5%".to_string(),
        cpu_fill: 5,
        mem_used_kb: 1_567_744,
        mem_total_kb: 4_002_816,
        disk_used: 4_509_715_660,
        disk_total: 31_138_512_896,
        net_row: "Th 3   ↑0B↓3.2K".to_string(),
        core_fills: [10, 20, 30, 40],
    }
}

#[test]
fn metrics_panel_rows() {
    let r = rows();
    assert_eq!(cpu_bar_width(&r.cpu_pct), 70 - 26);
    let mut a = Framebuffer::new();
    render_metrics(&mut a, &FALLBACK_FONT_DATA, &r);
    let mut b = Framebuffer::new();
    draw_text_packed(&mut b, &FALLBACK_FONT_DATA, 58, 0, &r.self_row);
    draw_text_packed(&mut b, &FALLBACK_FONT_DATA, 58, 10, &r.cpu_row);
    progress_bar(&mut b, 58, 19, 44, 5, 5);
    draw_text_packed(&mut b, &FALLBACK_FONT_DATA, 58 + 44 + 1, 18, "12.5%");
    draw_text_packed(&mut b, &FALLBACK_FONT_DATA, 58, 28, &fmt_ram(r.mem_used_kb, r.mem_total_kb));
    draw_text_packed(&mut b, &FALLBACK_FONT_DATA, 58, 36, &fmt_disk(r.disk_used, r.disk_total));
    draw_text_packed(&mut b, &FALLBACK_FONT_DATA, 58, 46, &r.net_row);
    render_percore_bars(&mut b, &r.core_fills);
    assert_eq!(a.buffer, b.buffer);
}

#[test]
fn status_alternates_uptime_and_clock() {
    let mut n = Notifier::new(2);
    n.push(Notification::new(NotifyKind::SshLogin, "SSH pi".to_string()), 0);
    let mut a = Framebuffer::new();
    render_status(&mut a, &FALLBACK_FONT_DATA, 330, &mut n, 0, 0, Some((14, 30)));
    let mut b = Framebuffer::new();
    status_bar(&mut b, &FALLBACK_FONT_DATA, &layout().status, "SSH pi", "5m30s");
    assert_eq!(a.buffer, b.buffer);
    let mut c = Framebuffer::new();
    render_status(&mut c, &FALLBACK_FONT_DATA, 330, &mut n, 16, 3_000_000_000, Some((14, 30)));
    let mut d = Framebuffer::new();
    status_bar(&mut d, &FALLBACK_FONT_DATA, &layout().status, "", "14:30");
    assert_eq!(c.buffer, d.buffer);
    assert_eq!(n.current(3_000_000_000), None);
}

#[test]
fn full_screen_draws_without_panic() {
    let mut n = Notifier::new(2);
    let mut fb = Framebuffer::new();
    render_screen(&mut fb, &FALLBACK_FONT_DATA, &sprite(), &rows(), 59, &mut n, 12, 6, 0, None);
    assert!(fb.get_pixel(56, 10));
    assert!(fb.get_pixel(0, 60));
}

#[test]
fn screens_use_the_loaded_font() {
    let mut font = [0u8; 475];
    let a = ('A' as usize - 32) * 5;
    font[a] = 0x7F;
    let mut custom = Framebuffer::new();
    draw_centered_screen(&mut custom, &font, "A", 0, "");
    let mut std = Framebuffer::new();
    draw_centered_screen(&mut std, &FALLBACK_FONT_DATA, "A", 0, "");
    assert_ne!(custom.as_bytes(), std.as_bytes());
    for y in 18..25 {
        assert!(custom.get_pixel(61, y));
        assert!(!custom.get_pixel(62, y));
    }
}
