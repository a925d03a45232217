use embedded_graphics::draw_target::DrawTarget;
use embedded_graphics::geometry::{OriginDimensions, Point, Size};
use embedded_graphics::pixelcolor::BinaryColor;
use embedded_graphics::primitives::{Primitive, PrimitiveStyle, Rectangle};
use embedded_graphics::{Drawable, Pixel};
use oled_desktop_pet::display::Framebuffer;

/// Drawing surface over a frame buffer, as the application provides it.
struct Target<'a>(&'a mut Framebuffer);

impl OriginDimensions for Target<'_> {
    fn size(&self) -> Size {
        Size::new(128, 64)
    }
}

impl DrawTarget for Target<'_> {
    type Color = BinaryColor;
    type Error = core::convert::Infallible;

    fn draw_iter<I>(&mut self, pixels: I) -> Result<(), Self::Error>
    where
        I: IntoIterator<Item = Pixel<BinaryColor>>,
    {
        let v: Vec<(i32, i32, bool)> = pixels
            .into_iter()
            .map(|Pixel(p, c)| (p.x, p.y, c.is_on()))
            .collect();
        self.0.draw_pixels(&v);
        Ok(())
    }
}

#[test]
fn new_buffer_is_black() {
    let fb = Framebuffer::new();
    assert_eq!(fb.buffer, [0u8; 1024]);
}

#[test]
fn set_and_get_pixel() {
    let mut fb = Framebuffer::new();
    fb.set_pixel(0, 0, true);
    assert!(fb.get_pixel(0, 0));
    assert!(!fb.get_pixel(1, 0));
}

#[test]
fn out_of_bounds_ignored() {
    let mut fb = Framebuffer::new();
    fb.set_pixel(200, 200, true);
    assert!(fb.buffer.iter().all(|&b| b == 0));
}

#[test]
fn clear_resets_all() {
    let mut fb = Framebuffer::new();
    fb.fill_all();
    fb.clear();
    assert_eq!(fb.buffer, [0u8; 1024]);
}

#[test]
fn draw_target_writes_pixels() {
    let mut fb = Framebuffer::new();
    Rectangle::new(Point::new(0, 0), Size::new(10, 10))
        .into_styled(PrimitiveStyle::with_fill(BinaryColor::On))
        .draw(&mut Target(&mut fb))
        .unwrap();
    assert!(fb.get_pixel(0, 0));
    assert!(fb.get_pixel(9, 9));
    assert!(!fb.get_pixel(10, 0));
}

#[test]
fn draw_target_clips_negative_coords() {
    let mut fb = Framebuffer::new();
    Rectangle::new(Point::new(-5, -5), Size::new(10, 10))
        .into_styled(PrimitiveStyle::with_fill(BinaryColor::On))
        .draw(&mut Target(&mut fb))
        .unwrap();
    assert!(fb.get_pixel(0, 0));
    assert!(fb.get_pixel(4, 4));
}

#[test]
fn pixel_layout_is_page_major() {
    let mut fb = Framebuffer::new();
    fb.set_pixel(3, 9, true);
    assert_eq!(fb.buffer[128 + 3], 0b0000_0010);
    fb.set_pixel(3, 9, false);
    assert_eq!(fb.buffer[128 + 3], 0);
}

#[test]
fn fill_all_lights_every_pixel() {
    let mut fb = Framebuffer::new();
    fb.fill_all();
    assert!(fb.get_pixel(0, 0));
    assert!(fb.get_pixel(127, 63));
    assert!(fb.as_bytes().iter().all(|&b| b == 0xFF));
}

#[test]
fn later_pixel_wins() {
    let mut fb = Framebuffer::new();
    fb.draw_pixels(&[(5, 5, true), (5, 5, false), (6, 5, true), (-1, 3, true), (300, 2, true)]);
    assert!(!fb.get_pixel(5, 5));
    assert!(fb.get_pixel(6, 5));
    assert_eq!(fb.buffer.iter().map(|b| b.count_ones()).sum::<u32>(), 1);
}

#[test]
fn sprite_is_copied_msb_first() {
    let mut fb = Framebuffer::new();
    fb.set_pixel(100, 0, true);
    fb.set_pixel(0, 1, true);
    let mut sprite = [0u8; 512];
    sprite[0] = 0x80;
    sprite[8 * 2 + 1] = 0x01;
    fb.draw_sprite(&sprite);
    assert!(fb.get_pixel(0, 0));
    assert!(fb.get_pixel(15, 2));
    assert!(!fb.get_pixel(0, 1));
    assert!(fb.get_pixel(100, 0));
}

#[test]
fn default_is_black() {
    let fb = Framebuffer::default();
    assert_eq!(fb.buffer, [0u8; 1024]);
}
