//! 1-bit frame buffer laid out like the SSD1309 display RAM.
//!
//! Layout: 8 pages x 128 columns. Each byte holds 8 vertical pixels of one
//! column; bit 0 is the top pixel of the page.

use vstd::prelude::*;

use embedded_graphics::geometry::Point;
use embedded_graphics::image::{GetPixel, ImageRaw};
use embedded_graphics::pixelcolor::BinaryColor;

verus! {

/// Width of the panel in pixels.
pub const WIDTH: usize = 128;
/// Height of the panel in pixels.
pub const HEIGHT: usize = 64;
/// Size of the frame buffer in bytes.
pub const BUFFER_LEN: usize = 1024;

/// Whether `(x, y)` lies on the panel.
pub open spec fn in_bounds(x: int, y: int) -> bool {
    0 <= x < 128 && 0 <= y < 64
}

/// Byte that holds pixel `(x, y)`: page `y / 8`, column `x`.
pub open spec fn pixel_index(x: int, y: int) -> int {
    (y / 8) * 128 + x
}

/// Mask of pixel row `y` inside its page byte.
pub open spec fn row_mask(y: int) -> u8 {
    1u8 << ((y % 8) as u8)
}

/// Whether pixel `(x, y)` is lit in the byte image `bytes`.
pub open spec fn pixel_on(bytes: Seq<u8>, x: int, y: int) -> bool {
    bytes[pixel_index(x, y)] & row_mask(y) != 0
}

/// Two byte images show the same picture outside the pixels selected by `keep`.
pub open spec fn same_pixels_except(a: Seq<u8>, b: Seq<u8>, x: int, y: int) -> bool {
    forall|i: int, j: int|
        #![trigger pixel_on(a, i, j)]
        #![trigger pixel_on(b, i, j)]
        in_bounds(i, j) && !(i == x && j == y) ==> pixel_on(a, i, j) == pixel_on(b, i, j)
}

/// The byte image `bytes` with pixel `(x, y)` lit (`on`) or dark;
/// coordinates off the panel leave it unchanged.
pub open spec fn with_pixel(bytes: Seq<u8>, x: int, y: int, on: bool) -> Seq<u8> {
    if !in_bounds(x, y) {
        bytes
    } else {
        let i = pixel_index(x, y);
        bytes.update(
            i,
            if on {
                bytes[i] | row_mask(y)
            } else {
                bytes[i] & !row_mask(y)
            },
        )
    }
}

/// SSD1309 128x64 monochrome frame buffer.
pub struct Framebuffer {
    pub buffer: [u8; 1024],
}

impl View for Framebuffer {
    type V = Seq<u8>;

    open spec fn view(&self) -> Seq<u8> {
        self.buffer@
    }
}

proof fn lemma_set_bit(b: u8, k: u8, j: u8)
    requires
        k < 8,
        j < 8,
    ensures
        ((b | (1u8 << k)) & (1u8 << j) != 0) == (j == k || b & (1u8 << j) != 0),
        ((b & !(1u8 << k)) & (1u8 << j) != 0) == (j != k && b & (1u8 << j) != 0),
{
    assert(((b | (1u8 << k)) & (1u8 << j) != 0) == (j == k || b & (1u8 << j) != 0))
        by (bit_vector)
        requires
            k < 8,
            j < 8,
    ;
    assert(((b & !(1u8 << k)) & (1u8 << j) != 0) == (j != k && b & (1u8 << j) != 0))
        by (bit_vector)
        requires
            k < 8,
            j < 8,
    ;
}

proof fn lemma_const_byte(j: u8)
    requires
        j < 8,
    ensures
        (0u8 & (1u8 << j)) == 0,
        (0xFFu8 & (1u8 << j)) != 0,
{
    assert((0u8 & (1u8 << j)) == 0) by (bit_vector);
    assert((0xFFu8 & (1u8 << j)) != 0) by (bit_vector)
        requires
            j < 8,
    ;
}

/// Distinct pixels either live in distinct bytes or in distinct rows of one byte.
proof fn lemma_pixel_layout(x: int, y: int, i: int, j: int)
    requires
        in_bounds(x, y),
        in_bounds(i, j),
    ensures
        0 <= pixel_index(i, j) < 1024,
        pixel_index(i, j) == pixel_index(x, y) ==> i == x && j / 8 == y / 8,
        pixel_index(i, j) == pixel_index(x, y) && !(i == x && j == y) ==> j % 8 != y % 8,
{
}

impl Framebuffer {
    /// A frame buffer with every pixel off.
    pub fn new() -> (fb: Self)
        ensures
            fb@.len() == 1024,
            forall|i: int| 0 <= i < 1024 ==> fb@[i] == 0,
    {
        Framebuffer { buffer: [0u8; 1024] }
    }

    /// Turns every pixel off.
    pub fn clear(&mut self)
        ensures
            final(self)@.len() == 1024,
            forall|i: int| 0 <= i < 1024 ==> final(self)@[i] == 0,
    {
        self.fill_bytes(0);
    }

    /// Turns every pixel on.
    pub fn fill_all(&mut self)
        ensures
            final(self)@.len() == 1024,
            forall|i: int| 0 <= i < 1024 ==> final(self)@[i] == 0xFF,
    {
        self.fill_bytes(0xFF);
    }

    fn fill_bytes(&mut self, v: u8)
        ensures
            final(self)@.len() == 1024,
            forall|i: int| 0 <= i < 1024 ==> final(self)@[i] == v,
    {
        let mut i: usize = 0;
        while i < 1024
            invariant
                i <= 1024,
                self@.len() == 1024,
                forall|k: int| 0 <= k < i ==> self@[k] == v,
            decreases 1024 - i,
        {
            self.buffer[i] = v;
            i = i + 1;
        }
    }

    /// Lights (`on`) or darkens pixel `(x, y)`; coordinates off the panel
    /// leave the buffer unchanged.
    pub fn set_pixel(&mut self, x: usize, y: usize, on: bool)
        ensures
            final(self)@ == with_pixel(old(self)@, x as int, y as int, on),
            final(self)@.len() == old(self)@.len(),
            !in_bounds(x as int, y as int) ==> final(self)@ == old(self)@,
            in_bounds(x as int, y as int) && old(self)@.len() == 1024 ==> {
                &&& pixel_on(final(self)@, x as int, y as int) == on
                &&& same_pixels_except(final(self)@, old(self)@, x as int, y as int)
            },
    {
        if x >= 128 || y >= 64 {
            return;
        }
        let page = y >> 3;
        proof {
            assert(y >> 3 == y / 8) by (bit_vector);
            assert(y & 0x07 == y % 8) by (bit_vector);
            assert(page << 7 == page * 128) by (bit_vector)
                requires
                    page < 8,
            ;
        }
        let bit = (y & 0x07) as u8;
        let idx = (page << 7) + x;
        let ghost old_bytes = self@;
        assert(idx == pixel_index(x as int, y as int));
        assert(1u8 << bit == row_mask(y as int));
        if on {
            self.buffer[idx] = self.buffer[idx] | (1u8 << bit);
        } else {
            self.buffer[idx] = self.buffer[idx] & !(1u8 << bit);
        }
        proof {
            if old_bytes.len() == 1024 {
                lemma_set_bit(old_bytes[idx as int], bit, bit);
                assert forall|i: int, j: int|
                    #![trigger pixel_on(self@, i, j)]
                    #![trigger pixel_on(old_bytes, i, j)]
                    in_bounds(i, j) && !(i == x && j == y) implies pixel_on(self@, i, j)
                    == pixel_on(old_bytes, i, j) by {
                    lemma_pixel_layout(x as int, y as int, i, j);
                    if pixel_index(i, j) == idx {
                        lemma_set_bit(old_bytes[idx as int], bit, (j % 8) as u8);
                    }
                }
            }
        }
    }

    /// Whether pixel `(x, y)` is lit; coordinates off the panel read as off.
    pub fn get_pixel(&self, x: usize, y: usize) -> (r: bool)
        requires
            self@.len() == 1024,
        ensures
            r == (in_bounds(x as int, y as int) && pixel_on(self@, x as int, y as int)),
    {
        if x >= 128 || y >= 64 {
            return false;
        }
        let page = y >> 3;
        proof {
            assert(y >> 3 == y / 8) by (bit_vector);
            assert(y & 0x07 == y % 8) by (bit_vector);
            assert(page << 7 == page * 128) by (bit_vector)
                requires
                    page < 8,
            ;
        }
        let bit = (y & 0x07) as u8;
        let idx = (page << 7) + x;
        (self.buffer[idx] & (1u8 << bit)) != 0
    }

    /// The raw display-RAM image.
    pub fn as_bytes(&self) -> (r: &[u8; 1024])
        ensures
            r@ == self@,
    {
        &self.buffer
    }
}


impl Default for Framebuffer {
    /// A dark frame buffer.
    fn default() -> (r: Self)
        ensures
            forall|i: int| 0 <= i < 1024 ==> r@[i] == 0,
    {
        Framebuffer::new()
    }
}

/// Colour that the last pixel of `pixels` addressed to `(x, y)` asks for,
/// if any pixel of the list addresses it.
pub open spec fn last_paint(pixels: Seq<(i32, i32, bool)>, x: int, y: int) -> Option<bool>
    decreases pixels.len(),
{
    if pixels.len() == 0 {
        None
    } else {
        let p = pixels.last();
        if p.0 as int == x && p.1 as int == y {
            Some(p.2)
        } else {
            last_paint(pixels.drop_last(), x, y)
        }
    }
}

/// Pixel `(x, y)` after painting `pixels` over a picture in which it was `before`.
pub open spec fn painted_pixel(pixels: Seq<(i32, i32, bool)>, x: int, y: int, before: bool) -> bool {
    match last_paint(pixels, x, y) {
        Some(c) => c,
        None => before,
    }
}

/// Bit of a 64x64 one-bit sprite (rows of 8 bytes, leftmost pixel in the
/// most significant bit) at `(x, y)`.
pub open spec fn sprite_bit(sprite: Seq<u8>, x: int, y: int) -> bool {
    sprite[y * 8 + x / 8] & (0x80u8 >> ((x % 8) as u8)) != 0
}

/// Pixel `(x, y)` of a 64x64 one-bit sprite as embedded-graphics decodes
/// it (`ImageRaw::<BinaryColor>` of width 64, read through
/// `GetPixel::pixel`): `Some(lit)` inside the image, where a pixel is lit
/// when its bit (most significant bit leftmost, rows of 8 bytes) is set,
/// and `None` outside it.
#[verifier::external_body]
fn sprite_pixel(sprite: &[u8; 512], x: i32, y: i32) -> (r: Option<bool>)
    ensures
        (0 <= x < 64 && 0 <= y < 64) ==> r == Some(sprite_bit(sprite@, x as int, y as int)),
        !(0 <= x < 64 && 0 <= y < 64) ==> r is None,
{
    match ImageRaw::<BinaryColor>::new(sprite, 64).pixel(Point::new(x, y)) {
        Some(BinaryColor::On) => Some(true),
        Some(BinaryColor::Off) => Some(false),
        None => None,
    }
}

impl Framebuffer {
    /// Paints a sequence of `(x, y, lit)` pixels in order; pixels off the
    /// panel (negative or too large coordinates) are skipped.
    pub fn draw_pixels(&mut self, pixels: &[(i32, i32, bool)])
        requires
            old(self)@.len() == 1024,
        ensures
            final(self)@.len() == 1024,
            forall|i: int, j: int|
                #![trigger pixel_on(final(self)@, i, j)]
                in_bounds(i, j) ==> pixel_on(final(self)@, i, j) == painted_pixel(
                    pixels@,
                    i,
                    j,
                    pixel_on(old(self)@, i, j),
                ),
    {
        let ghost start = self@;
        let mut k: usize = 0;
        while k < pixels.len()
            invariant
                k <= pixels@.len(),
                self@.len() == 1024,
                forall|i: int, j: int|
                    #![trigger pixel_on(self@, i, j)]
                    in_bounds(i, j) ==> pixel_on(self@, i, j) == painted_pixel(
                        pixels@.take(k as int),
                        i,
                        j,
                        pixel_on(start, i, j),
                    ),
            decreases pixels@.len() - k,
        {
            let (x, y, on) = pixels[k];
            let ghost before = self@;
            if 0 <= x && x < 128 && 0 <= y && y < 64 {
                self.set_pixel(x as usize, y as usize, on);
            }
            proof {
                let t = pixels@.take(k as int + 1);
                assert(t.drop_last() =~= pixels@.take(k as int));
                assert(t.last() == (x, y, on));
                assert forall|i: int, j: int|
                    #![trigger pixel_on(self@, i, j)]
                    in_bounds(i, j) implies pixel_on(self@, i, j) == painted_pixel(
                        t,
                        i,
                        j,
                        pixel_on(start, i, j),
                    ) by {
                    if !(i == x as int && j == y as int) {
                        assert(pixel_on(before, i, j) == pixel_on(self@, i, j));
                    }
                }
            }
            k = k + 1;
        }
        proof {
            assert(pixels@.take(pixels@.len() as int) =~= pixels@);
        }
    }

    /// Draws a 64x64 one-bit sprite (decoded by embedded-graphics) into the
    /// top-left corner, writing both lit and dark sprite pixels.
    pub fn draw_sprite(&mut self, sprite: &[u8; 512])
        requires
            old(self)@.len() == 1024,
        ensures
            final(self)@.len() == 1024,
            forall|i: int, j: int|
                #![trigger pixel_on(final(self)@, i, j)]
                in_bounds(i, j) ==> pixel_on(final(self)@, i, j) == if i < 64 {
                    sprite_bit(sprite@, i, j)
                } else {
                    pixel_on(old(self)@, i, j)
                },
    {
        let ghost start = self@;
        let mut y: usize = 0;
        while y < 64
            invariant
                y <= 64,
                self@.len() == 1024,
                forall|i: int, j: int|
                    #![trigger pixel_on(self@, i, j)]
                    in_bounds(i, j) ==> pixel_on(self@, i, j) == if i < 64 && j < y {
                        sprite_bit(sprite@, i, j)
                    } else {
                        pixel_on(start, i, j)
                    },
            decreases 64 - y,
        {
            let mut x: usize = 0;
            while x < 64
                invariant
                    x <= 64,
                    y < 64,
                    self@.len() == 1024,
                    forall|i: int, j: int|
                        #![trigger pixel_on(self@, i, j)]
                        in_bounds(i, j) ==> pixel_on(self@, i, j) == if i < 64 && (j < y || (j
                            == y && i < x)) {
                            sprite_bit(sprite@, i, j)
                        } else {
                            pixel_on(start, i, j)
                        },
                decreases 64 - x,
            {
                let on = match sprite_pixel(sprite, x as i32, y as i32) {
                    Some(lit) => lit,
                    None => false,
                };
                let ghost before = self@;
                self.set_pixel(x, y, on);
                proof {
                    assert forall|i: int, j: int|
                        #![trigger pixel_on(self@, i, j)]
                        in_bounds(i, j) implies pixel_on(self@, i, j) == if i < 64 && (j < y || (j
                            == y && i < x + 1)) {
                            sprite_bit(sprite@, i, j)
                        } else {
                            pixel_on(start, i, j)
                        } by {
                        if !(i == x as int && j == y as int) {
                            assert(pixel_on(before, i, j) == pixel_on(self@, i, j));
                        }
                    }
                }
                x = x + 1;
            }
            y = y + 1;
        }
    }
}

/// A pixel reads back what was last written to it, and writing one pixel
/// leaves every other pixel as it was.
pub proof fn law_read_after_write(bytes: Seq<u8>, x: int, y: int, on: bool, i: int, j: int)
    requires
        bytes.len() == 1024,
        in_bounds(x, y),
        in_bounds(i, j),
    ensures
        pixel_on(with_pixel(bytes, x, y, on), x, y) == on,
        !(i == x && j == y) ==> pixel_on(with_pixel(bytes, x, y, on), i, j) == pixel_on(bytes, i, j),
{
    lemma_pixel_layout(x, y, x, y);
    lemma_pixel_layout(x, y, i, j);
    let k = pixel_index(x, y);
    lemma_set_bit(bytes[k], (y % 8) as u8, (y % 8) as u8);
    if pixel_index(i, j) == k {
        lemma_set_bit(bytes[k], (y % 8) as u8, (j % 8) as u8);
    }
}

/// Every pixel of a cleared buffer is dark.
pub proof fn law_cleared_is_dark(bytes: Seq<u8>, x: int, y: int)
    requires
        bytes.len() == 1024,
        forall|i: int| 0 <= i < 1024 ==> bytes[i] == 0,
        in_bounds(x, y),
    ensures
        !pixel_on(bytes, x, y),
{
    lemma_pixel_layout(x, y, x, y);
    lemma_const_byte((y % 8) as u8);
}

/// Every pixel of a filled buffer is lit.
pub proof fn law_filled_is_lit(bytes: Seq<u8>, x: int, y: int)
    requires
        bytes.len() == 1024,
        forall|i: int| 0 <= i < 1024 ==> bytes[i] == 0xFF,
        in_bounds(x, y),
    ensures
        pixel_on(bytes, x, y),
{
    lemma_pixel_layout(x, y, x, y);
    lemma_const_byte((y % 8) as u8);
}

} // verus!
