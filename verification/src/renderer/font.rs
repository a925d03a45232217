//! Bitmap fonts: the 5x7 standard font (one byte per column, bit 0 at the
//! top) and the 4x6 small font, plus the degree sign and the two arrows
//! that the metric rows use.

use vstd::prelude::*;

verus! {

/// Column count of a standard glyph.
pub const CHAR_WIDTH: usize = 5;
/// Row count of a standard glyph.
pub const CHAR_HEIGHT: usize = 7;
/// Column count of a small glyph.
pub const CHAR_WIDTH_SMALL: usize = 4;
/// Row count of a small glyph.
pub const CHAR_HEIGHT_SMALL: usize = 6;

/// Built-in 5x7 glyphs of the printable ASCII characters `' '..='~'`,
/// five column bytes each.
pub const FALLBACK_FONT_DATA: [u8; 475] = [
    0x00, 0x00, 0x00, 0x00, 0x00, 0x00, 0x00, 0x5F, 0x00, 0x00, 0x00, 0x07, 0x00, 0x07, 0x00,
    0x14, 0x7F, 0x14, 0x7F, 0x14, 0x24, 0x2A, 0x7F, 0x2A, 0x12, 0x23, 0x13, 0x08, 0x64, 0x62,
    0x36, 0x49, 0x55, 0x22, 0x50, 0x00, 0x05, 0x03, 0x00, 0x00, 0x00, 0x1C, 0x22, 0x41, 0x00,
    0x00, 0x41, 0x22, 0x1C, 0x00, 0x08, 0x2A, 0x1C, 0x2A, 0x08, 0x08, 0x08, 0x3E, 0x08, 0x08,
    0x00, 0x50, 0x30, 0x00, 0x00, 0x08, 0x08, 0x08, 0x08, 0x08, 0x00, 0x60, 0x60, 0x00, 0x00,
    0x20, 0x10, 0x08, 0x04, 0x02, 0x3E, 0x51, 0x49, 0x45, 0x3E, 0x00, 0x42, 0x7F, 0x40, 0x00,
    0x42, 0x61, 0x51, 0x49, 0x46, 0x21, 0x41, 0x45, 0x4B, 0x31, 0x18, 0x14, 0x12, 0x7F, 0x10,
    0x27, 0x45, 0x45, 0x45, 0x39, 0x3C, 0x4A, 0x49, 0x49, 0x30, 0x01, 0x71, 0x09, 0x05, 0x03,
    0x36, 0x49, 0x49, 0x49, 0x36, 0x06, 0x49, 0x49, 0x29, 0x1E, 0x00, 0x36, 0x36, 0x00, 0x00,
    0x00, 0x56, 0x36, 0x00, 0x00, 0x08, 0x14, 0x22, 0x41, 0x00, 0x14, 0x14, 0x14, 0x14, 0x14,
    0x00, 0x41, 0x22, 0x14, 0x08, 0x02, 0x01, 0x51, 0x09, 0x06, 0x32, 0x49, 0x79, 0x41, 0x3E,
    0x7E, 0x11, 0x11, 0x11, 0x7E, 0x7F, 0x49, 0x49, 0x49, 0x36, 0x3E, 0x41, 0x41, 0x41, 0x22,
    0x7F, 0x41, 0x41, 0x22, 0x1C, 0x7F, 0x49, 0x49, 0x49, 0x41, 0x7F, 0x09, 0x09, 0x09, 0x01,
    0x3E, 0x41, 0x49, 0x49, 0x7A, 0x7F, 0x08, 0x08, 0x08, 0x7F, 0x00, 0x41, 0x7F, 0x41, 0x00,
    0x20, 0x40, 0x41, 0x3F, 0x01, 0x7F, 0x08, 0x14, 0x22, 0x41, 0x7F, 0x40, 0x40, 0x40, 0x40,
    0x7F, 0x02, 0x0C, 0x02, 0x7F, 0x7F, 0x04, 0x08, 0x10, 0x7F, 0x3E, 0x41, 0x41, 0x41, 0x3E,
    0x7F, 0x09, 0x09, 0x09, 0x06, 0x3E, 0x41, 0x51, 0x21, 0x5E, 0x7F, 0x09, 0x19, 0x29, 0x46,
    0x46, 0x49, 0x49, 0x49, 0x31, 0x01, 0x01, 0x7F, 0x01, 0x01, 0x3F, 0x40, 0x40, 0x40, 0x3F,
    0x1F, 0x20, 0x40, 0x20, 0x1F, 0x3F, 0x40, 0x38, 0x40, 0x3F, 0x63, 0x14, 0x08, 0x14, 0x63,
    0x07, 0x08, 0x70, 0x08, 0x07, 0x61, 0x51, 0x49, 0x45, 0x43, 0x00, 0x7F, 0x41, 0x41, 0x00,
    0x02, 0x04, 0x08, 0x10, 0x20, 0x00, 0x41, 0x41, 0x7F, 0x00, 0x04, 0x02, 0x01, 0x02, 0x04,
    0x40, 0x40, 0x40, 0x40, 0x40, 0x00, 0x01, 0x02, 0x04, 0x00, 0x20, 0x54, 0x54, 0x54, 0x78,
    0x7F, 0x48, 0x44, 0x44, 0x38, 0x38, 0x44, 0x44, 0x44, 0x20, 0x38, 0x44, 0x44, 0x48, 0x7F,
    0x38, 0x54, 0x54, 0x54, 0x18, 0x08, 0x7E, 0x09, 0x01, 0x02, 0x0C, 0x52, 0x52, 0x52, 0x3E,
    0x7F, 0x08, 0x04, 0x04, 0x78, 0x00, 0x44, 0x7D, 0x40, 0x00, 0x20, 0x40, 0x44, 0x3D, 0x00,
    0x7F, 0x10, 0x28, 0x44, 0x00, 0x00, 0x41, 0x7F, 0x40, 0x00, 0x7C, 0x04, 0x18, 0x04, 0x78,
    0x7C, 0x08, 0x04, 0x04, 0x78, 0x38, 0x44, 0x44, 0x44, 0x38, 0x7C, 0x14, 0x14, 0x14, 0x08,
    0x08, 0x14, 0x14, 0x18, 0x7C, 0x7C, 0x08, 0x04, 0x04, 0x08, 0x48, 0x54, 0x54, 0x54, 0x20,
    0x04, 0x3F, 0x44, 0x40, 0x20, 0x3C, 0x40, 0x40, 0x20, 0x7C, 0x1C, 0x20, 0x40, 0x20, 0x1C,
    0x3C, 0x40, 0x30, 0x40, 0x3C, 0x44, 0x28, 0x10, 0x28, 0x44, 0x0C, 0x50, 0x50, 0x50, 0x3C,
    0x44, 0x64, 0x54, 0x4C, 0x44, 0x00, 0x08, 0x36, 0x41, 0x00, 0x00, 0x00, 0x7F, 0x00, 0x00,
    0x00, 0x41, 0x36, 0x08, 0x00, 0x08, 0x04, 0x08, 0x10, 0x08,
];

/// Built-in 4x6 glyphs of the printable ASCII characters, four column bytes each.
pub const SMALL_FONT_DATA: [u8; 380] = [
    0x00, 0x00, 0x00, 0x00, 0x00, 0x17, 0x00, 0x00, 0x03, 0x00, 0x03, 0x00, 0x1F, 0x0A, 0x1F, 0x00,
    0x12, 0x1F, 0x09, 0x00, 0x09, 0x04, 0x12, 0x00, 0x0A, 0x15, 0x1A, 0x00, 0x00, 0x03, 0x00, 0x00,
    0x00, 0x0E, 0x11, 0x00, 0x11, 0x0E, 0x00, 0x00, 0x0A, 0x04, 0x0A, 0x00, 0x04, 0x0E, 0x04, 0x00,
    0x10, 0x08, 0x00, 0x00, 0x04, 0x04, 0x04, 0x00, 0x00, 0x10, 0x00, 0x00, 0x18, 0x04, 0x03, 0x00,
    0x1F, 0x11, 0x1F, 0x00, 0x12, 0x1F, 0x10, 0x00, 0x1D, 0x15, 0x17, 0x00, 0x15, 0x15, 0x1F, 0x00,
    0x07, 0x04, 0x1F, 0x00, 0x17, 0x15, 0x1D, 0x00, 0x1F, 0x15, 0x1D, 0x00, 0x01, 0x19, 0x07, 0x00,
    0x1F, 0x15, 0x1F, 0x00, 0x17, 0x15, 0x1F, 0x00, 0x00, 0x0A, 0x00, 0x00, 0x10, 0x0A, 0x00, 0x00,
    0x04, 0x0A, 0x11, 0x00, 0x0A, 0x0A, 0x0A, 0x00, 0x11, 0x0A, 0x04, 0x00, 0x01, 0x15, 0x03, 0x00,
    0x0F, 0x15, 0x17, 0x00, 0x1E, 0x05, 0x1E, 0x00, 0x1F, 0x15, 0x0A, 0x00, 0x0E, 0x11, 0x11, 0x00,
    0x1F, 0x11, 0x0E, 0x00, 0x1F, 0x15, 0x15, 0x00, 0x1F, 0x05, 0x05, 0x00, 0x0E, 0x11, 0x1D, 0x00,
    0x1F, 0x04, 0x1F, 0x00, 0x11, 0x1F, 0x11, 0x00, 0x08, 0x10, 0x0F, 0x00, 0x1F, 0x04, 0x1B, 0x00,
    0x1F, 0x10, 0x10, 0x00, 0x1F, 0x06, 0x1F, 0x00, 0x1F, 0x0E, 0x1F, 0x00, 0x0E, 0x11, 0x0E, 0x00,
    0x1F, 0x05, 0x02, 0x00, 0x0E, 0x19, 0x1E, 0x00, 0x1F, 0x05, 0x1A, 0x00, 0x12, 0x15, 0x09, 0x00,
    0x01, 0x1F, 0x01, 0x00, 0x0F, 0x10, 0x1F, 0x00, 0x07, 0x18, 0x07, 0x00, 0x1F, 0x0C, 0x1F, 0x00,
    0x1B, 0x04, 0x1B, 0x00, 0x03, 0x1C, 0x03, 0x00, 0x19, 0x15, 0x13, 0x00, 0x1F, 0x11, 0x11, 0x00,
    0x02, 0x04, 0x08, 0x00, 0x11, 0x11, 0x1F, 0x00, 0x02, 0x01, 0x02, 0x00, 0x10, 0x10, 0x10, 0x00,
    0x01, 0x02, 0x00, 0x00, 0x1A, 0x16, 0x1C, 0x00, 0x1F, 0x12, 0x0C, 0x00, 0x0C, 0x12, 0x12, 0x00,
    0x0C, 0x12, 0x1F, 0x00, 0x0C, 0x1A, 0x16, 0x00, 0x04, 0x1E, 0x05, 0x00, 0x0C, 0x0A, 0x1E, 0x00,
    0x1F, 0x02, 0x1C, 0x00, 0x00, 0x1D, 0x00, 0x00, 0x08, 0x10, 0x0D, 0x00, 0x1F, 0x0C, 0x12, 0x00,
    0x11, 0x1F, 0x10, 0x00, 0x1E, 0x0E, 0x1E, 0x00, 0x1E, 0x02, 0x1C, 0x00, 0x0C, 0x12, 0x0C, 0x00,
    0x1E, 0x0A, 0x04, 0x00, 0x04, 0x0A, 0x1E, 0x00, 0x1C, 0x02, 0x02, 0x00, 0x14, 0x1E, 0x0A, 0x00,
    0x02, 0x1F, 0x12, 0x00, 0x0E, 0x10, 0x1E, 0x00, 0x06, 0x18, 0x06, 0x00, 0x1E, 0x1C, 0x1E, 0x00,
    0x12, 0x0C, 0x12, 0x00, 0x06, 0x08, 0x1E, 0x00, 0x1A, 0x1E, 0x16, 0x00, 0x04, 0x1F, 0x11, 0x00,
    0x00, 0x1B, 0x00, 0x00, 0x11, 0x1F, 0x04, 0x00, 0x02, 0x06, 0x04, 0x00,
];

/// 5x7 degree sign.
pub const DEGREE_GLYPH: [u8; 5] = [0x00, 0x06, 0x09, 0x09, 0x06];
/// 5x7 upward arrow.
pub const ARROW_UP_GLYPH: [u8; 5] = [0x04, 0x02, 0x7F, 0x02, 0x04];
/// 5x7 downward arrow.
pub const ARROW_DOWN_GLYPH: [u8; 5] = [0x10, 0x20, 0x7F, 0x20, 0x10];
/// 4x6 degree sign.
pub const DEGREE_GLYPH_SMALL: [u8; 4] = [0x02, 0x05, 0x02, 0x00];
/// 4x6 upward arrow.
pub const ARROW_UP_GLYPH_SMALL: [u8; 4] = [0x02, 0x1F, 0x02, 0x00];
/// 4x6 downward arrow.
pub const ARROW_DOWN_GLYPH_SMALL: [u8; 4] = [0x08, 0x1F, 0x08, 0x00];

/// Slot of a printable ASCII character in an ASCII font table; other
/// characters without a glyph of their own use the slot of `'?'`.
pub open spec fn ascii_slot(c: char) -> int {
    let u = c as u32;
    if 32 <= u && u <= 126 {
        (u - 32) as int
    } else {
        31
    }
}

/// Standard glyph of `c` drawn from the ASCII table `font`.
pub open spec fn glyph_of(font: Seq<u8>, c: char) -> Seq<u8> {
    let u = c as u32;
    if 32 <= u && u <= 126 {
        font.subrange(ascii_slot(c) * 5, ascii_slot(c) * 5 + 5)
    } else if c == '\u{B0}' {
        DEGREE_GLYPH@
    } else if c == '\u{2191}' {
        ARROW_UP_GLYPH@
    } else if c == '\u{2193}' {
        ARROW_DOWN_GLYPH@
    } else {
        font.subrange(ascii_slot(c) * 5, ascii_slot(c) * 5 + 5)
    }
}

/// Small glyph of `c`.
pub open spec fn small_glyph_of(c: char) -> Seq<u8> {
    let u = c as u32;
    if 32 <= u && u <= 126 {
        SMALL_FONT_DATA@.subrange(ascii_slot(c) * 4, ascii_slot(c) * 4 + 4)
    } else if c == '\u{B0}' {
        DEGREE_GLYPH_SMALL@
    } else if c == '\u{2191}' {
        ARROW_UP_GLYPH_SMALL@
    } else if c == '\u{2193}' {
        ARROW_DOWN_GLYPH_SMALL@
    } else {
        SMALL_FONT_DATA@.subrange(ascii_slot(c) * 4, ascii_slot(c) * 4 + 4)
    }
}

fn slot(c: char) -> (r: usize)
    ensures
        r == ascii_slot(c),
        r <= 94,
{
    let u = c as u32;
    if 32 <= u && u <= 126 {
        (u - 32) as usize
    } else {
        31
    }
}

/// Standard glyph of `c` from the ASCII table `font`.
pub fn glyph(font: &[u8; 475], c: char) -> (g: [u8; 5])
    ensures
        g@ == glyph_of(font@, c),
{
    if c == '\u{B0}' {
        return DEGREE_GLYPH;
    } else if c == '\u{2191}' {
        return ARROW_UP_GLYPH;
    } else if c == '\u{2193}' {
        return ARROW_DOWN_GLYPH;
    }
    let b = slot(c) * 5;
    let g = [font[b], font[b + 1], font[b + 2], font[b + 3], font[b + 4]];
    assert(g@ =~= font@.subrange(b as int, b + 5));
    g
}

/// Small glyph of `c`.
pub fn glyph_small(c: char) -> (g: [u8; 4])
    ensures
        g@ == small_glyph_of(c),
{
    if c == '\u{B0}' {
        return DEGREE_GLYPH_SMALL;
    } else if c == '\u{2191}' {
        return ARROW_UP_GLYPH_SMALL;
    } else if c == '\u{2193}' {
        return ARROW_DOWN_GLYPH_SMALL;
    }
    let b = slot(c) * 4;
    let g = [SMALL_FONT_DATA[b], SMALL_FONT_DATA[b + 1], SMALL_FONT_DATA[b + 2], SMALL_FONT_DATA[b + 3]];
    assert(g@ =~= SMALL_FONT_DATA@.subrange(b as int, b + 4));
    g
}

/// The arrows point the way their characters say, whatever the ASCII
/// table: `'\u{2191}'` is an upward arrow (full shaft in the middle
/// column, head at the top: bit 2 set and bit 4 clear in the outer
/// columns) and `'\u{2193}'` a downward one (head at the bottom: bit 4 set
/// and bit 2 clear); `'\u{B0}'` is the degree ring in the top rows.
pub proof fn law_arrow_glyphs_point_their_way(font: Seq<u8>)
    ensures
        glyph_of(font, '\u{2191}') == seq![0x04u8, 0x02u8, 0x7Fu8, 0x02u8, 0x04u8],
        glyph_of(font, '\u{2193}') == seq![0x10u8, 0x20u8, 0x7Fu8, 0x20u8, 0x10u8],
        glyph_of(font, '\u{B0}') == seq![0x00u8, 0x06u8, 0x09u8, 0x09u8, 0x06u8],
        glyph_of(font, '\u{2191}')[0] & 0x04 != 0 && glyph_of(font, '\u{2191}')[0] & 0x10 == 0,
        glyph_of(font, '\u{2193}')[0] & 0x10 != 0 && glyph_of(font, '\u{2193}')[0] & 0x04 == 0,
        small_glyph_of('\u{2191}') == seq![0x02u8, 0x1Fu8, 0x02u8, 0x00u8],
        small_glyph_of('\u{2193}') == seq![0x08u8, 0x1Fu8, 0x08u8, 0x00u8],
{
    assert(glyph_of(font, '\u{2191}') =~= seq![0x04u8, 0x02u8, 0x7Fu8, 0x02u8, 0x04u8]);
    assert(glyph_of(font, '\u{2193}') =~= seq![0x10u8, 0x20u8, 0x7Fu8, 0x20u8, 0x10u8]);
    assert(glyph_of(font, '\u{B0}') =~= seq![0x00u8, 0x06u8, 0x09u8, 0x09u8, 0x06u8]);
    assert(small_glyph_of('\u{2191}') =~= seq![0x02u8, 0x1Fu8, 0x02u8, 0x00u8]);
    assert(small_glyph_of('\u{2193}') =~= seq![0x08u8, 0x1Fu8, 0x08u8, 0x00u8]);
    assert(0x04u8 & 0x04u8 != 0 && 0x04u8 & 0x10u8 == 0) by (bit_vector);
    assert(0x10u8 & 0x10u8 != 0 && 0x10u8 & 0x04u8 == 0) by (bit_vector);
}

} // verus!
