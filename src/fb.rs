use vstd::prelude::*;
use crate::api::PixelColor;

verus! {

/// Words of 32 bits per scanline.
pub const LCD_WORDS_PER_LINE: usize = 11;
/// Addressable pixel columns per scanline.
pub const LCD_PX_PER_LINE: usize = 336;
/// Scanlines.
pub const LCD_LINES: usize = 536;
/// Words in the whole framebuffer.
pub const LCD_FRAME_BUF_SIZE: usize = 5896;

pub const WIDTH: i16 = 336;
pub const HEIGHT: i16 = 536;

/// Bit of the last word of a scanline that flags the row as changed.
pub const DIRTY_BIT: u32 = 0x1_0000;

/// A 336 x 536 one-bit-per-pixel bitmap, row-major, 11 words per scanline;
/// a set bit is a light pixel.
pub type LcdFB = [u32; LCD_FRAME_BUF_SIZE];

/// The row a plot at `(x, y)` lands on. A row out of range goes to the last
/// row; a column out of range sends the write to row 335, whatever `y` was.
pub open spec fn plot_row(x: int, y: int) -> int {
    if 0 <= x < 336 {
        if 0 <= y < 536 { y } else { 535 }
    } else {
        335
    }
}

/// Position of the addressed bit, counted over the whole buffer.
pub open spec fn plot_pos(x: int, y: int) -> int {
    plot_row(x, y) * 352 + x
}

/// Index of the word that holds the addressed bit.
pub open spec fn plot_word(x: int, y: int) -> int {
    plot_pos(x, y) / 32
}

/// Mask of the addressed bit inside its word.
pub open spec fn plot_mask(x: int, y: int) -> u32 {
    1u32 << ((plot_pos(x, y) % 32) as u32)
}

/// Index of the word that holds the dirty flag of the row written.
pub open spec fn dirty_word(x: int, y: int) -> int {
    plot_row(x, y) * 11 + 10
}

/// Sets the dirty flag of the row that a plot at `(x, y)` writes.
pub open spec fn mark_dirty(fb: Seq<u32>, x: int, y: int) -> Seq<u32> {
    fb.update(dirty_word(x, y), fb[dirty_word(x, y)] | DIRTY_BIT)
}

/// The buffer after plotting `color` at `(x, y)`.
pub open spec fn put_pixel_spec(fb: Seq<u32>, x: int, y: int, color: PixelColor) -> Seq<u32> {
    let w = plot_word(x, y);
    let v = if color == PixelColor::Light { fb[w] | plot_mask(x, y) } else { fb[w] & !plot_mask(x, y) };
    mark_dirty(fb.update(w, v), x, y)
}

/// The buffer after toggling the pixel at `(x, y)`.
pub open spec fn xor_pixel_spec(fb: Seq<u32>, x: int, y: int) -> Seq<u32> {
    let w = plot_word(x, y);
    mark_dirty(fb.update(w, fb[w] ^ plot_mask(x, y)), x, y)
}

/// Whether the pixel at `(x, y)` (as addressed by a plot there) is light.
pub open spec fn pixel_is_light(fb: Seq<u32>, x: int, y: int) -> bool {
    fb[plot_word(x, y)] & plot_mask(x, y) != 0
}

/// Whether the dirty flag of row `row` is set.
pub open spec fn row_dirty(fb: Seq<u32>, row: int) -> bool {
    fb[row * 11 + 10] & DIRTY_BIT != 0
}

/// Word and bit position of a plot at `(x, y)`, both in range.
fn plot_address(x: i16, y: i16) -> (r: (usize, u32, usize))
    ensures
        r.0 == plot_word(x as int, y as int),
        r.1 == plot_pos(x as int, y as int) % 32,
        r.2 == dirty_word(x as int, y as int),
        r.0 < LCD_FRAME_BUF_SIZE,
        r.2 < LCD_FRAME_BUF_SIZE,
{
    let xi = x as i32;
    let yi = y as i32;
    let mut row: i32 = if yi < 0 || yi >= 536 { 535 } else { yi };
    if xi < 0 || xi >= 336 {
        row = 335;
    }
    assert(0 <= row < 536);
    let pos: i32 = row * 352 + xi;
    assert(pos >= 0 && pos / 32 < 5896);
    let word = (pos / 32) as usize;
    let bit = (pos % 32) as u32;
    let dirty = (row * 11 + 10) as usize;
    (word, bit, dirty)
}

/// Plots `color` at `(x, y)`: sets the bit for light, clears it for dark,
/// and flags the row written as dirty. Coordinates out of range are clamped
/// as `plot_row` says; no coordinate makes it fail.
pub fn put_pixel(fb: &mut LcdFB, x: i16, y: i16, color: PixelColor)
    ensures
        final(fb)@ == put_pixel_spec(old(fb)@, x as int, y as int, color),
{
    let (w, bit, d) = plot_address(x, y);
    let mask: u32 = 1u32 << bit;
    if color == PixelColor::Light {
        fb[w] = fb[w] | mask;
    } else {
        fb[w] = fb[w] & !mask;
    }
    fb[d] = fb[d] | DIRTY_BIT;
}

/// Toggles the pixel at `(x, y)` and flags the row written as dirty, with
/// the same clamping as `put_pixel`.
pub fn xor_pixel(fb: &mut LcdFB, x: i16, y: i16)
    ensures
        final(fb)@ == xor_pixel_spec(old(fb)@, x as int, y as int),
{
    let (w, bit, d) = plot_address(x, y);
    let mask: u32 = 1u32 << bit;
    fb[w] = fb[w] ^ mask;
    fb[d] = fb[d] | DIRTY_BIT;
}

} // verus!
