//! Glyph keys and placement records.

use crate::packer::Rect;
use vstd::prelude::*;

verus! {

/// Which glyph: a font, a character, a size. Two requests with the same key
/// are requests for the same glyph.
#[derive(Clone, Copy, Debug, PartialEq, Eq, Hash, Structural)]
pub struct GlyphKey {
    /// The handle under which the rasterizer knows the font.
    pub font: u32,
    pub character: char,
    /// The size, in the rasterizer's own unit.
    pub size: u32,
}

impl GlyphKey {
    /// The key as one number: the font in bits 64 and up, the character in
    /// bits 32 to 63, the size in the low 32 bits.
    pub open spec fn code_of(self) -> int {
        self.font * 0x1_0000_0000_0000_0000 + (self.character as u32) * 0x1_0000_0000 + self.size
    }

    /// The key as one number, under which the cache files the glyph.
    pub fn code(&self) -> (c: u128)
        ensures
            c == self.code_of(),
    {
        let font: u128 = self.font as u128;
        let character: u128 = self.character as u32 as u128;
        let size: u128 = self.size as u128;
        font * 0x1_0000_0000_0000_0000u128 + character * 0x1_0000_0000u128 + size
    }
}

/// Different keys have different codes.
pub proof fn lemma_code_tells_keys_apart(a: GlyphKey, b: GlyphKey)
    requires
        a.code_of() == b.code_of(),
    ensures
        a == b,
{
    // The font stands above bit 64, and what stands below is less than that.
    if a.font < b.font {
        assert(b.font * 0x1_0000_0000_0000_0000 >= a.font * 0x1_0000_0000_0000_0000
            + 0x1_0000_0000_0000_0000);
    }
    if b.font < a.font {
        assert(a.font * 0x1_0000_0000_0000_0000 >= b.font * 0x1_0000_0000_0000_0000
            + 0x1_0000_0000_0000_0000);
    }
    // Likewise the character above bit 32.
    if (a.character as u32) < (b.character as u32) {
        assert((b.character as u32) * 0x1_0000_0000 >= (a.character as u32) * 0x1_0000_0000
            + 0x1_0000_0000);
    }
    if (b.character as u32) < (a.character as u32) {
        assert((a.character as u32) * 0x1_0000_0000 >= (b.character as u32) * 0x1_0000_0000
            + 0x1_0000_0000);
    }
}

/// Where a glyph lies in the atlas, and how to set it on the line.
///
/// The texture coordinates of the glyph are the pixel rectangle divided by
/// the size of the page: `x / page_width`, `y / page_height` for its top left
/// corner, `width / page_width`, `height / page_height` for its extent.
#[derive(Clone, Copy, Debug, PartialEq, Eq, Structural)]
pub struct Glyph {
    /// The number of the page that holds the glyph. Pages count from 0.
    pub page: usize,
    /// Column of the leftmost pixel on the page.
    pub x: u32,
    /// Row of the topmost pixel on the page.
    pub y: u32,
    /// Columns of pixels.
    pub width: u32,
    /// Rows of pixels.
    pub height: u32,
    /// Width of the page in pixels.
    pub page_width: u32,
    /// Height of the page in pixels.
    pub page_height: u32,
    /// How far the top of the bitmap lies above the lowest point of the
    /// font, in 64ths of a pixel: the top bearing of the bitmap less the
    /// descent of the font. Glyphs of one font then stand on one line.
    pub top: i64,
    /// Columns from the origin to the left edge of the bitmap.
    pub left: i32,
}

impl Glyph {
    /// The top bearing of a bitmap less the descent of its font, in 64ths of
    /// a pixel. The bearing counts whole pixels, the descent 64ths.
    pub open spec fn top_above_descent(top: i32, descent: i32) -> int {
        64 * top - descent
    }

    /// The pixels of the glyph on its page.
    pub open spec fn rect(self) -> Rect {
        Rect { x: self.x, y: self.y, width: self.width, height: self.height }
    }

    /// The page has pixels and the glyph lies on it. Divided by the size of
    /// the page, the rectangle then lies in the unit square: both texture
    /// coordinates start at 0 or above and end at 1 or below.
    pub open spec fn in_page(self) -> bool {
        &&& 0 < self.page_width
        &&& 0 < self.page_height
        &&& 0 <= self.x
        &&& self.x + self.width <= self.page_width
        &&& 0 <= self.y
        &&& self.y + self.height <= self.page_height
    }
}

} // verus!
