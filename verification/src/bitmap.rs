//! Rasterized bitmaps and their normal form.
//!
//! A rasterizer hands back three or four bytes per pixel. The atlas uploads
//! four: red, green, blue, alpha.

use crate::error::AtlasError;
use vstd::prelude::*;

verus! {

/// The pixels of a rasterized glyph, row by row.
#[derive(Debug)]
pub enum PixelBuffer {
    /// Three bytes per pixel: red, green, blue.
    Rgb(Vec<u8>),
    /// Four bytes per pixel: red, green, blue, alpha.
    Rgba(Vec<u8>),
}

/// What a rasterizer hands back for one glyph.
#[derive(Debug)]
pub struct Bitmap {
    /// Columns of pixels.
    pub width: u32,
    /// Rows of pixels.
    pub height: u32,
    /// Rows from the baseline up to the top of the bitmap.
    pub top: i32,
    /// Columns from the origin to the left edge of the bitmap.
    pub left: i32,
    pub buffer: PixelBuffer,
}

/// The alpha given to a pixel that came without one: its strongest channel.
pub open spec fn alpha_of(r: u8, g: u8, b: u8) -> u8 {
    if r >= g && r >= b {
        r
    } else if g >= b {
        g
    } else {
        b
    }
}

/// The alpha of a pixel is the maximum of its channels: it is one of them,
/// and none of them is above it.
pub proof fn lemma_alpha_is_the_maximum(r: u8, g: u8, b: u8)
    ensures
        alpha_of(r, g, b) >= r,
        alpha_of(r, g, b) >= g,
        alpha_of(r, g, b) >= b,
        alpha_of(r, g, b) == r || alpha_of(r, g, b) == g || alpha_of(r, g, b) == b,
{
}

/// The four-channel form of a three-channel buffer: each pixel keeps its
/// three bytes and gains `alpha_of` them as the fourth. Bytes after the last
/// whole pixel are not part of it.
pub open spec fn rgba_of_rgb(rgb: Seq<u8>) -> Seq<u8> {
    Seq::new(
        (rgb.len() / 3 * 4) as nat,
        |i: int|
            if i % 4 == 3 {
                alpha_of(rgb[i / 4 * 3], rgb[i / 4 * 3 + 1], rgb[i / 4 * 3 + 2])
            } else {
                rgb[i / 4 * 3 + i % 4]
            },
    )
}

impl PixelBuffer {
    /// The bytes as they are handed in.
    pub open spec fn bytes(self) -> Seq<u8> {
        match self {
            PixelBuffer::Rgb(v) => v@,
            PixelBuffer::Rgba(v) => v@,
        }
    }

    /// A three-channel buffer that does not end on a whole pixel.
    pub open spec fn malformed(self) -> bool {
        self is Rgb && self.bytes().len() % 3 != 0
    }

    /// The four-channel bytes that stand for this buffer.
    pub open spec fn normalized(self) -> Seq<u8> {
        match self {
            PixelBuffer::Rgb(v) => rgba_of_rgb(v@),
            PixelBuffer::Rgba(v) => v@,
        }
    }
}

/// The strongest of three channels.
pub fn strongest(r: u8, g: u8, b: u8) -> (a: u8)
    ensures
        a == alpha_of(r, g, b),
{
    if r >= g && r >= b {
        r
    } else if g >= b {
        g
    } else {
        b
    }
}

/// Brings a buffer to four channels. A four-channel buffer comes back as it
/// is. A three-channel buffer gains an alpha byte per pixel, and is refused
/// when it does not end on a whole pixel.
pub fn normalize(buffer: PixelBuffer) -> (r: Result<Vec<u8>, AtlasError>)
    ensures
        buffer.malformed() ==> r == Err::<Vec<u8>, AtlasError>(AtlasError::MalformedBitmap),
        !buffer.malformed() ==> r is Ok && r->Ok_0@ == buffer.normalized(),
{
    match buffer {
        PixelBuffer::Rgba(bytes) => Ok(bytes),
        PixelBuffer::Rgb(bytes) => {
            let len: usize = bytes.len();
            if len % 3 != 0 {
                return Err(AtlasError::MalformedBitmap);
            }
            let pixels: usize = len / 3;
            let mut out: Vec<u8> = Vec::new();
            let mut i: usize = 0;
            while i < pixels
                invariant
                    bytes@.len() == len == 3 * pixels,
                    i <= pixels,
                    out@.len() == 4 * i,
                    forall|k: int| 0 <= k < out@.len() ==> out@[k] == rgba_of_rgb(bytes@)[k],
                decreases pixels - i,
            {
                let r: u8 = bytes[3 * i];
                let g: u8 = bytes[3 * i + 1];
                let b: u8 = bytes[3 * i + 2];
                out.push(r);
                out.push(g);
                out.push(b);
                out.push(strongest(r, g, b));
                i = i + 1;
            }
            Ok(out)
        },
    }
}

} // verus!
