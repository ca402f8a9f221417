//! What the atlas reports when it refuses a glyph.

use vstd::prelude::*;
use vstd::string::*;

verus! {

/// What can be wrong with a glyph that is handed to the atlas.
#[derive(Clone, Copy, Debug, PartialEq, Eq, Structural)]
pub enum AtlasError {
    /// A three-channel buffer whose length is no multiple of three.
    MalformedBitmap,
    /// The bitmap is as wide as a whole page or wider, or taller than one.
    GlyphTooLarge,
}

impl AtlasError {
    /// The error in words.
    pub open spec fn words(self) -> Seq<char> {
        match self {
            AtlasError::MalformedBitmap => "bitmap does not end on a whole pixel"@,
            AtlasError::GlyphTooLarge => "glyph is larger than a texture page"@,
        }
    }

    /// The error in words, for a log or a message to the user.
    pub fn message(&self) -> (text: String)
        ensures
            text@ == self.words(),
    {
        match self {
            AtlasError::MalformedBitmap => String::from_str("bitmap does not end on a whole pixel"),
            AtlasError::GlyphTooLarge => String::from_str("glyph is larger than a texture page"),
        }
    }
}

} // verus!
