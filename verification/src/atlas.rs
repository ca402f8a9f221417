//! The atlas manager: the glyph cache and the texture pages behind it.
//!
//! A glyph that is asked for the first time is packed onto the active page,
//! the last one. When that page has no room, a new page becomes active.
//! Records are never changed or dropped, and pages are never reclaimed.

use crate::bitmap::{normalize, Bitmap};
use crate::error::AtlasError;
use crate::glyph::{lemma_code_tells_keys_apart, Glyph, GlyphKey};
use crate::packer::{
    lemma_apart_shares_no_pixel, lemma_place_keeps_valid, PageState, Placement, Rect, TexturePage,
};
use std::collections::HashMap;
use vstd::pervasive::unreached;
use vstd::prelude::*;

verus! {

/// Width and height of the pages of an atlas made by `Atlas::new`.
pub const DEFAULT_PAGE_SIZE: u32 = 4096;

/// What an atlas is, as numbers: the size of its pages, the height of the
/// first shelf of a new page, the pages in the order they were opened, and
/// the record of every glyph.
pub struct AtlasState {
    pub page_width: nat,
    pub page_height: nat,
    pub row_height: nat,
    pub pages: Seq<PageState>,
    pub glyphs: Map<GlyphKey, Glyph>,
}

impl AtlasState {
    /// An atlas without pages and without glyphs.
    pub open spec fn empty(page_width: nat, page_height: nat) -> AtlasState {
        AtlasState {
            page_width,
            page_height,
            row_height: 0,
            pages: Seq::empty(),
            glyphs: Map::empty(),
        }
    }

    /// `g` is a record of this atlas: it names one of the pages, carries the
    /// size of the pages, and its rectangle was handed out by that page.
    pub open spec fn holds(self, g: Glyph) -> bool {
        &&& g.page < self.pages.len()
        &&& g.page_width == self.page_width
        &&& g.page_height == self.page_height
        &&& self.pages[g.page as int].placed.contains(g.rect())
    }

    /// The pages have pixels and are valid, every record is a record of this
    /// atlas, and no two glyphs on one page meet.
    pub open spec fn valid(self) -> bool {
        &&& 0 < self.page_width <= u32::MAX
        &&& 0 < self.page_height <= u32::MAX
        &&& self.pages.len() <= usize::MAX
        &&& forall|p: int|
            0 <= p < self.pages.len() ==> {
                &&& (#[trigger] self.pages[p]).valid()
                &&& self.pages[p].width == self.page_width
                &&& self.pages[p].height == self.page_height
            }
        &&& forall|k: GlyphKey|
            #[trigger] self.glyphs.contains_key(k) ==> self.holds(self.glyphs[k])
        &&& forall|a: GlyphKey, b: GlyphKey|
            {
                &&& #[trigger] self.glyphs.contains_key(a)
                &&& #[trigger] self.glyphs.contains_key(b)
                &&& a != b
                &&& self.glyphs[a].page == self.glyphs[b].page
            } ==> self.glyphs[a].rect().apart(self.glyphs[b].rect())
    }

    /// No page can ever hold a bitmap of this size: it is as wide as a page
    /// or wider, or taller than a page.
    pub open spec fn too_large(self, width: u32, height: u32) -> bool {
        width >= self.page_width || height > self.page_height
    }

    /// Why a glyph is refused, if it is. A glyph that is already recorded is
    /// never refused, whatever bitmap comes with it.
    pub open spec fn refusal(self, key: GlyphKey, bitmap: Bitmap) -> Option<AtlasError> {
        if self.glyphs.contains_key(key) {
            None
        } else if bitmap.buffer.malformed() {
            Some(AtlasError::MalformedBitmap)
        } else if self.too_large(bitmap.width, bitmap.height) {
            Some(AtlasError::GlyphTooLarge)
        } else {
            None
        }
    }

    /// The height of the first shelf of a page that is opened for a bitmap
    /// of `height` rows: the row height of the atlas, unless the page has no
    /// room for such a shelf, or none for the bitmap on or below it. Then
    /// the page opens without a shelf.
    pub open spec fn first_row(self, height: u32) -> nat {
        if self.row_height <= self.page_height && (height <= self.row_height || self.row_height
            + height <= self.page_height) {
            self.row_height
        } else {
            0
        }
    }

    /// The active page has room for a bitmap of this size.
    pub open spec fn active_has_room(self, width: u32, height: u32) -> bool {
        self.pages.len() > 0 && self.pages.last().place(width, height) is Some
    }

    /// The pages after room has been made for a bitmap that is not too
    /// large: on the active page if it has room, and on a new page otherwise.
    pub open spec fn with_room(self, width: u32, height: u32) -> Seq<PageState> {
        if self.active_has_room(width, height) {
            self.pages.update(self.pages.len() - 1, self.pages.last().place(width, height)->0)
        } else {
            self.pages.push(
                PageState::fresh(self.page_width, self.page_height, self.first_row(height)).place(
                    width,
                    height,
                )->0,
            )
        }
    }

    /// The record of a glyph that has just been placed: it lies on the last
    /// page, in the rectangle that this page handed out last, and its top is
    /// measured from the descent of the font.
    pub open spec fn record(pages: Seq<PageState>, bitmap: Bitmap, descent: i32) -> Glyph {
        Glyph {
            page: (pages.len() - 1) as usize,
            x: pages.last().placed.last().x,
            y: pages.last().placed.last().y,
            width: bitmap.width,
            height: bitmap.height,
            page_width: pages.last().width as u32,
            page_height: pages.last().height as u32,
            top: Glyph::top_above_descent(bitmap.top, descent) as i64,
            left: bitmap.left,
        }
    }

    /// The atlas after a glyph has been handed in. A glyph that is already
    /// recorded, or that is refused, leaves the atlas as it is.
    pub open spec fn add_glyph(self, key: GlyphKey, bitmap: Bitmap, descent: i32) -> AtlasState {
        if self.glyphs.contains_key(key) || self.refusal(key, bitmap) is Some {
            self
        } else {
            let pages = self.with_room(bitmap.width, bitmap.height);
            AtlasState {
                pages,
                glyphs: self.glyphs.insert(key, Self::record(pages, bitmap, descent)),
                ..self
            }
        }
    }
}

/// What the atlas answers when a glyph is handed in.
#[derive(Debug)]
pub struct Added {
    /// The record of the glyph.
    pub glyph: Glyph,
    /// The four-channel bytes to write into the glyph's rectangle on its
    /// page, row by row. `None` when the glyph was recorded before: then
    /// nothing is to be written.
    pub upload: Option<Vec<u8>>,
}

/// The glyph cache and the texture pages.
pub struct Atlas {
    page_width: u32,
    page_height: u32,
    row_height: u32,
    pages: Vec<TexturePage>,
    glyphs: HashMap<u128, Glyph>,
}

impl View for Atlas {
    type V = AtlasState;

    closed spec fn view(&self) -> AtlasState {
        AtlasState {
            page_width: self.page_width as nat,
            page_height: self.page_height as nat,
            row_height: self.row_height as nat,
            pages: Seq::new(self.pages@.len(), |p: int| self.pages@[p]@),
            glyphs: Map::new(
                |k: GlyphKey| self.glyphs@.contains_key(k.code_of() as u128),
                |k: GlyphKey| self.glyphs@[k.code_of() as u128],
            ),
        }
    }
}

impl Atlas {
    /// Every atlas made and changed by this module is well formed.
    pub open spec fn wf(&self) -> bool {
        self@.valid()
    }

    /// An atlas with pages of 4096 by 4096 pixels, without glyphs.
    pub fn new() -> (atlas: Atlas)
        ensures
            atlas.wf(),
            atlas@ == AtlasState::empty(DEFAULT_PAGE_SIZE as nat, DEFAULT_PAGE_SIZE as nat),
    {
        let atlas = Atlas {
            page_width: DEFAULT_PAGE_SIZE,
            page_height: DEFAULT_PAGE_SIZE,
            row_height: 0,
            pages: Vec::new(),
            glyphs: HashMap::new(),
        };
        assert(atlas@.pages =~= Seq::empty());
        assert(atlas@.glyphs =~= Map::empty());
        atlas
    }

    /// An atlas with pages of `page_width` by `page_height` pixels, without
    /// glyphs. `None` when such a page would have no pixel.
    pub fn with_page_size(page_width: u32, page_height: u32) -> (r: Option<Atlas>)
        ensures
            r is Some <==> page_width > 0 && page_height > 0,
            r matches Some(atlas) ==> atlas.wf() && atlas@ == AtlasState::empty(
                page_width as nat,
                page_height as nat,
            ),
    {
        if page_width == 0 || page_height == 0 {
            return None;
        }
        let atlas = Atlas {
            page_width,
            page_height,
            row_height: 0,
            pages: Vec::new(),
            glyphs: HashMap::new(),
        };
        assert(atlas@.pages =~= Seq::empty());
        assert(atlas@.glyphs =~= Map::empty());
        Some(atlas)
    }

    /// Takes note of a font that the rasterizer has loaded: its line height
    /// is the height of the first shelf of every page that is opened from now
    /// on. Pages that are open and glyphs that are recorded stay as they are.
    pub fn load_font(&mut self, line_height: u32)
        requires
            old(self).wf(),
        ensures
            final(self).wf(),
            final(self)@ == (AtlasState { row_height: line_height as nat, ..old(self)@ }),
    {
        self.row_height = line_height;
    }

    /// The record of a glyph, if the glyph has been added. This is the fast
    /// path: nothing is rasterized, packed or changed.
    pub fn get_glyph(&self, key: GlyphKey) -> (r: Option<Glyph>)
        requires
            self.wf(),
        ensures
            self@.glyphs.contains_key(key) ==> r == Some(self@.glyphs[key]),
            !self@.glyphs.contains_key(key) ==> r is None,
            r matches Some(g) ==> g.in_page() && self@.holds(g),
    {
        let code: u128 = key.code();
        match self.glyphs.get(&code) {
            Some(g) => {
                proof {
                    lemma_record_in_page(self@, key);
                }
                Some(*g)
            },
            None => None,
        }
    }

    /// Hands in the rasterized bitmap of a glyph, and the descent of its font
    /// in 64ths of a pixel.
    ///
    /// A glyph that is recorded already keeps its record, and nothing is to
    /// be uploaded. Otherwise the bitmap is brought to four channels, packed
    /// onto the active page, or onto a new page when the active one has no
    /// room, and recorded. The answer holds the record and the bytes to
    /// upload. A refused glyph leaves the atlas as it was.
    pub fn add_glyph(&mut self, key: GlyphKey, bitmap: Bitmap, descent: i32) -> (r: Result<
        Added,
        AtlasError,
    >)
        requires
            old(self).wf(),
        ensures
            final(self).wf(),
            final(self)@ == old(self)@.add_glyph(key, bitmap, descent),
            match r {
                Ok(added) => {
                    &&& old(self)@.refusal(key, bitmap) is None
                    &&& final(self)@.glyphs.contains_key(key)
                    &&& added.glyph == final(self)@.glyphs[key]
                    &&& added.glyph.in_page()
                    &&& match added.upload {
                        Some(bytes) => !old(self)@.glyphs.contains_key(key) && bytes@
                            == bitmap.buffer.normalized(),
                        None => old(self)@.glyphs.contains_key(key),
                    }
                },
                Err(e) => old(self)@.refusal(key, bitmap) == Some(e),
            },
            old(self)@.glyphs.contains_key(key) ==> final(self)@ == old(self)@,
    {
        let code: u128 = key.code();
        match self.glyphs.get(&code) {
            Some(g) => {
                proof {
                    lemma_record_in_page(self@, key);
                }
                return Ok(Added { glyph: *g, upload: None });
            },
            None => {},
        }
        let Bitmap { width, height, top, left, buffer } = bitmap;
        let bytes: Vec<u8> = match normalize(buffer) {
            Ok(bytes) => bytes,
            Err(e) => {
                return Err(e);
            },
        };
        if width >= self.page_width || height > self.page_height {
            return Err(AtlasError::GlyphTooLarge);
        }
        let ghost before = self@;
        let open: usize = self.pages.len();
        let mut placement: Placement = Placement::NeedsNewPage;
        if open > 0 {
            assert(self.pages@[open - 1]@ == before.pages[open - 1]);
            placement = self.pages[open - 1].place(width, height);
        }
        if let Placement::NeedsNewPage = placement {
            let row: u32 = if self.row_height <= self.page_height && (height <= self.row_height
                || height <= self.page_height - self.row_height) {
                self.row_height
            } else {
                0
            };
            let mut page = TexturePage::new(self.page_width, self.page_height, row);
            placement = page.place(width, height);
            self.pages.push(page);
        }
        let ghost pages = before.with_room(width, height);
        assert(self@.pages =~= pages);
        let (x, y): (u32, u32) = match placement {
            Placement::Placed { x, y } => (x, y),
            Placement::NeedsNewPage => unreached(),
        };
        let glyph = Glyph {
            page: self.pages.len() - 1,
            x,
            y,
            width,
            height,
            page_width: self.page_width,
            page_height: self.page_height,
            top: 64 * (top as i64) - (descent as i64),
            left,
        };
        self.glyphs.insert(code, glyph);
        proof {
            assert forall|k: GlyphKey| k.code_of() == key.code_of() implies k == key by {
                lemma_code_tells_keys_apart(k, key);
            }
            assert(self@.glyphs =~= before.glyphs.insert(key, glyph));
            lemma_add_keeps_valid(before, key, bitmap, descent);
        }
        Ok(Added { glyph, upload: Some(bytes) })
    }

    /// Width of every page in pixels.
    pub fn page_width(&self) -> (w: u32)
        ensures
            w == self@.page_width,
    {
        self.page_width
    }

    /// Height of every page in pixels.
    pub fn page_height(&self) -> (h: u32)
        ensures
            h == self@.page_height,
    {
        self.page_height
    }

    /// Height of the first shelf of the pages that are opened from now on.
    pub fn row_height(&self) -> (h: u32)
        ensures
            h == self@.row_height,
    {
        self.row_height
    }

    /// How many pages have been opened. The active page is the last one.
    pub fn page_count(&self) -> (n: usize)
        ensures
            n == self@.pages.len(),
    {
        self.pages.len()
    }
}

/// A glyph is packed once. After a glyph has been added, its record is there,
/// and handing the glyph in again, with whatever bitmap, is never refused
/// and changes nothing: not the record, not the pages.
pub proof fn lemma_add_is_idempotent(
    s: AtlasState,
    key: GlyphKey,
    first: Bitmap,
    first_descent: i32,
    second: Bitmap,
    second_descent: i32,
)
    requires
        s.refusal(key, first) is None,
    ensures
        ({
            let t = s.add_glyph(key, first, first_descent);
            &&& t.glyphs.contains_key(key)
            &&& t.refusal(key, second) is None
            &&& t.add_glyph(key, second, second_descent) == t
        }),
{
}

/// Records are only added: whatever is handed in, a glyph that was recorded
/// keeps its record.
pub proof fn lemma_add_keeps_records(
    s: AtlasState,
    key: GlyphKey,
    bitmap: Bitmap,
    descent: i32,
    other: GlyphKey,
)
    requires
        s.glyphs.contains_key(other),
    ensures
        s.add_glyph(key, bitmap, descent).glyphs.contains_key(other),
        s.add_glyph(key, bitmap, descent).glyphs[other] == s.glyphs[other],
{
}

/// No pixel of a page belongs to two glyphs of a valid atlas.
pub proof fn lemma_glyphs_never_overlap(s: AtlasState, a: GlyphKey, b: GlyphKey, px: int, py: int)
    requires
        s.valid(),
        s.glyphs.contains_key(a),
        s.glyphs.contains_key(b),
        a != b,
        s.glyphs[a].page == s.glyphs[b].page,
    ensures
        !(s.glyphs[a].rect().covers(px, py) && s.glyphs[b].rect().covers(px, py)),
{
    lemma_apart_shares_no_pixel(s.glyphs[a].rect(), s.glyphs[b].rect(), px, py);
}

/// A record of a valid atlas lies on its page, and the page has pixels.
pub proof fn lemma_record_in_page(s: AtlasState, key: GlyphKey)
    requires
        s.valid(),
        s.glyphs.contains_key(key),
    ensures
        s.glyphs[key].in_page(),
        s.holds(s.glyphs[key]),
{
}

/// Adding a glyph keeps an atlas valid, as long as the pages can still be
/// counted.
pub proof fn lemma_add_keeps_valid(s: AtlasState, key: GlyphKey, bitmap: Bitmap, descent: i32)
    requires
        s.valid(),
        s.pages.len() < usize::MAX || s.active_has_room(bitmap.width, bitmap.height),
    ensures
        s.add_glyph(key, bitmap, descent).valid(),
{
    if !s.glyphs.contains_key(key) && s.refusal(key, bitmap) is None {
        lemma_room_is_made(s, bitmap.width, bitmap.height);
    }
}

/// Rollover: a glyph that is not refused always finds room. It lands on the
/// active page if that page has room. Otherwise one page is opened, the
/// glyph lands at its left edge, and this page is the active one from then
/// on. Either way the glyph lies inside its page.
pub proof fn lemma_full_page_opens_a_page(
    s: AtlasState,
    key: GlyphKey,
    bitmap: Bitmap,
    descent: i32,
)
    requires
        s.valid(),
        s.pages.len() < usize::MAX,
        !s.glyphs.contains_key(key),
        s.refusal(key, bitmap) is None,
    ensures
        ({
            let t = s.add_glyph(key, bitmap, descent);
            let g = t.glyphs[key];
            &&& t.glyphs.contains_key(key)
            &&& g.in_page()
            &&& g.page == t.pages.len() - 1
            &&& g.width == bitmap.width
            &&& g.height == bitmap.height
            &&& s.active_has_room(bitmap.width, bitmap.height) ==> t.pages.len() == s.pages.len()
            &&& !s.active_has_room(bitmap.width, bitmap.height) ==> t.pages.len() == s.pages.len()
                + 1 && g.x == 0
        }),
{
    lemma_add_keeps_valid(s, key, bitmap, descent);
    lemma_record_in_page(s.add_glyph(key, bitmap, descent), key);
    lemma_room_is_made(s, bitmap.width, bitmap.height);
}

/// Making room for a bitmap that is not too large keeps the pages valid and
/// what they hold, and adds one rectangle of the bitmap's size to the last
/// page, apart from all that this page held.
pub proof fn lemma_room_is_made(s: AtlasState, width: u32, height: u32)
    requires
        s.valid(),
        !s.too_large(width, height),
    ensures
        ({
            let pages = s.with_room(width, height);
            let last = pages.last();
            &&& pages.len() > 0
            &&& pages.len() == s.pages.len() || pages.len() == s.pages.len() + 1
            &&& forall|p: int|
                0 <= p < pages.len() ==> (#[trigger] pages[p]).valid() && pages[p].width
                    == s.page_width && pages[p].height == s.page_height
            &&& forall|p: int, r: Rect|
                0 <= p < s.pages.len() && #[trigger] s.pages[p].placed.contains(r)
                    ==> pages[p].placed.contains(r)
            &&& last.placed.len() > 0
            &&& last.placed.last().width == width
            &&& last.placed.last().height == height
            &&& forall|r: Rect|
                pages.len() == s.pages.len() && #[trigger] s.pages.last().placed.contains(r)
                    ==> r.apart(last.placed.last())
        }),
{
    if s.active_has_room(width, height) {
        lemma_place_keeps_valid(s.pages.last(), width, height);
    } else {
        let fresh = PageState::fresh(s.page_width, s.page_height, s.first_row(height));
        lemma_place_keeps_valid(fresh, width, height);
    }
}

} // verus!
