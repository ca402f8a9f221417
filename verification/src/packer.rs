//! The shelf packer of one texture page.
//!
//! A page is filled in rows ("shelves"), left to right, top to bottom. The
//! cursor remembers the top of the current shelf, its height, and the next
//! free column in it. Nothing is ever moved or taken back.

use vstd::prelude::*;

verus! {

/// A rectangle of pixels: columns `x .. x + width`, rows `y .. y + height`.
#[derive(Clone, Copy, Debug, PartialEq, Eq, Structural)]
pub struct Rect {
    pub x: u32,
    pub y: u32,
    pub width: u32,
    pub height: u32,
}

impl Rect {
    /// The first column to the right of the rectangle.
    pub open spec fn right(self) -> int {
        self.x + self.width
    }

    /// The first row below the rectangle.
    pub open spec fn bottom(self) -> int {
        self.y + self.height
    }

    /// The pixel in column `px`, row `py` belongs to the rectangle.
    pub open spec fn covers(self, px: int, py: int) -> bool {
        self.x <= px < self.right() && self.y <= py < self.bottom()
    }

    /// The rectangle lies inside a page of `width` by `height` pixels.
    pub open spec fn fits(self, width: nat, height: nat) -> bool {
        self.right() <= width && self.bottom() <= height
    }

    /// A vertical or a horizontal line separates the two rectangles.
    pub open spec fn apart(self, other: Rect) -> bool {
        ||| self.right() <= other.x
        ||| other.right() <= self.x
        ||| self.bottom() <= other.y
        ||| other.bottom() <= self.y
    }
}

/// Rectangles that are apart share no pixel.
pub proof fn lemma_apart_shares_no_pixel(a: Rect, b: Rect, px: int, py: int)
    requires
        a.apart(b),
    ensures
        !(a.covers(px, py) && b.covers(px, py)),
{
}

/// What a page is, as numbers: its size, its cursor, and every rectangle it
/// has handed out, oldest first.
pub struct PageState {
    pub width: nat,
    pub height: nat,
    /// Next free column in the current shelf.
    pub h_offset: nat,
    /// Top row of the current shelf.
    pub v_offset: nat,
    /// Rows reserved for the current shelf.
    pub row_height: nat,
    /// How many shelves have been closed: the number of the current shelf.
    pub shelf: nat,
    pub placed: Seq<Rect>,
}

impl PageState {
    /// A page on which nothing has been placed. Its first shelf is
    /// `row_height` high when that fits the page, and has no height otherwise.
    pub open spec fn fresh(width: nat, height: nat, row_height: nat) -> PageState {
        PageState {
            width,
            height,
            h_offset: 0,
            v_offset: 0,
            row_height: if row_height <= height { row_height } else { 0 },
            shelf: 0,
            placed: Seq::empty(),
        }
    }

    /// `r` lies in the part of the page that the cursor has passed: in a
    /// closed shelf, or in the current shelf left of the cursor.
    pub open spec fn used(self, r: Rect) -> bool {
        ||| r.bottom() <= self.v_offset
        ||| (r.y == self.v_offset && r.right() <= self.h_offset && r.height <= self.row_height)
    }

    /// The page is no larger than a texture can be, the current shelf lies
    /// inside it, every rectangle handed out lies inside it and behind the
    /// cursor, and no two of them meet.
    pub open spec fn valid(self) -> bool {
        &&& self.width <= u32::MAX
        &&& self.height <= u32::MAX
        &&& self.v_offset + self.row_height <= self.height
        &&& self.h_offset <= self.width
        &&& forall|i: int|
            0 <= i < self.placed.len() ==> (#[trigger] self.placed[i]).fits(self.width, self.height)
                && self.used(self.placed[i])
        &&& forall|i: int, j: int|
            0 <= i < j < self.placed.len() ==> (#[trigger] self.placed[i]).apart(
                #[trigger] self.placed[j],
            )
    }

    /// The page after its shelf has been made tall enough for `height` rows.
    /// A shelf that is too low is closed, and a shelf of exactly `height`
    /// rows opens below it, at the same column. `None` when that shelf would
    /// reach past the bottom of the page.
    pub open spec fn grown(self, height: nat) -> Option<PageState> {
        if height <= self.row_height {
            Some(self)
        } else if self.v_offset + self.row_height + height <= self.height {
            Some(
                PageState {
                    v_offset: self.v_offset + self.row_height,
                    row_height: height,
                    shelf: self.shelf + 1,
                    ..self
                },
            )
        } else {
            None
        }
    }

    /// The page after a bitmap of `width` by `height` pixels has been placed,
    /// or `None` when this page has no room for it.
    ///
    /// The shelf grows first when the bitmap is taller than it. Then the
    /// bitmap goes to the cursor if it ends before the page's right edge.
    /// Otherwise the shelf is closed, one of the same height opens below it,
    /// and the bitmap goes to its left end.
    pub open spec fn place(self, width: u32, height: u32) -> Option<PageState> {
        match self.grown(height as nat) {
            None => None,
            Some(g) => {
                if g.h_offset + width < g.width {
                    Some(
                        PageState {
                            h_offset: g.h_offset + width as nat,
                            placed: g.placed.push(
                                Rect { x: g.h_offset as u32, y: g.v_offset as u32, width, height },
                            ),
                            ..g
                        },
                    )
                } else if width < g.width && g.v_offset + 2 * g.row_height <= g.height {
                    Some(
                        PageState {
                            h_offset: width as nat,
                            v_offset: g.v_offset + g.row_height,
                            shelf: g.shelf + 1,
                            placed: g.placed.push(
                                Rect {
                                    x: 0,
                                    y: (g.v_offset + g.row_height) as u32,
                                    width,
                                    height,
                                },
                            ),
                            ..g
                        },
                    )
                } else {
                    None
                }
            },
        }
    }

    /// The page after the bitmaps of `sizes` have been asked for in turn.
    /// A bitmap for which there is no room leaves the page as it is.
    pub open spec fn place_all(self, sizes: Seq<(u32, u32)>) -> PageState
        decreases sizes.len(),
    {
        if sizes.len() == 0 {
            self
        } else {
            let before = self.place_all(sizes.drop_last());
            match before.place(sizes.last().0, sizes.last().1) {
                Some(after) => after,
                None => before,
            }
        }
    }
}

/// A page on which nothing has been placed is valid.
pub proof fn lemma_fresh_is_valid(width: u32, height: u32, row_height: u32)
    ensures
        PageState::fresh(width as nat, height as nat, row_height as nat).valid(),
{
}

/// Placing keeps a page valid, keeps what was placed before, and adds one
/// rectangle of the size asked for, inside the page and apart from all the
/// others.
pub proof fn lemma_place_keeps_valid(s: PageState, width: u32, height: u32)
    requires
        s.valid(),
        s.place(width, height) is Some,
    ensures
        ({
            let t = s.place(width, height)->0;
            &&& t.valid()
            &&& t.width == s.width
            &&& t.height == s.height
            &&& t.placed.len() == s.placed.len() + 1
            &&& t.placed.drop_last() == s.placed
            &&& t.placed.last().width == width
            &&& t.placed.last().height == height
            &&& t.placed.last().fits(s.width, s.height)
            &&& forall|i: int|
                0 <= i < s.placed.len() ==> (#[trigger] s.placed[i]).apart(t.placed.last())
        }),
{
}

/// Placing never moves the cursor back: the shelf number and the top of the
/// shelf do not decrease, and as long as the shelf stays the same its top
/// stays and the cursor moves right or stays.
pub proof fn lemma_place_moves_forward(s: PageState, width: u32, height: u32)
    requires
        s.place(width, height) is Some,
    ensures
        ({
            let t = s.place(width, height)->0;
            &&& s.shelf <= t.shelf
            &&& s.v_offset <= t.v_offset
            &&& s.shelf == t.shelf ==> s.v_offset == t.v_offset && s.h_offset <= t.h_offset
        }),
{
}

/// A full row opens a new shelf: a bitmap that fits the height of the shelf
/// but would reach the right edge of the page is placed at the left end of a
/// new shelf, right below the one that is closed, and inside the page.
pub proof fn lemma_full_row_opens_a_shelf(s: PageState, width: u32, height: u32)
    requires
        s.valid(),
        height <= s.row_height,
        s.h_offset + width >= s.width,
        s.place(width, height) is Some,
    ensures
        ({
            let t = s.place(width, height)->0;
            let r = t.placed.last();
            &&& r == Rect { x: 0, y: (s.v_offset + s.row_height) as u32, width, height }
            &&& r.fits(s.width, s.height)
            &&& t.shelf == s.shelf + 1
            &&& t.v_offset == s.v_offset + s.row_height
            &&& t.row_height == s.row_height
        }),
{
    lemma_place_keeps_valid(s, width, height);
}

/// Whatever bitmaps are asked for on a valid page, one after the other, the
/// page stays valid and of the same size, and keeps every rectangle that it
/// had handed out before.
pub proof fn lemma_place_all_keeps_valid(s: PageState, sizes: Seq<(u32, u32)>)
    requires
        s.valid(),
    ensures
        ({
            let t = s.place_all(sizes);
            &&& t.valid()
            &&& t.width == s.width
            &&& t.height == s.height
            &&& s.placed.len() <= t.placed.len()
            &&& t.placed.len() <= s.placed.len() + sizes.len()
            &&& forall|i: int| 0 <= i < s.placed.len() ==> t.placed[i] == s.placed[i]
        }),
    decreases sizes.len(),
{
    if sizes.len() > 0 {
        let before = s.place_all(sizes.drop_last());
        lemma_place_all_keeps_valid(s, sizes.drop_last());
        if before.place(sizes.last().0, sizes.last().1) is Some {
            lemma_place_keeps_valid(before, sizes.last().0, sizes.last().1);
        }
    }
}

/// Packing never overlaps: whatever bitmaps are asked for on a valid page,
/// one after the other, no pixel belongs to two of the rectangles that the
/// page has handed out, and every one of them lies inside the page.
pub proof fn lemma_placements_never_overlap(
    s: PageState,
    sizes: Seq<(u32, u32)>,
    i: int,
    j: int,
    px: int,
    py: int,
)
    requires
        s.valid(),
        0 <= i < s.place_all(sizes).placed.len(),
        0 <= j < s.place_all(sizes).placed.len(),
        i != j,
    ensures
        ({
            let placed = s.place_all(sizes).placed;
            &&& !(placed[i].covers(px, py) && placed[j].covers(px, py))
            &&& placed[i].fits(s.width, s.height)
        }),
{
    lemma_place_all_keeps_valid(s, sizes);
    let placed = s.place_all(sizes).placed;
    if i < j {
        lemma_apart_shares_no_pixel(placed[i], placed[j], px, py);
    } else {
        lemma_apart_shares_no_pixel(placed[j], placed[i], px, py);
    }
}

/// The cursor never goes back: whatever bitmaps are asked for on a page, one
/// after the other, the shelf number and the top of the shelf do not
/// decrease, and as long as the shelf stays the same its top stays and the
/// cursor moves right or stays.
pub proof fn lemma_cursor_never_goes_back(s: PageState, sizes: Seq<(u32, u32)>)
    ensures
        ({
            let t = s.place_all(sizes);
            &&& s.shelf <= t.shelf
            &&& s.v_offset <= t.v_offset
            &&& s.shelf == t.shelf ==> s.v_offset == t.v_offset && s.h_offset <= t.h_offset
        }),
    decreases sizes.len(),
{
    if sizes.len() > 0 {
        let before = s.place_all(sizes.drop_last());
        lemma_cursor_never_goes_back(s, sizes.drop_last());
        if before.place(sizes.last().0, sizes.last().1) is Some {
            lemma_place_moves_forward(before, sizes.last().0, sizes.last().1);
        }
    }
}

/// The answer of a page to a request for room.
#[derive(Clone, Copy, Debug, PartialEq, Eq, Structural)]
pub enum Placement {
    /// The bitmap goes here: the column and row of its top left pixel.
    Placed { x: u32, y: u32 },
    /// This page has no room for the bitmap. The page is unchanged.
    NeedsNewPage,
}

/// One texture page and its packer cursor.
pub struct TexturePage {
    width: u32,
    height: u32,
    h_offset: u32,
    v_offset: u32,
    row_height: u32,
    shelf: Ghost<nat>,
    placed: Ghost<Seq<Rect>>,
}

impl View for TexturePage {
    type V = PageState;

    closed spec fn view(&self) -> PageState {
        PageState {
            width: self.width as nat,
            height: self.height as nat,
            h_offset: self.h_offset as nat,
            v_offset: self.v_offset as nat,
            row_height: self.row_height as nat,
            shelf: self.shelf@,
            placed: self.placed@,
        }
    }
}

impl TexturePage {
    /// Every page made and changed by this module is well formed.
    pub open spec fn wf(&self) -> bool {
        self@.valid()
    }

    /// A page of `width` by `height` pixels with nothing on it. Its first
    /// shelf is `row_height` high when that fits the page.
    pub fn new(width: u32, height: u32, row_height: u32) -> (page: TexturePage)
        ensures
            page.wf(),
            page@ == PageState::fresh(width as nat, height as nat, row_height as nat),
    {
        TexturePage {
            width,
            height,
            h_offset: 0,
            v_offset: 0,
            row_height: if row_height <= height { row_height } else { 0 },
            shelf: Ghost(0),
            placed: Ghost(Seq::empty()),
        }
    }

    /// Finds room for a bitmap of `width` by `height` pixels and moves the
    /// cursor past it.
    pub fn place(&mut self, width: u32, height: u32) -> (r: Placement)
        requires
            old(self).wf(),
        ensures
            final(self).wf(),
            match old(self)@.place(width, height) {
                Some(after) => final(self)@ == after && r == (Placement::Placed {
                    x: after.placed.last().x,
                    y: after.placed.last().y,
                }),
                None => final(self)@ == old(self)@ && r == Placement::NeedsNewPage,
            },
            final(self)@.width == old(self)@.width,
            final(self)@.height == old(self)@.height,
            old(self)@.v_offset <= final(self)@.v_offset,
            old(self)@.shelf <= final(self)@.shelf,
            old(self)@.shelf == final(self)@.shelf ==> old(self)@.v_offset == final(self)@.v_offset
                && old(self)@.h_offset <= final(self)@.h_offset,
            r matches Placement::Placed { x, y } ==> {
                let rect = Rect { x, y, width, height };
                &&& final(self)@.placed == old(self)@.placed.push(rect)
                &&& rect.fits(old(self)@.width, old(self)@.height)
                &&& forall|i: int|
                    0 <= i < old(self)@.placed.len() ==> (#[trigger] old(self)@.placed[i]).apart(
                        rect,
                    )
            },
    {
        let mut top: u32 = self.v_offset;
        let mut row: u32 = self.row_height;
        let ghost mut shelf: nat = self.shelf@;
        if row < height {
            // The shelf is too low: it is closed and a taller one opens below.
            if height > self.height - top - row {
                return Placement::NeedsNewPage;
            }
            top = top + row;
            row = height;
            proof {
                shelf = shelf + 1;
            }
        }
        let mut left: u32 = self.h_offset;
        if width >= self.width || left >= self.width - width {
            // The shelf is full: it is closed and the next one opens below.
            if width >= self.width || row > self.height - top - row {
                return Placement::NeedsNewPage;
            }
            top = top + row;
            left = 0;
            proof {
                shelf = shelf + 1;
            }
        }
        proof {
            lemma_place_keeps_valid(old(self)@, width, height);
        }
        let ghost rect = Rect { x: left, y: top, width, height };
        self.v_offset = top;
        self.row_height = row;
        self.h_offset = left + width;
        self.shelf = Ghost(shelf);
        self.placed = Ghost(self.placed@.push(rect));
        Placement::Placed { x: left, y: top }
    }

    /// Width of the page in pixels.
    pub fn width(&self) -> (w: u32)
        ensures
            w == self@.width,
    {
        self.width
    }

    /// Height of the page in pixels.
    pub fn height(&self) -> (h: u32)
        ensures
            h == self@.height,
    {
        self.height
    }

    /// Next free column in the current shelf.
    pub fn h_offset(&self) -> (x: u32)
        ensures
            x == self@.h_offset,
    {
        self.h_offset
    }

    /// Top row of the current shelf.
    pub fn v_offset(&self) -> (y: u32)
        ensures
            y == self@.v_offset,
    {
        self.v_offset
    }

    /// Rows reserved for the current shelf.
    pub fn row_height(&self) -> (h: u32)
        ensures
            h == self@.row_height,
    {
        self.row_height
    }
}

} // verus!
