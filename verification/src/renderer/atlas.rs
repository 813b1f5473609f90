//! Placement of rasterized glyphs in the pages of the texture atlas.
//!
//! A page is filled in rows from the bottom up:
//!
//! ```text
//!                           (width, height)
//!   +-----+-----+-----+-----+-----+
//!   | 10  |     |     |     |     | <- free space; filled while the glyph still fits above
//!   |     |     |     |     |     |    the baseline of the row
//!   +-----+-----+-----+-----+-----+
//!   | 5   | 6   | 7   | 8   | 9   |
//!   |     |     |     |     |     |
//!   +-----+-----+-----+-----+-----+ <- a row is as high as its tallest glyph, which is the
//!   | 1   | 2   | 3   | 4         |    baseline of the next row
//!   |     |     |     |           | <- a row is full when the next glyph does not fit
//!   +-----+-----+-----+-----------+
//! (0, 0)  x->
//! ```

use vstd::prelude::*;

verus! {

/// Width and height of an atlas page, in pixels.
pub const ATLAS_SIZE: u32 = 512;

/// Pixels kept free to the right of and above each glyph.
pub const GLYPH_PADDING: u32 = 1;

/// Pixels of a rasterized glyph.
#[derive(Clone, Debug)]
pub enum BitmapBuffer {
    /// Coverage, three equal bytes per pixel.
    Rgb(Vec<u8>),
    /// Colors with premultiplied alpha, four bytes per pixel.
    Rgba(Vec<u8>),
}

/// A glyph as the font rasterizer hands it out.
#[derive(Clone, Debug)]
pub struct RasterizedGlyph {
    pub character: char,
    pub width: i32,
    pub height: i32,
    pub top: i32,
    pub left: i32,
    pub buffer: BitmapBuffer,
}

/// An area of a page, in pixels.
#[derive(Clone, Copy, Debug, Default, PartialEq, Eq, Structural)]
pub struct Slot {
    pub x: u32,
    pub y: u32,
    pub width: u32,
    pub height: u32,
}

impl Slot {
    /// Padding that belongs to the slot: none for an empty glyph.
    pub open spec fn padding(self) -> int {
        padding_of(self.width, self.height)
    }

    /// Whether no pixel belongs to both slots or to their padding.
    pub open spec fn apart(self, other: Self) -> bool {
        ||| self.x + self.width + self.padding() <= other.x
        ||| other.x + other.width + other.padding() <= self.x
        ||| self.y + self.height + self.padding() <= other.y
        ||| other.y + other.height + other.padding() <= self.y
    }
}

/// Padding of a glyph of the given size.
pub open spec fn padding_of(width: u32, height: u32) -> int {
    if width > 0 || height > 0 {
        GLYPH_PADDING as int
    } else {
        0
    }
}

/// A glyph that has been placed in the atlas.
#[derive(Clone, Copy, Debug, Default, PartialEq, Eq, Structural)]
pub struct Glyph {
    /// Page that holds the glyph.
    pub atlas_index: usize,
    pub multicolor: bool,
    pub top: i16,
    pub left: i16,
    pub width: i16,
    pub height: i16,
    /// Area of the page that holds the pixels.
    pub slot: Slot,
}

impl Glyph {
    /// A glyph without pixels.
    pub open spec fn blank(atlas_index: usize) -> Self {
        Glyph {
            atlas_index,
            multicolor: false,
            top: 0,
            left: 0,
            width: 0,
            height: 0,
            slot: Slot { x: 0, y: 0, width: 0, height: 0 },
        }
    }

    /// A glyph without pixels.
    pub fn empty(atlas_index: usize) -> (glyph: Self)
        ensures
            glyph == Self::blank(atlas_index),
    {
        Glyph {
            atlas_index,
            multicolor: false,
            top: 0,
            left: 0,
            width: 0,
            height: 0,
            slot: Slot { x: 0, y: 0, width: 0, height: 0 },
        }
    }
}

/// Pixels to be copied to a page.
#[derive(Clone, Debug)]
pub struct Upload {
    pub page: usize,
    pub slot: Slot,
    /// Four bytes per pixel, row by row.
    pub rgba: Vec<u8>,
}

/// Reasons why a glyph was not placed.
#[derive(Clone, Copy, Debug, PartialEq, Eq, Structural)]
pub enum AtlasInsertError {
    /// The page is full.
    Full,
    /// The glyph does not fit on an empty page.
    GlyphTooLarge,
}

/// Progress within the row that is being filled.
#[derive(Clone, Copy, Debug, Default, PartialEq, Eq, Structural)]
pub struct Row {
    /// Leftmost free pixel of the row.
    pub extent: u32,
    /// Bottom of the row.
    pub baseline: u32,
    /// Height of the tallest glyph of the row, with its padding.
    pub tallest: u32,
}

/// One page of the atlas.
pub struct Atlas {
    pub width: u32,
    pub height: u32,
    pub row: Row,
    /// Every slot handed out since the page was last cleared.
    pub placed: Ghost<Seq<Slot>>,
}

/// The low bits of a size, as the placement reads it: a negative size is huge.
pub open spec fn as_extent(size: i32) -> u32 {
    if size >= 0 {
        size as u32
    } else {
        (size + 0x1_0000_0000) as u32
    }
}

/// Read a size without its sign.
fn extent_of(size: i32) -> (extent: u32)
    ensures
        extent == as_extent(size),
{
    assert(size < 0 ==> (size as u32) as int == size + 0x1_0000_0000int) by (bit_vector);
    size as u32
}

/// The texels of coverage bytes: white, with the coverage in the alpha channel.
pub open spec fn coverage_texels(coverage: Seq<u8>) -> Seq<u8> {
    Seq::new(
        (coverage.len() / 3 * 4) as nat,
        |i: int| if i % 4 == 3 { coverage[i / 4 * 3] } else { 255u8 },
    )
}

/// The texels of a bitmap.
pub open spec fn texels(buffer: BitmapBuffer) -> Seq<u8> {
    match buffer {
        BitmapBuffer::Rgb(coverage) => coverage_texels(coverage@),
        BitmapBuffer::Rgba(colors) => colors@,
    }
}

/// Convert a bitmap to texels, and say whether it is colored.
///
/// The coverage of an ordinary glyph goes to the alpha channel, which is not subject to the
/// conversion from sRGB that would make the text look too thin.
fn convert_bitmap(buffer: &BitmapBuffer) -> (converted: (bool, Vec<u8>))
    ensures
        converted.0 == (*buffer is Rgba),
        converted.1@ == texels(*buffer),
{
    match buffer {
        BitmapBuffer::Rgb(coverage) => {
            let count: usize = coverage.len();
            let pixels: usize = count / 3;
            let mut rgba: Vec<u8> = Vec::new();
            let mut pixel: usize = 0;
            while pixel < pixels
                invariant
                    count == coverage@.len(),
                    pixels == count / 3,
                    pixel <= pixels,
                    rgba@.len() == pixel * 4,
                    forall|i: int|
                        0 <= i < pixel * 4 ==> #[trigger] rgba@[i] == (if i % 4 == 3 {
                            coverage@[i / 4 * 3]
                        } else {
                            255u8
                        }),
                decreases pixels - pixel,
            {
                rgba.push(u8::MAX);
                rgba.push(u8::MAX);
                rgba.push(u8::MAX);
                rgba.push(coverage[pixel * 3]);
                pixel += 1;
            }
            assert(rgba@ =~= coverage_texels(coverage@));
            (false, rgba)
        },
        BitmapBuffer::Rgba(colors) => {
            let mut rgba: Vec<u8> = Vec::new();
            rgba.extend_from_slice(colors.as_slice());
            assert(rgba@ =~= colors@);
            (true, rgba)
        },
    }
}

impl Row {
    /// Whether the row has room for a glyph on a page of the given size.
    pub open spec fn has_room(self, page: (u32, u32), width: u32, height: u32) -> bool {
        &&& self.extent + width + padding_of(width, height) <= page.0
        &&& self.baseline + height + padding_of(width, height) <= page.1
    }

    /// Whether another row can be started above this one.
    pub open spec fn can_advance(self, page: (u32, u32)) -> bool {
        self.tallest != 0 && self.baseline + self.tallest < page.1
    }

    /// The row above this one.
    pub open spec fn advanced(self) -> Self {
        Row { extent: 0, baseline: (self.baseline + self.tallest) as u32, tallest: 0 }
    }

    /// The row once a glyph has been put into it.
    pub open spec fn filled(self, width: u32, height: u32) -> Self {
        let padded = (height + padding_of(width, height)) as u32;
        Row {
            extent: (self.extent + width + padding_of(width, height)) as u32,
            baseline: self.baseline,
            tallest: if padded > self.tallest { padded } else { self.tallest },
        }
    }
}

/// Whether a glyph fits on an empty page.
pub open spec fn fits_page(page: (u32, u32), width: u32, height: u32) -> bool {
    width + GLYPH_PADDING <= page.0 && height + GLYPH_PADDING <= page.1
}

/// The row that takes a glyph of the given size, if any does.
pub open spec fn row_for(row: Row, page: (u32, u32), width: u32, height: u32) -> Option<Row> {
    if row.has_room(page, width, height) {
        Some(row)
    } else if row.can_advance(page) && row.advanced().has_room(page, width, height) {
        Some(row.advanced())
    } else {
        None
    }
}

/// The placed glyph that `rasterized` becomes in a slot.
pub open spec fn placed_glyph(rasterized: RasterizedGlyph, slot: Slot) -> Glyph {
    Glyph {
        atlas_index: 0,
        multicolor: rasterized.buffer is Rgba,
        top: rasterized.top as i16,
        left: rasterized.left as i16,
        width: rasterized.width as i16,
        height: rasterized.height as i16,
        slot,
    }
}

/// The copy that brings the pixels of a glyph to its slot: none if there are no pixels.
pub open spec fn is_upload_for(
    upload: Option<Upload>,
    rasterized: RasterizedGlyph,
    page: usize,
    slot: Slot,
) -> bool {
    if slot.width > 0 && slot.height > 0 && texels(rasterized.buffer).len() > 0 {
        &&& upload is Some
        &&& upload->0.page == page
        &&& upload->0.slot == slot
        &&& upload->0.rgba@ == texels(rasterized.buffer)
    } else {
        upload is None
    }
}

impl Atlas {
    /// Width and height of the page.
    pub open spec fn page(self) -> (u32, u32) {
        (self.width, self.height)
    }

    /// Every slot lies on the page, keeps its distance from all others, and lies out of the way
    /// of the free part of the page.
    pub open spec fn well_formed(self) -> bool {
        &&& 0 < self.width < 0x4000_0000
        &&& 0 < self.height < 0x4000_0000
        &&& self.row.extent <= self.width
        &&& self.row.baseline + self.row.tallest <= self.height
        &&& self.row.baseline < self.height
        &&& forall|i: int| 0 <= i < self.placed@.len() ==> #[trigger] self.holds(self.placed@[i])
        &&& forall|i: int, j: int|
            0 <= i < j < self.placed@.len() ==> #[trigger] self.placed@[i].apart(
                #[trigger] self.placed@[j],
            )
    }

    /// The slot lies on the page and either below the row that is being filled or within the part
    /// of it that is taken.
    pub open spec fn holds(self, slot: Slot) -> bool {
        &&& slot.x + slot.width + slot.padding() <= self.width
        &&& slot.y + slot.height + slot.padding() <= self.height
        &&& {
            ||| slot.y + slot.height + slot.padding() <= self.row.baseline
            ||| slot.y == self.row.baseline && slot.x + slot.width + slot.padding()
                <= self.row.extent && slot.height + slot.padding() <= self.row.tallest
        }
    }

    /// An empty page.
    pub fn new(size: u32) -> (atlas: Self)
        requires
            0 < size < 0x4000_0000,
        ensures
            atlas.well_formed(),
            atlas.page() == (size, size),
            atlas.row == (Row { extent: 0, baseline: 0, tallest: 0 }),
            atlas.placed@ == Seq::<Slot>::empty(),
    {
        Atlas {
            width: size,
            height: size,
            row: Row { extent: 0, baseline: 0, tallest: 0 },
            placed: Ghost(Seq::empty()),
        }
    }

    /// Forget every slot.
    pub fn clear(&mut self)
        requires
            old(self).well_formed(),
        ensures
            final(self).well_formed(),
            final(self).page() == old(self).page(),
            final(self).row == (Row { extent: 0, baseline: 0, tallest: 0 }),
            final(self).placed@ == Seq::<Slot>::empty(),
    {
        self.row = Row { extent: 0, baseline: 0, tallest: 0 };
        self.placed = Ghost(Seq::empty());
    }

    /// Check whether the current row has room for a glyph.
    pub fn room_in_row(&self, width: u32, height: u32) -> (room: bool)
        requires
            self.well_formed(),
        ensures
            room == self.row.has_room(self.page(), width, height),
    {
        let padding: u32 = if width > 0 || height > 0 { GLYPH_PADDING } else { 0 };
        let remaining_height: u32 = self.height - self.row.baseline;
        let next_extent: u32 = self.row.extent.saturating_add(width).saturating_add(padding);
        let enough_width = next_extent <= self.width;
        let enough_height = height.saturating_add(padding) <= remaining_height;
        enough_width && enough_height
    }

    /// Close the current row and start the next one.
    pub fn advance_row(&mut self) -> (result: Result<(), AtlasInsertError>)
        requires
            old(self).well_formed(),
        ensures
            final(self).well_formed(),
            final(self).page() == old(self).page(),
            final(self).placed@ == old(self).placed@,
            old(self).row.can_advance(old(self).page()) ==> result is Ok && final(self).row == old(
                self).row.advanced(),
            !old(self).row.can_advance(old(self).page()) ==> result == Err::<(), _>(
                AtlasInsertError::Full,
            ) && final(self).row == old(self).row,
    {
        if self.row.tallest == 0 {
            return Err(AtlasInsertError::Full);
        }
        let advance_to: u32 = self.row.baseline.saturating_add(self.row.tallest);
        if advance_to >= self.height {
            return Err(AtlasInsertError::Full);
        }
        self.row = Row { extent: 0, baseline: advance_to, tallest: 0 };
        assert forall|i: int| 0 <= i < self.placed@.len() implies #[trigger] self.holds(
            self.placed@[i],
        ) by {
            assert(old(self).holds(old(self).placed@[i]));
        }
        Ok(())
    }

    /// Find a place for a glyph, and say what to copy there.
    pub fn insert(&mut self, glyph: &RasterizedGlyph, page: usize) -> (result: Result<
        (Glyph, Option<Upload>),
        AtlasInsertError,
    >)
        requires
            old(self).well_formed(),
        ensures
            final(self).well_formed(),
            final(self).page() == old(self).page(),
            ({
                let width = as_extent(glyph.width);
                let height = as_extent(glyph.height);
                if !fits_page(old(self).page(), width, height) {
                    &&& result == Err::<(Glyph, Option<Upload>), _>(AtlasInsertError::GlyphTooLarge)
                    &&& final(self).row == old(self).row
                    &&& final(self).placed@ == old(self).placed@
                } else {
                    match row_for(old(self).row, old(self).page(), width, height) {
                        Some(row) => {
                            let slot = Slot { x: row.extent, y: row.baseline, width, height };
                            &&& result is Ok
                            &&& result->Ok_0.0 == placed_glyph(*glyph, slot)
                            &&& is_upload_for(result->Ok_0.1, *glyph, page, slot)
                            &&& final(self).row == row.filled(width, height)
                            &&& final(self).placed@ == old(self).placed@.push(slot)
                        },
                        None => {
                            &&& result == Err::<(Glyph, Option<Upload>), _>(AtlasInsertError::Full)
                            &&& final(self).row == if old(self).row.can_advance(old(self).page()) {
                                old(self).row.advanced()
                            } else {
                                old(self).row
                            }
                            &&& final(self).placed@ == old(self).placed@
                        },
                    }
                }
            }),
    {
        let width: u32 = extent_of(glyph.width);
        let height: u32 = extent_of(glyph.height);

        let padded_width: u32 = width.saturating_add(GLYPH_PADDING);
        let padded_height: u32 = height.saturating_add(GLYPH_PADDING);
        if padded_width > self.width || padded_height > self.height {
            return Err(AtlasInsertError::GlyphTooLarge);
        }
        // If there's not enough room in the current row, go onto the next one.
        if !self.room_in_row(width, height) {
            if let Err(err) = self.advance_row() {
                return Err(err);
            }
        }
        // If there's still not room, the page is full.
        if !self.room_in_row(width, height) {
            return Err(AtlasInsertError::Full);
        }
        Ok(self.insert_inner(glyph, width, height, page))
    }

    /// Put a glyph into the current row, which has room for it.
    fn insert_inner(&mut self, glyph: &RasterizedGlyph, width: u32, height: u32, page: usize) -> (
        placed: (Glyph, Option<Upload>))
        requires
            old(self).well_formed(),
            width == as_extent(glyph.width),
            height == as_extent(glyph.height),
            old(self).row.has_room(old(self).page(), width, height),
        ensures
            final(self).well_formed(),
            final(self).page() == old(self).page(),
            final(self).row == old(self).row.filled(width, height),
            ({
                let slot = Slot {
                    x: old(self).row.extent,
                    y: old(self).row.baseline,
                    width,
                    height,
                };
                &&& placed.0 == placed_glyph(*glyph, slot)
                &&& is_upload_for(placed.1, *glyph, page, slot)
                &&& final(self).placed@ == old(self).placed@.push(slot)
            }),
    {
        let slot = Slot { x: self.row.extent, y: self.row.baseline, width, height };
        let (multicolor, rgba) = convert_bitmap(&glyph.buffer);
        let upload = if width > 0 && height > 0 && !rgba.is_empty() {
            Some(Upload { page, slot, rgba })
        } else {
            None
        };

        let padding: u32 = if width > 0 || height > 0 { GLYPH_PADDING } else { 0 };
        let padded_height: u32 = height + padding;
        self.row = Row {
            extent: self.row.extent + width + padding,
            baseline: self.row.baseline,
            tallest: if padded_height > self.row.tallest { padded_height } else { self.row.tallest },
        };
        self.placed = Ghost(self.placed@.push(slot));
        assert forall|i: int| 0 <= i < self.placed@.len() implies #[trigger] self.holds(
            self.placed@[i],
        ) by {
            if i < old(self).placed@.len() {
                assert(old(self).holds(old(self).placed@[i]));
            }
        }
        assert forall|i: int, j: int| 0 <= i < j < self.placed@.len() implies #[trigger] self.placed@[i].apart(
            #[trigger] self.placed@[j],
        ) by {
            assert(old(self).holds(old(self).placed@[i]));
        }

        (
            Glyph {
                atlas_index: 0,
                multicolor,
                top: glyph.top as i16,
                left: glyph.left as i16,
                width: glyph.width as i16,
                height: glyph.height as i16,
                slot,
            },
            upload,
        )
    }
}

/// Whether a slot holds the pixel at the given position.
pub open spec fn has_pixel(slot: Slot, x: int, y: int) -> bool {
    slot.x <= x < slot.x + slot.width && slot.y <= y < slot.y + slot.height
}

/// No pixel of a page belongs to two glyphs, and none of a glyph lies outside of the page.
pub proof fn glyphs_share_no_pixel(atlas: Atlas, i: int, j: int, x: int, y: int)
    requires
        atlas.well_formed(),
        0 <= i < atlas.placed@.len(),
        0 <= j < atlas.placed@.len(),
        has_pixel(atlas.placed@[i], x, y),
    ensures
        0 <= x < atlas.width,
        0 <= y < atlas.height,
        has_pixel(atlas.placed@[j], x, y) ==> i == j,
{
    assert(atlas.holds(atlas.placed@[i]));
    if i < j {
        assert(atlas.placed@[i].apart(atlas.placed@[j]));
    }
    if j < i {
        assert(atlas.placed@[j].apart(atlas.placed@[i]));
    }
}

/// Neighboring glyphs keep a free pixel between them: the pixels to the right of and above a glyph
/// belong to no other.
pub proof fn glyphs_keep_their_padding(atlas: Atlas, i: int, j: int, x: int, y: int)
    requires
        atlas.well_formed(),
        0 <= i < atlas.placed@.len(),
        0 <= j < atlas.placed@.len(),
        i != j,
        atlas.placed@[i].width > 0,
        atlas.placed@[i].height > 0,
        atlas.placed@[i].x <= x <= atlas.placed@[i].x + atlas.placed@[i].width,
        atlas.placed@[i].y <= y <= atlas.placed@[i].y + atlas.placed@[i].height,
    ensures
        !has_pixel(atlas.placed@[j], x, y),
{
    if i < j {
        assert(atlas.placed@[i].apart(atlas.placed@[j]));
    } else {
        assert(atlas.placed@[j].apart(atlas.placed@[i]));
    }
}

/// All pages of the atlas.
pub struct GlyphAtlas {
    pub pages: Vec<Atlas>,
    pub active_page: usize,
}

/// Whether the atlas `after` is the atlas `before` with another glyph, which became `loaded`: it is on
/// the active page, or on a new one if the active page is full. A glyph that is too large for any
/// page becomes an empty one.
pub open spec fn took(
    before: GlyphAtlas,
    after: GlyphAtlas,
    rasterized: RasterizedGlyph,
    loaded: (Glyph, Option<Upload>),
) -> bool {
    let width = as_extent(rasterized.width);
    let height = as_extent(rasterized.height);
    let page = (ATLAS_SIZE, ATLAS_SIZE);
    let active = before.active_page as int;
    if !fits_page(page, width, height) {
        &&& loaded.0 == Glyph::blank(before.active_page)
        &&& loaded.1 is None
        &&& after.pages@ == before.pages@
    } else {
        match row_for(before.pages@[active].row, page, width, height) {
            Some(row) => {
                let slot = Slot { x: row.extent, y: row.baseline, width, height };
                &&& loaded.0 == (Glyph {
                    atlas_index: before.active_page,
                    ..placed_glyph(rasterized, slot)
                })
                &&& is_upload_for(loaded.1, rasterized, before.active_page, slot)
                &&& after.pages@.len() == before.pages@.len()
                &&& after.pages@[active].row == row.filled(width, height)
                &&& after.pages@[active].placed@ == before.pages@[active].placed@.push(slot)
                &&& forall|i: int|
                    0 <= i < active ==> after.pages@[i] == before.pages@[i]
            },
            None => {
                let slot = Slot { x: 0, y: 0, width, height };
                let empty = Row { extent: 0, baseline: 0, tallest: 0 };
                &&& loaded.0 == (Glyph {
                    atlas_index: (before.active_page + 1) as usize,
                    ..placed_glyph(rasterized, slot)
                })
                &&& is_upload_for(
                    loaded.1,
                    rasterized,
                    (before.active_page + 1) as usize,
                    slot,
                )
                &&& after.pages@.len() == before.pages@.len() + 1
                &&& after.pages@[active + 1].row == empty.filled(width, height)
                &&& after.pages@[active + 1].placed@ == seq![slot]
                &&& after.pages@[active].placed@ == before.pages@[active].placed@
                &&& forall|i: int|
                    0 <= i < active ==> after.pages@[i] == before.pages@[i]
            },
        }
    }
}

impl GlyphAtlas {
    /// The last page is the one being filled.
    pub open spec fn well_formed(self) -> bool {
        &&& self.active_page + 1 == self.pages@.len()
        &&& forall|i: int|
            0 <= i < self.pages@.len() ==> (#[trigger] self.pages@[i]).well_formed()
                && self.pages@[i].page() == (ATLAS_SIZE, ATLAS_SIZE)
    }

    /// An atlas of one empty page.
    pub fn new() -> (atlas: Self)
        ensures
            atlas.well_formed(),
            atlas.pages@.len() == 1,
            atlas.pages@[0].row == (Row { extent: 0, baseline: 0, tallest: 0 }),
            atlas.pages@[0].placed@ == Seq::<Slot>::empty(),
    {
        let mut pages: Vec<Atlas> = Vec::new();
        pages.push(Atlas::new(ATLAS_SIZE));
        GlyphAtlas { pages, active_page: 0 }
    }

    /// Place a glyph on the active page, or on a new one if the active page is full. A glyph that
    /// is too large for any page becomes an empty one.
    pub fn load_glyph(&mut self, rasterized: &RasterizedGlyph) -> (loaded: (Glyph, Option<Upload>))
        requires
            old(self).well_formed(),
        ensures
            final(self).well_formed(),
            took(*old(self), *final(self), *rasterized, loaded),
            loaded.0.atlas_index < final(self).pages@.len(),
            old(self).pages@.len() <= final(self).pages@.len(),
    {
        let active_page: usize = self.active_page;
        match self.pages[active_page].insert(rasterized, active_page) {
            Ok((glyph, upload)) => {
                let mut glyph = glyph;
                glyph.atlas_index = active_page;
                (glyph, upload)
            },
            Err(AtlasInsertError::GlyphTooLarge) => {
                assert(self.pages@ =~= old(self).pages@);
                (Glyph::empty(active_page), None)
            },
            Err(AtlasInsertError::Full) => {
                let mut page = Atlas::new(ATLAS_SIZE);
                let next_page: usize = self.pages.len();
                let inserted = page.insert(rasterized, next_page);
                assert(page.placed@ =~= seq![page.placed@[0]]);
                self.pages.push(page);
                self.active_page = next_page;
                match inserted {
                    Ok((glyph, upload)) => {
                        let mut glyph = glyph;
                        glyph.atlas_index = next_page;
                        (glyph, upload)
                    },
                    Err(_) => (Glyph::empty(next_page), None),
                }
            },
        }
    }

    /// Forget every glyph and every page but the first.
    pub fn clear(&mut self)
        requires
            old(self).well_formed(),
        ensures
            final(self).well_formed(),
            final(self).pages@.len() == 1,
            final(self).pages@[0].row == (Row { extent: 0, baseline: 0, tallest: 0 }),
            final(self).pages@[0].placed@ == Seq::<Slot>::empty(),
    {
        self.pages.truncate(1);
        self.pages[0].clear();
        self.active_page = 0;
    }
}

/// What is copied to a page looks like the glyph: an ordinary glyph is white, with the coverage of
/// pixel `p` of the bitmap in the alpha channel of texel `p`, and a colored one keeps its bytes. No
/// pixel is left out and none is added.
pub proof fn upload_looks_like_the_glyph(
    before: GlyphAtlas,
    after: GlyphAtlas,
    rasterized: RasterizedGlyph,
    loaded: (Glyph, Option<Upload>),
    p: int,
)
    requires
        took(before, after, rasterized, loaded),
        loaded.1 is Some,
        0 <= p,
    ensures
        match rasterized.buffer {
            BitmapBuffer::Rgb(bytes) => {
                let rgba = loaded.1->0.rgba@;
                &&& rgba.len() == bytes@.len() / 3 * 4
                &&& 3 * p + 2 < bytes@.len() ==> {
                    &&& 4 * p + 3 < rgba.len()
                    &&& rgba[4 * p] == 255
                    &&& rgba[4 * p + 1] == 255
                    &&& rgba[4 * p + 2] == 255
                    &&& rgba[4 * p + 3] == bytes@[3 * p]
                    &&& bytes@[3 * p] == bytes@[3 * p + 1] && bytes@[3 * p + 1] == bytes@[3 * p
                        + 2] ==> rgba[4 * p + 3] == bytes@[3 * p + 1] && rgba[4 * p + 3]
                        == bytes@[3 * p + 2]
                }
            },
            BitmapBuffer::Rgba(bytes) => {
                &&& loaded.1->0.rgba@.len() == bytes@.len()
                &&& p < bytes@.len() ==> loaded.1->0.rgba@[p] == bytes@[p]
            },
        },
{
}

/// The pixels of a glyph are copied to where the glyph says that they are: to its page and to its
/// area, which is as large as the bitmap. They are copied exactly where the glyph fits on a page and
/// has any.
pub proof fn glyph_names_its_pixels(
    before: GlyphAtlas,
    after: GlyphAtlas,
    rasterized: RasterizedGlyph,
    loaded: (Glyph, Option<Upload>),
)
    requires
        took(before, after, rasterized, loaded),
        rasterized.width >= 0,
        rasterized.height >= 0,
    ensures
        loaded.1 is Some ==> loaded.1->0.page == loaded.0.atlas_index && loaded.1->0.slot
            == loaded.0.slot,
        loaded.1 is Some <==> {
            &&& 0 < rasterized.width < 512
            &&& 0 < rasterized.height < 512
            &&& match rasterized.buffer {
                BitmapBuffer::Rgb(bytes) => bytes@.len() >= 3,
                BitmapBuffer::Rgba(bytes) => bytes@.len() >= 1,
            }
        },
        rasterized.width < 512 && rasterized.height < 512 ==> {
            &&& loaded.0.slot.width == rasterized.width
            &&& loaded.0.slot.height == rasterized.height
            &&& loaded.0.width == rasterized.width
            &&& loaded.0.height == rasterized.height
            &&& -0x8000 <= rasterized.left < 0x8000 ==> loaded.0.left == rasterized.left
            &&& -0x8000 <= rasterized.top < 0x8000 ==> loaded.0.top == rasterized.top
            &&& loaded.0.multicolor == (rasterized.buffer is Rgba)
        },
        rasterized.width >= 512 || rasterized.height >= 512 ==> {
            &&& loaded.0.width == 0 && loaded.0.height == 0
            &&& loaded.0.slot.width == 0 && loaded.0.slot.height == 0
            &&& after.pages@ == before.pages@
        },
{
}

/// A glyph gets pixels of its own: none of them belongs to a glyph that is on its page already, all
/// of them lie on the page, and the glyphs that were in the atlas stay where they are.
pub proof fn loaded_glyph_has_its_own_pixels(
    before: GlyphAtlas,
    after: GlyphAtlas,
    rasterized: RasterizedGlyph,
    loaded: (Glyph, Option<Upload>),
    page: int,
    i: int,
    x: int,
    y: int,
)
    requires
        before.well_formed(),
        after.well_formed(),
        took(before, after, rasterized, loaded),
        loaded.0.slot.x <= x < loaded.0.slot.x + loaded.0.slot.width,
        loaded.0.slot.y <= y < loaded.0.slot.y + loaded.0.slot.height,
        0 <= page < before.pages@.len(),
        0 <= i < before.pages@[page].placed@.len(),
    ensures
        0 <= x < 512,
        0 <= y < 512,
        loaded.0.atlas_index < after.pages@.len(),
        after.pages@[page].placed@.len() > i,
        after.pages@[page].placed@[i] == before.pages@[page].placed@[i],
        page == loaded.0.atlas_index ==> !({
            let other = before.pages@[page].placed@[i];
            &&& other.x <= x < other.x + other.width
            &&& other.y <= y < other.y + other.height
        }),
        after.pages@[loaded.0.atlas_index as int].placed@.len() > 0,
        after.pages@[loaded.0.atlas_index as int].placed@.last() == loaded.0.slot,
{
    let own = after.pages@[loaded.0.atlas_index as int];
    assert(own.well_formed());
    assert(own.page() == (ATLAS_SIZE, ATLAS_SIZE));
    let last = own.placed@.len() - 1;
    assert(own.holds(own.placed@[last]));
    if page == loaded.0.atlas_index {
        assert(own.placed@[i] == before.pages@[page].placed@[i]);
        assert(own.placed@[i].apart(own.placed@[last]));
    }
}

/// Glyphs stand side by side with one free pixel between them: where the row of the last glyph still
/// has room, the next glyph comes right of it, at the same height and on the same page.
pub proof fn next_glyph_comes_right_of_the_last(
    first: GlyphAtlas,
    second: GlyphAtlas,
    third: GlyphAtlas,
    left: RasterizedGlyph,
    right: RasterizedGlyph,
    loaded_left: (Glyph, Option<Upload>),
    loaded_right: (Glyph, Option<Upload>),
)
    requires
        first.well_formed(),
        second.well_formed(),
        took(first, second, left, loaded_left),
        took(second, third, right, loaded_right),
        0 < left.width < 512,
        0 < left.height < 512,
        0 < right.width,
        0 < right.height,
        loaded_left.0.slot.x + left.width + 1 + right.width + 1 <= 512,
        loaded_left.0.slot.y + right.height + 1 <= 512,
    ensures
        loaded_right.0.atlas_index == loaded_left.0.atlas_index,
        loaded_right.0.slot.x == loaded_left.0.slot.x + left.width + 1,
        loaded_right.0.slot.y == loaded_left.0.slot.y,
        third.pages@.len() == second.pages@.len(),
{
    assert(first.pages@[first.active_page as int].page() == (ATLAS_SIZE, ATLAS_SIZE));
}

/// Pages are not wasted: a glyph opens a new page only where the one in use has no room for it, be it
/// behind the last glyph of the row or at the beginning of the next row. An empty page has room for
/// every glyph that is smaller than a page.
pub proof fn pages_are_opened_when_needed(
    before: GlyphAtlas,
    after: GlyphAtlas,
    rasterized: RasterizedGlyph,
    loaded: (Glyph, Option<Upload>),
)
    requires
        before.well_formed(),
        took(before, after, rasterized, loaded),
        0 < rasterized.width < 512,
        0 < rasterized.height < 512,
    ensures
        ({
            let row = before.pages@[before.active_page as int].row;
            let behind = row.extent + rasterized.width + 1 <= 512 && row.baseline
                + rasterized.height + 1 <= 512;
            let above = row.tallest > 0 && row.baseline + row.tallest + rasterized.height + 1
                <= 512;
            &&& after.pages@.len() == before.pages@.len() + if behind || above {
                0int
            } else {
                1
            }
            &&& behind ==> loaded.0.slot.x == row.extent && loaded.0.slot.y == row.baseline
            &&& !behind && above ==> loaded.0.slot.x == 0 && loaded.0.slot.y == row.baseline
                + row.tallest
            &&& !behind && !above ==> loaded.0.slot.x == 0 && loaded.0.slot.y == 0
            &&& row.extent == 0 && row.baseline == 0 ==> behind
            &&& loaded.0.atlas_index == after.pages@.len() - 1
        }),
{
    assert(before.pages@[before.active_page as int].well_formed());
    assert(before.pages.len() == before.pages@.len());
}

/// A glyph without pixels takes no room: the page stays as free as it was, no page is opened, and
/// nothing is copied.
pub proof fn glyphs_without_pixels_take_no_room(
    before: GlyphAtlas,
    after: GlyphAtlas,
    rasterized: RasterizedGlyph,
    loaded: (Glyph, Option<Upload>),
)
    requires
        before.well_formed(),
        took(before, after, rasterized, loaded),
        rasterized.width == 0,
        rasterized.height == 0,
    ensures
        after.pages@.len() == before.pages@.len(),
        after.pages@[before.active_page as int].row == before.pages@[before.active_page as int].row,
        loaded.1 is None,
        loaded.0.width == 0 && loaded.0.height == 0,
        loaded.0.atlas_index == before.active_page,
{
    assert(before.pages@[before.active_page as int].well_formed());
}

} // verus!
