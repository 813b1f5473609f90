//! The cells that are drawn, and the instances that the graphics card draws them from.

use crate::renderer::atlas::{
    glyph_names_its_pixels, took, upload_looks_like_the_glyph, BitmapBuffer, Glyph, GlyphAtlas,
    RasterizedGlyph, Slot, Upload,
};
use crate::terminal::{Column, Point};
use unicode_width::UnicodeWidthChar;
use vstd::prelude::*;

verus! {

/// A color, in the sRGB color space.
#[derive(Clone, Copy, Debug, Default, PartialEq, Eq, Structural)]
pub struct Rgb {
    pub r: u8,
    pub g: u8,
    pub b: u8,
}

/// The attributes of a cell.
#[derive(Clone, Copy, Debug, Default, PartialEq, Eq, Structural)]
pub struct Flags {
    pub bold: bool,
    pub italic: bool,
    pub hidden: bool,
    pub wide_char: bool,
    pub underline: bool,
    pub double_underline: bool,
    pub undercurl: bool,
    pub dotted_underline: bool,
    pub dashed_underline: bool,
    pub strikeout: bool,
}

impl Flags {
    /// No attributes.
    pub open spec fn none() -> Flags {
        Flags {
            bold: false,
            italic: false,
            hidden: false,
            wide_char: false,
            underline: false,
            double_underline: false,
            undercurl: false,
            dotted_underline: false,
            dashed_underline: false,
            strikeout: false,
        }
    }

    /// The attributes of a character that is two columns wide or not.
    pub open spec fn width(wide: bool) -> Flags {
        Flags { wide_char: wide, ..Flags::none() }
    }

    /// No attributes.
    pub fn empty() -> (flags: Flags)
        ensures
            flags == Flags::none(),
    {
        Flags {
            bold: false,
            italic: false,
            hidden: false,
            wide_char: false,
            underline: false,
            double_underline: false,
            undercurl: false,
            dotted_underline: false,
            dashed_underline: false,
            strikeout: false,
        }
    }

    /// The attributes of a character that is two columns wide or not.
    pub fn of_width(wide: bool) -> (flags: Flags)
        ensures
            flags == Flags::width(wide),
            flags.wide_char == wide,
            !flags.hidden && !flags.bold && !flags.italic,
            !flags.underline && !flags.double_underline && !flags.strikeout,
            !flags.undercurl && !flags.dotted_underline && !flags.dashed_underline,
    {
        let mut flags = Flags::empty();
        flags.wide_char = wide;
        flags
    }
}

/// A cell of the grid with everything that its looks depend on.
#[derive(Debug)]
pub struct RenderableCell {
    pub point: Point<usize>,
    pub character: char,
    /// Characters without a width of their own, drawn on top of the character.
    pub zerowidth: Vec<char>,
    pub flags: Flags,
    /// Opacity of the background, from 0 to 255.
    pub bg_alpha: u8,
    pub fg: Rgb,
    pub bg: Rgb,
    pub underline: Rgb,
}

impl RenderableCell {
    /// The cell of a plain character on an opaque background.
    pub open spec fn is_plain(
        self,
        point: Point<usize>,
        character: char,
        wide: bool,
        fg: Rgb,
        bg: Rgb,
    ) -> bool {
        &&& self.point == point
        &&& self.character == character
        &&& self.zerowidth@.len() == 0
        &&& self.flags == Flags::width(wide)
        &&& self.bg_alpha == 255
        &&& self.fg == fg
        &&& self.bg == bg
        &&& self.underline == fg
    }

    /// The cell of a plain character on an opaque background.
    pub fn plain(point: Point<usize>, character: char, wide: bool, fg: Rgb, bg: Rgb) -> (cell:
        RenderableCell)
        ensures
            cell.is_plain(point, character, wide, fg, bg),
            cell.point == point && cell.character == character,
            cell.fg == fg && cell.bg == bg && cell.underline == fg && cell.bg_alpha == 255,
    {
        RenderableCell {
            point,
            character,
            zerowidth: Vec::new(),
            flags: Flags::of_width(wide),
            bg_alpha: 255,
            fg,
            bg,
            underline: fg,
        }
    }
}

/// One of the four fonts.
#[derive(Clone, Copy, Debug, PartialEq, Eq, Structural)]
pub enum FontStyle {
    Regular,
    Bold,
    Italic,
    BoldItalic,
}

/// The font that a cell is drawn in.
pub fn font_style(flags: Flags) -> (style: FontStyle)
    ensures
        style == (match (flags.bold, flags.italic) {
            (true, true) => FontStyle::BoldItalic,
            (false, true) => FontStyle::Italic,
            (true, false) => FontStyle::Bold,
            (false, false) => FontStyle::Regular,
        }),
        flags.bold <==> style is Bold || style is BoldItalic,
        flags.italic <==> style is Italic || style is BoldItalic,
{
    match (flags.bold, flags.italic) {
        (true, true) => FontStyle::BoldItalic,
        (false, true) => FontStyle::Italic,
        (true, false) => FontStyle::Bold,
        (false, false) => FontStyle::Regular,
    }
}

/// The flag of an instance whose glyph has colors of its own, as the shader knows it.
pub const COLORED_FLAG: u8 = 1;

/// The flag of an instance that is two columns wide, as the shader knows it.
pub const WIDE_CHAR_FLAG: u8 = 2;

/// What the graphics card is told about one glyph on the screen.
#[derive(Clone, Copy, Debug, PartialEq, Eq, Structural)]
pub struct TextInstance {
    pub column: u16,
    pub line: u16,
    pub left: i16,
    pub top: i16,
    pub width: i16,
    pub height: i16,
    /// Area of the atlas page that holds the pixels.
    pub slot: Slot,
    /// Text color in linear space.
    pub text: Rgb,
    pub cell_flags: u8,
    /// Background color in linear space.
    pub background: Rgb,
    pub background_alpha: u8,
}

/// The values of sRGB bytes in linear space.
pub type LinearTable = [u8; 256];

/// A color in linear space.
pub open spec fn linear(table: LinearTable, color: Rgb) -> Rgb {
    Rgb { r: table[color.r as int], g: table[color.g as int], b: table[color.b as int] }
}

/// The value of an sRGB byte in linear space.
pub fn srgb_to_linear(table: &LinearTable, srgb: u8) -> (value: u8)
    ensures
        value == table[srgb as int],
{
    table[srgb as usize]
}

/// A color in linear space.
fn to_linear(table: &LinearTable, color: Rgb) -> (converted: Rgb)
    ensures
        converted == linear(*table, color),
{
    Rgb {
        r: srgb_to_linear(table, color.r),
        g: srgb_to_linear(table, color.g),
        b: srgb_to_linear(table, color.b),
    }
}

/// The flags of an instance.
pub open spec fn instance_flags(colored: bool, wide: bool) -> u8 {
    match (colored, wide) {
        (true, true) => 3,
        (true, false) => COLORED_FLAG,
        (false, true) => WIDE_CHAR_FLAG,
        (false, false) => 0,
    }
}

/// The instance of a glyph in a cell. Grid positions keep their low 16 bits.
pub open spec fn instance_of(
    cell: RenderableCell,
    background_alpha: u8,
    glyph: Glyph,
    table: LinearTable,
) -> TextInstance {
    TextInstance {
        column: cell.point.column.0 as u16,
        line: cell.point.line as u16,
        left: glyph.left,
        top: glyph.top,
        width: glyph.width,
        height: glyph.height,
        slot: glyph.slot,
        text: linear(table, cell.fg),
        cell_flags: instance_flags(glyph.multicolor, cell.flags.wide_char),
        background: linear(table, cell.bg),
        background_alpha,
    }
}

/// Make the instance of a glyph in a cell.
pub fn create_instance(
    cell: &RenderableCell,
    background_alpha: u8,
    glyph: &Glyph,
    table: &LinearTable,
) -> (instance: TextInstance)
    ensures
        instance == instance_of(*cell, background_alpha, *glyph, *table),
{
    let mut cell_flags: u8 = 0;
    if glyph.multicolor {
        cell_flags = cell_flags | COLORED_FLAG;
    }
    if cell.flags.wide_char {
        cell_flags = cell_flags | WIDE_CHAR_FLAG;
    }
    assert(0u8 | 1u8 == 1u8 && 0u8 | 2u8 == 2u8 && 1u8 | 2u8 == 3u8) by (bit_vector);
    TextInstance {
        column: cell.point.column.0 as u16,
        line: cell.point.line as u16,
        left: glyph.left,
        top: glyph.top,
        width: glyph.width,
        height: glyph.height,
        slot: glyph.slot,
        text: to_linear(table, cell.fg),
        cell_flags,
        background: to_linear(table, cell.bg),
        background_alpha,
    }
}

/// The columns that a character takes, if it is not a control character.
pub uninterp spec fn char_width(character: char) -> Option<usize>;

/// `UnicodeWidthChar::width`: the columns that a character takes, none for a control character.
/// It depends on the character alone, and no character takes more than three columns.
#[verifier::external_body]
pub(crate) fn width_of(character: char) -> (width: Option<usize>)
    ensures
        width == char_width(character),
        width matches Some(columns) ==> columns <= 3,
{
    UnicodeWidthChar::width(character)
}

/// The columns that a character takes on the screen: at least one.
pub open spec fn columns_of(character: char) -> int {
    match char_width(character) {
        Some(width) => if width > 1 {
            width as int
        } else {
            1
        },
        None => 1,
    }
}

/// The column after the first `count` characters of a text that starts at `column`.
pub open spec fn column_after(column: int, text: Seq<char>, count: int) -> int
    decreases count,
{
    if count <= 0 {
        column
    } else {
        column_after(column, text, count - 1) + columns_of(text[count - 1])
    }
}

/// The characters of a text do not overlap: each begins after the last column of every one before
/// it.
pub proof fn characters_do_not_overlap(column: int, text: Seq<char>, i: int, j: int)
    requires
        0 <= i < j <= text.len(),
    ensures
        column_after(column, text, i) + columns_of(text[i]) <= column_after(column, text, j),
        columns_of(text[i]) >= 1,
    decreases j,
{
    if i + 1 < j {
        characters_do_not_overlap(column, text, i, j - 1);
    }
}

/// Whether a cell is that of character `i` of a text that starts at `point`.
pub open spec fn string_cell_at(
    cell: RenderableCell,
    i: int,
    point: Point<usize>,
    fg: Rgb,
    bg: Rgb,
    text: Seq<char>,
) -> bool {
    let column = column_after(point.column.0 as int, text, i);
    &&& column <= usize::MAX
    &&& cell.is_plain(
        Point { line: point.line, column: Column(column as usize) },
        text[i],
        columns_of(text[i]) > 1,
        fg,
        bg,
    )
}

/// The cells of a text: each character stands right of the one before it.
pub fn string_cells(point: Point<usize>, fg: Rgb, bg: Rgb, text: &Vec<char>) -> (cells: Vec<
    RenderableCell,
>)
    requires
        point.column.0 + 3 * text@.len() <= usize::MAX,
    ensures
        cells@.len() == text@.len(),
        forall|i: int|
            0 <= i < text@.len() ==> string_cell_at(#[trigger] cells@[i], i, point, fg, bg, text@),
{
    let mut cells: Vec<RenderableCell> = Vec::new();
    let mut column: usize = point.column.0;
    let mut index: usize = 0;
    while index < text.len()
        invariant
            point.column.0 + 3 * text@.len() <= usize::MAX,
            index <= text@.len(),
            cells@.len() == index,
            column == column_after(point.column.0 as int, text@, index as int),
            column <= point.column.0 + 3 * index,
            forall|i: int|
                0 <= i < index ==> string_cell_at(
                    #[trigger] cells@[i],
                    i,
                    point,
                    fg,
                    bg,
                    text@,
                ),
        decreases text@.len() - index,
    {
        let character: char = text[index];
        let width: usize = match width_of(character) {
            Some(width) => if width > 1 {
                width
            } else {
                1
            },
            None => 1,
        };
        let cell = RenderableCell::plain(
            Point::new(point.line, Column(column)),
            character,
            width > 1,
            fg,
            bg,
        );
        cells.push(cell);
        column += width;
        index += 1;
    }
    cells
}

/// The positions of the characters of a text that are drawn where every character has a column of
/// its own, and the one after a wide character is its spacer.
pub open spec fn drawn_positions(text: Seq<char>, from: int) -> Seq<int>
    decreases text.len() - from,
{
    if from < 0 || from >= text.len() {
        Seq::empty()
    } else if char_width(text[from]) == Some(2usize) && from + 1 < text.len() {
        seq![from] + drawn_positions(text, from + 2)
    } else {
        seq![from] + drawn_positions(text, from + 1)
    }
}

/// Whether a cell is that of the character at `position` of a text that starts at `point` and
/// whose characters have a column each.
pub open spec fn spaced_cell_at(
    cell: RenderableCell,
    position: int,
    point: Point<usize>,
    fg: Rgb,
    bg: Rgb,
    text: Seq<char>,
) -> bool {
    &&& 0 <= position < text.len()
    &&& cell.is_plain(
        Point { line: point.line, column: Column((point.column.0 + position) as usize) },
        text[position],
        char_width(text[position]) == Some(2usize),
        fg,
        bg,
    )
}

/// The cells of a text whose wide characters are followed by spacers, which are not drawn.
pub fn spaced_string_cells(point: Point<usize>, fg: Rgb, bg: Rgb, text: &Vec<char>) -> (cells: Vec<
    RenderableCell,
>)
    requires
        point.column.0 + text@.len() <= usize::MAX,
    ensures
        cells@.len() == drawn_positions(text@, 0).len(),
        forall|i: int|
            0 <= i < cells@.len() ==> spaced_cell_at(
                #[trigger] cells@[i],
                drawn_positions(text@, 0)[i],
                point,
                fg,
                bg,
                text@,
            ),
{
    let mut cells: Vec<RenderableCell> = Vec::new();
    let ghost all = drawn_positions(text@, 0);
    let ghost mut done: Seq<int> = Seq::empty();
    let mut index: usize = 0;
    assert(done + all =~= all);
    while index < text.len()
        invariant
            point.column.0 + text@.len() <= usize::MAX,
            index <= text@.len(),
            all == drawn_positions(text@, 0),
            done + drawn_positions(text@, index as int) == all,
            cells@.len() == done.len(),
            forall|i: int|
                0 <= i < cells@.len() ==> spaced_cell_at(
                    #[trigger] cells@[i],
                    done[i],
                    point,
                    fg,
                    bg,
                    text@,
                ),
        decreases text@.len() - index,
    {
        let character: char = text[index];
        let wide = match width_of(character) {
            Some(width) => width == 2,
            None => false,
        };
        let column: usize = point.column.0 + index;
        cells.push(RenderableCell::plain(Point::new(point.line, Column(column)), character, wide, fg, bg));
        let ghost next = if wide && index + 1 < text@.len() {
            index + 2
        } else {
            index + 1
        };
        proof {
            let before = done;
            done = done.push(index as int);
            assert(done + drawn_positions(text@, next) =~= before + (seq![index as int]
                + drawn_positions(text@, next)));
        }
        if wide && index + 1 < text.len() {
            index += 2;
        } else {
            index += 1;
        }
    }
    assert(done + drawn_positions(text@, index as int) =~= done);
    cells
}

/// A character that is to be drawn, and whether it has a substitute where no font has it.
#[derive(Clone, Copy, Debug, PartialEq, Eq, Structural)]
pub struct GlyphRequest {
    pub character: char,
    pub show_missing: bool,
}

impl GlyphRequest {
    fn new(character: char, show_missing: bool) -> (request: GlyphRequest)
        ensures
            request.character == character,
            request.show_missing == show_missing,
    {
        GlyphRequest { character, show_missing }
    }
}

/// The character that stands in a cell: hidden cells and tabs are blank.
pub open spec fn shown_character(cell: RenderableCell) -> char {
    if cell.character == '\t' || cell.flags.hidden {
        ' '
    } else {
        cell.character
    }
}

/// The glyph of the character of a cell and the first `count` glyphs on top of it.
pub open spec fn requests_upto(cell: RenderableCell, count: nat) -> Seq<GlyphRequest>
    decreases count,
{
    if count == 0 {
        seq![GlyphRequest { character: shown_character(cell), show_missing: true }]
    } else {
        requests_upto(cell, (count - 1) as nat).push(
            GlyphRequest { character: cell.zerowidth@[count - 1], show_missing: false },
        )
    }
}

/// The glyphs of a cell: that of its character, and those on top of it unless it is hidden.
pub open spec fn requests_of(cell: RenderableCell) -> Seq<GlyphRequest> {
    requests_upto(cell, if cell.flags.hidden { 0 } else { cell.zerowidth@.len() })
}

/// The glyphs that a cell needs: those of its character and of everything on top of it, in order. A
/// tab is blank, and a hidden cell shows nothing at all. Only the character itself has a substitute
/// where no font has it.
pub fn cell_glyphs(cell: &RenderableCell) -> (requests: Vec<GlyphRequest>)
    ensures
        requests@ == requests_of(*cell),
        requests@.len() == 1 + if cell.flags.hidden {
            0
        } else {
            cell.zerowidth@.len()
        },
        requests@[0].show_missing,
        requests@[0].character == if cell.character == '\t' || cell.flags.hidden {
            ' '
        } else {
            cell.character
        },
        forall|k: int|
            1 <= k < requests@.len() ==> (#[trigger] requests@[k]).character == cell.zerowidth@[k
                - 1] && !requests@[k].show_missing,
{
    let hidden = cell.flags.hidden;
    let character: char = if cell.character == '\t' || hidden {
        ' '
    } else {
        cell.character
    };
    let mut requests: Vec<GlyphRequest> = Vec::new();
    requests.push(GlyphRequest { character, show_missing: true });
    assert(requests@ =~= requests_upto(*cell, 0));
    if hidden {
        return requests;
    }
    let mut index: usize = 0;
    while index < cell.zerowidth.len()
        invariant
            index <= cell.zerowidth@.len(),
            requests@ == requests_upto(*cell, index as nat),
            requests@.len() == index + 1,
            requests@[0] == (GlyphRequest { character, show_missing: true }),
            forall|k: int|
                1 <= k < requests@.len() ==> (#[trigger] requests@[k]).character
                    == cell.zerowidth@[k - 1] && !requests@[k].show_missing,
        decreases cell.zerowidth@.len() - index,
    {
        let mark = GlyphRequest::new(cell.zerowidth[index], false);
        requests.push(mark);
        index += 1;
    }
    requests
}

/// An instance shows the glyph that it is made for: it takes its pixels from where the glyph has
/// them, puts them where the glyph belongs in its cell, and has the colors of the cell. Its flags say
/// whether the glyph is colored and whether the cell is wide.
pub proof fn instance_shows_its_glyph(
    cell: RenderableCell,
    background_alpha: u8,
    glyph: Glyph,
    table: LinearTable,
)
    ensures
        ({
            let instance = instance_of(cell, background_alpha, glyph, table);
            &&& instance.slot.x == glyph.slot.x
            &&& instance.slot.y == glyph.slot.y
            &&& instance.slot.width == glyph.slot.width
            &&& instance.slot.height == glyph.slot.height
            &&& instance.left == glyph.left
            &&& instance.top == glyph.top
            &&& instance.width == glyph.width
            &&& instance.height == glyph.height
            &&& cell.point.column.0 < 0x1_0000 ==> instance.column == cell.point.column.0
            &&& cell.point.line < 0x1_0000 ==> instance.line == cell.point.line
            &&& instance.text.r == table[cell.fg.r as int]
            &&& instance.text.g == table[cell.fg.g as int]
            &&& instance.text.b == table[cell.fg.b as int]
            &&& instance.background.r == table[cell.bg.r as int]
            &&& instance.background.g == table[cell.bg.g as int]
            &&& instance.background.b == table[cell.bg.b as int]
            &&& instance.background_alpha == background_alpha
            &&& instance.cell_flags < 4
            &&& instance.cell_flags % 2 == 1 <==> glyph.multicolor
            &&& instance.cell_flags / 2 == 1 <==> cell.flags.wide_char
        }),
{
}

/// What is drawn for a cell is what was copied for its glyph: the pixel at offset (`dx`, `dy`) of the
/// area that the instance names is pixel (`dx`, `dy`) of the bitmap.
pub proof fn instance_samples_the_bitmap(
    before: GlyphAtlas,
    after: GlyphAtlas,
    rasterized: RasterizedGlyph,
    loaded: (Glyph, Option<Upload>),
    cell: RenderableCell,
    background_alpha: u8,
    table: LinearTable,
    dx: int,
    dy: int,
)
    requires
        took(before, after, rasterized, loaded),
        loaded.1 is Some,
        rasterized.buffer matches BitmapBuffer::Rgb(bytes) && bytes@.len() == 3 * (rasterized.width
            * rasterized.height),
        0 <= dx < rasterized.width,
        0 <= dy < rasterized.height,
    ensures
        ({
            let slot = instance_of(cell, background_alpha, loaded.0, table).slot;
            let upload = loaded.1->0;
            let bytes = rasterized.buffer->Rgb_0@;
            let pixel = dy * rasterized.width + dx;
            &&& upload.page == loaded.0.atlas_index
            &&& slot.x == upload.slot.x && slot.y == upload.slot.y
            &&& slot.width == upload.slot.width == rasterized.width
            &&& slot.height == upload.slot.height == rasterized.height
            &&& upload.rgba@.len() == 4 * (rasterized.width * rasterized.height)
            &&& 0 <= pixel && 4 * pixel + 3 < upload.rgba@.len()
            &&& upload.rgba@[4 * pixel + 3] == bytes[3 * pixel]
        }),
{
    let pixel = dy * rasterized.width + dx;
    assert(0 <= pixel < rasterized.width * rasterized.height) by (nonlinear_arith)
        requires
            pixel == dy * rasterized.width + dx,
            0 <= dx < rasterized.width,
            0 <= dy < rasterized.height,
    ;
    upload_looks_like_the_glyph(before, after, rasterized, loaded, pixel);
    glyph_names_its_pixels(before, after, rasterized, loaded);
    instance_shows_its_glyph(cell, background_alpha, loaded.0, table);
}

/// A text is laid out from left to right: cell `i` shows character `i`, the first cell stands where
/// the text starts, and each cell begins where the one before it ends.
pub proof fn text_is_laid_out_in_order(
    cells: Seq<RenderableCell>,
    point: Point<usize>,
    fg: Rgb,
    bg: Rgb,
    text: Seq<char>,
    i: int,
)
    requires
        0 <= i < text.len(),
        cells.len() == text.len(),
        forall|k: int|
            0 <= k < text.len() ==> string_cell_at(#[trigger] cells[k], k, point, fg, bg, text),
    ensures
        cells[i].character == text[i],
        cells[i].point.line == point.line,
        i == 0 ==> cells[i].point.column.0 == point.column.0,
        i > 0 ==> cells[i].point.column.0 == cells[i - 1].point.column.0 + if cells[i
            - 1].flags.wide_char {
            char_width(text[i - 1])->0 as int
        } else {
            1
        },
        cells[i].flags.wide_char <==> char_width(text[i]) is Some && char_width(text[i])->0 >= 2,
        cells[i].fg == fg,
        cells[i].bg == bg,
        cells[i].bg_alpha == 255,
        !cells[i].flags.hidden,
        cells[i].zerowidth@.len() == 0,
{
    assert(string_cell_at(cells[i], i, point, fg, bg, text));
    if i > 0 {
        assert(string_cell_at(cells[i - 1], i - 1, point, fg, bg, text));
        characters_do_not_overlap(point.column.0 as int, text, 0, i);
        if i > 1 {
            characters_do_not_overlap(point.column.0 as int, text, 0, i - 1);
        }
        assert(column_after(point.column.0 as int, text, 0) == point.column.0);
    } else {
        assert(column_after(point.column.0 as int, text, 0) == point.column.0);
    }
}

proof fn drawn_positions_from(text: Seq<char>, from: int, i: int)
    requires
        0 <= from,
        0 <= i < drawn_positions(text, from).len(),
    ensures
        ({
            let drawn = drawn_positions(text, from);
            &&& from <= drawn[i] < text.len()
            &&& i == 0 ==> drawn[i] == from
            &&& i + 1 < drawn.len() ==> drawn[i + 1] == drawn[i] + if char_width(text[drawn[i]])
                == Some(2usize) {
                2int
            } else {
                1
            }
            &&& i + 1 == drawn.len() ==> drawn[i] + if char_width(text[drawn[i]]) == Some(2usize) {
                2int
            } else {
                1
            } >= text.len()
        }),
    decreases text.len() - from,
{
    let drawn = drawn_positions(text, from);
    let next = if char_width(text[from]) == Some(2usize) && from + 1 < text.len() {
        from + 2
    } else {
        from + 1
    };
    assert(drawn =~= seq![from] + drawn_positions(text, next));
    if i > 0 {
        assert(drawn[i] == drawn_positions(text, next)[i - 1]);
        drawn_positions_from(text, next, i - 1);
    } else if drawn.len() > 1 {
        drawn_positions_from(text, next, 0);
    }
}

/// Where characters have a column each, the spacer behind a wide character is left out and every
/// other character is drawn in its own column.
pub proof fn spacers_are_left_out(
    cells: Seq<RenderableCell>,
    point: Point<usize>,
    fg: Rgb,
    bg: Rgb,
    text: Seq<char>,
    i: int,
)
    requires
        point.column.0 + text.len() <= usize::MAX,
        0 <= i < cells.len(),
        cells.len() == drawn_positions(text, 0).len(),
        forall|k: int|
            0 <= k < cells.len() ==> spaced_cell_at(
                #[trigger] cells[k],
                drawn_positions(text, 0)[k],
                point,
                fg,
                bg,
                text,
            ),
    ensures
        ({
            let at = cells[i].point.column.0 - point.column.0;
            let step = if char_width(text[at]) == Some(2usize) {
                2int
            } else {
                1
            };
            &&& 0 <= at < text.len()
            &&& i == 0 ==> at == 0
            &&& i + 1 < cells.len() ==> cells[i + 1].point.column.0 == cells[i].point.column.0
                + step
            &&& i + 1 == cells.len() ==> at + step >= text.len()
            &&& cells[i].character == text[at]
            &&& cells[i].flags.wide_char <==> char_width(text[at]) == Some(2usize)
            &&& cells[i].point.line == point.line
            &&& cells[i].fg == fg
            &&& cells[i].bg == bg
        }),
{
    drawn_positions_from(text, 0, i);
    assert(spaced_cell_at(cells[i], drawn_positions(text, 0)[i], point, fg, bg, text));
    if i + 1 < cells.len() {
        assert(spaced_cell_at(cells[i + 1], drawn_positions(text, 0)[i + 1], point, fg, bg, text));
        drawn_positions_from(text, 0, i + 1);
    }
}

} // verus!
