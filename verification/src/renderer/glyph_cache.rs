//! The glyphs that have been drawn before, and the fonts that they come from.

use crate::renderer::atlas::{took, BitmapBuffer, Glyph, GlyphAtlas, RasterizedGlyph, Row, Upload};
use crate::renderer::content::{char_width, width_of, FontStyle};
use crate::text::same_text;
use std::collections::HashMap;
use vstd::prelude::*;
use vstd::string::*;

verus! {

broadcast use {vstd::std_specs::hash::group_hash_axioms, vstd::string::group_string_axioms};

/// Everything that the looks of a glyph depend on.
#[derive(Clone, Copy, Debug, PartialEq, Eq, Structural)]
pub struct GlyphKey {
    /// The number of the font.
    pub font: u32,
    /// The size of the font.
    pub size: u32,
    pub character: char,
}

/// The key of a glyph as one number.
pub open spec fn key_number(key: GlyphKey) -> int {
    key.font * 0x1_0000_0000_0000_0000 + key.size * 0x1_0000_0000 + key.character as int
}

/// Different keys have different numbers.
proof fn key_numbers_differ(first: GlyphKey, second: GlyphKey)
    requires
        key_number(first) == key_number(second),
    ensures
        first == second,
{
}

/// A distance in pixels.
#[derive(Clone, Copy, Debug, Default, PartialEq, Eq, Structural)]
pub struct Delta {
    pub x: i8,
    pub y: i8,
}

/// The metrics of a font that decide where a glyph is put, in whole pixels.
#[derive(Clone, Copy, Debug, Default, PartialEq, Eq, Structural)]
pub struct Metrics {
    pub descent: i32,
    pub average_advance: i32,
}

/// The numbers of the four fonts.
#[derive(Clone, Copy, Debug, Default, PartialEq, Eq, Structural)]
pub struct FontKeys {
    pub regular: u32,
    pub bold: u32,
    pub italic: u32,
    pub bold_italic: u32,
}

impl FontKeys {
    /// The font of a style.
    pub open spec fn font(self, style: FontStyle) -> u32 {
        match style {
            FontStyle::Regular => self.regular,
            FontStyle::Bold => self.bold,
            FontStyle::Italic => self.italic,
            FontStyle::BoldItalic => self.bold_italic,
        }
    }

    /// The font of a style.
    pub fn get(&self, style: FontStyle) -> (font: u32)
        ensures
            font == self.font(style),
    {
        match style {
            FontStyle::Regular => self.regular,
            FontStyle::Bold => self.bold,
            FontStyle::Italic => self.italic,
            FontStyle::BoldItalic => self.bold_italic,
        }
    }
}

/// What came of rasterizing a glyph.
#[derive(Debug)]
pub enum Rasterized {
    /// The glyph.
    Found(RasterizedGlyph),
    /// A substitute, as no font has the glyph.
    Missing(RasterizedGlyph),
    /// Nothing.
    Failed,
}

/// Where a glyph is put within its cell: moved by the configured offset and by the descent of the
/// font. A character without a width is drawn within the cell before it, so that it lies one cell
/// further to the right. Positions wrap around at the limits of their type.
pub open spec fn shifted(glyph: RasterizedGlyph, offset: Delta, metrics: Metrics) -> RasterizedGlyph {
    let left = glyph.left.wrapping_add(offset.x as i32);
    RasterizedGlyph {
        left: if char_width(glyph.character) == Some(0usize) {
            left.wrapping_add(metrics.average_advance)
        } else {
            left
        },
        top: glyph.top.wrapping_add(offset.y as i32).wrapping_sub(metrics.descent),
        ..glyph
    }
}

/// A glyph without pixels, in place of one that cannot be had.
pub open spec fn is_blank(glyph: RasterizedGlyph) -> bool {
    &&& glyph.character == ' '
    &&& glyph.width == 0
    &&& glyph.height == 0
    &&& glyph.top == 0
    &&& glyph.left == 0
    &&& glyph.buffer matches BitmapBuffer::Rgb(pixels) && pixels@.len() == 0
}

/// A glyph without pixels.
fn blank_glyph() -> (glyph: RasterizedGlyph)
    ensures
        is_blank(glyph),
{
    RasterizedGlyph {
        character: ' ',
        width: 0,
        height: 0,
        top: 0,
        left: 0,
        buffer: BitmapBuffer::Rgb(Vec::new()),
    }
}

/// The glyphs that are in the atlas, and the fonts that they come from.
pub struct GlyphCache {
    pub cache: HashMap<u128, Glyph>,
    pub fonts: FontKeys,
    pub font_size: u32,
    pub font_offset: Delta,
    pub glyph_offset: Delta,
    pub metrics: Metrics,
    /// Whether box drawing characters are drawn without a font.
    pub builtin_box_drawing: bool,
}

/// The settings of the fonts.
#[derive(Clone, Copy, Debug, PartialEq, Eq, Structural)]
pub struct FontSettings {
    pub size: u32,
    pub offset: Delta,
    pub glyph_offset: Delta,
    pub builtin_box_drawing: bool,
}

impl GlyphCache {
    /// The glyph of a key, if it is in the atlas.
    pub open spec fn cached(self, key: GlyphKey) -> Option<Glyph> {
        if self.cache@.contains_key(key_number(key) as u128) {
            Some(self.cache@[key_number(key) as u128])
        } else {
            None
        }
    }

    /// Every glyph lies on a page of the atlas.
    pub open spec fn lies_in(self, atlas: GlyphAtlas) -> bool {
        forall|key: GlyphKey|
            (#[trigger] self.cached(key)) is Some ==> self.cached(key)->0.atlas_index
                < atlas.pages@.len()
    }

    /// Whether everything but the glyphs is the same.
    pub open spec fn same_fonts(self, other: GlyphCache) -> bool {
        &&& self.fonts == other.fonts
        &&& self.font_size == other.font_size
        &&& self.font_offset == other.font_offset
        &&& self.glyph_offset == other.glyph_offset
        &&& self.metrics == other.metrics
        &&& self.builtin_box_drawing == other.builtin_box_drawing
    }

    /// A cache without glyphs, for fonts that have been loaded.
    pub fn new(font: &FontSettings, fonts: FontKeys, metrics: Metrics) -> (cache: GlyphCache)
        ensures
            forall|key: GlyphKey| #[trigger] cache.cached(key) is None,
            cache.fonts == fonts,
            cache.font_size == font.size,
            cache.font_offset == font.offset,
            cache.glyph_offset == font.glyph_offset,
            cache.metrics == metrics,
            cache.builtin_box_drawing == font.builtin_box_drawing,
    {
        GlyphCache {
            cache: HashMap::new(),
            fonts,
            font_size: font.size,
            font_offset: font.offset,
            glyph_offset: font.glyph_offset,
            metrics,
            builtin_box_drawing: font.builtin_box_drawing,
        }
    }

    /// The key of a glyph as one number.
    fn number(key: GlyphKey) -> (number: u128)
        ensures
            number == key_number(key),
    {
        key.font as u128 * 0x1_0000_0000_0000_0000 + key.size as u128 * 0x1_0000_0000
            + key.character as u32 as u128
    }

    /// The glyph of a key, if it is in the atlas.
    pub fn lookup(&self, key: GlyphKey) -> (glyph: Option<Glyph>)
        ensures
            glyph == self.cached(key),
    {
        match self.cache.get(&GlyphCache::number(key)) {
            Some(glyph) => Some(*glyph),
            None => None,
        }
    }

    /// What a glyph looks like, given what the built-in font and the fonts of the user have for it.
    /// The built-in font goes first, where it is on.
    pub fn chosen(&self, builtin: Option<RasterizedGlyph>, font: Rasterized) -> (chosen: Rasterized)
        ensures
            chosen == (if self.builtin_box_drawing && builtin is Some {
                Rasterized::Found(builtin->0)
            } else {
                font
            }),
    {
        match builtin {
            Some(glyph) if self.builtin_box_drawing => Rasterized::Found(glyph),
            _ => font,
        }
    }

    /// Remember the glyph of a key.
    fn remember(&mut self, key: GlyphKey, glyph: Glyph)
        ensures
            final(self).cached(key) == Some(glyph),
            forall|other: GlyphKey|
                other != key ==> #[trigger] final(self).cached(other) == old(self).cached(other),
            final(self).same_fonts(*old(self)),
    {
        let number: u128 = GlyphCache::number(key);
        self.cache.insert(number, glyph);
        assert forall|other: GlyphKey| other != key implies #[trigger] self.cached(other) == old(
            self,
        ).cached(other) by {
            if key_number(other) == key_number(key) {
                key_numbers_differ(other, key);
            }
        }
    }

    /// Put a glyph into the atlas, once it has been moved to its place within the cell.
    pub fn load_glyph(&self, atlas: &mut GlyphAtlas, glyph: RasterizedGlyph) -> (loaded: (
        Glyph,
        Option<Upload>,
    ))
        requires
            old(atlas).well_formed(),
        ensures
            final(atlas).well_formed(),
            took(
                *old(atlas),
                *final(atlas),
                shifted(glyph, self.glyph_offset, self.metrics),
                loaded,
            ),
            loaded.0.atlas_index < final(atlas).pages@.len(),
            old(atlas).pages@.len() <= final(atlas).pages@.len(),
    {
        let mut glyph = glyph;
        let ghost given = glyph;
        glyph.left = glyph.left.wrapping_add(self.glyph_offset.x as i32);
        glyph.top = glyph.top.wrapping_add(self.glyph_offset.y as i32);
        glyph.top = glyph.top.wrapping_sub(self.metrics.descent);
        if let Some(width) = width_of(glyph.character) {
            if width == 0 {
                glyph.left = glyph.left.wrapping_add(self.metrics.average_advance);
            }
        }
        assert(glyph == shifted(given, self.glyph_offset, self.metrics));
        atlas.load_glyph(&glyph)
    }

    /// Whether `after`, `atlas_after` and `loaded` are what comes of getting the glyph of a key.
    pub open spec fn got(
        self,
        atlas: GlyphAtlas,
        key: GlyphKey,
        rasterized: Rasterized,
        show_missing: bool,
        after: Self,
        atlas_after: GlyphAtlas,
        loaded: (Glyph, Option<Upload>),
    ) -> bool {
        let missing = GlyphKey { character: '\0', ..key };
        let substitutes = rasterized is Missing && show_missing;
        &&& after.same_fonts(self)
        &&& after.cached(key) == Some(loaded.0)
        &&& self.cached(key) is Some ==> {
            &&& loaded.1 is None
            &&& atlas_after == atlas
            &&& after == self
        }
        &&& self.cached(key) is None ==> {
            &&& substitutes && self.cached(missing) is Some ==> {
                &&& loaded.0 == self.cached(missing)->0
                &&& loaded.1 is None
                &&& atlas_after == atlas
            }
            &&& substitutes && self.cached(missing) is None ==> took(
                atlas,
                atlas_after,
                shifted(rasterized->Missing_0, self.glyph_offset, self.metrics),
                loaded,
            ) && after.cached(missing) == Some(loaded.0)
            &&& rasterized is Found ==> took(
                atlas,
                atlas_after,
                shifted(rasterized->Found_0, self.glyph_offset, self.metrics),
                loaded,
            )
            &&& rasterized is Failed || rasterized is Missing && !show_missing ==> exists|
                blank: RasterizedGlyph,
            | #[trigger]
                is_blank(blank) && took(
                    atlas,
                    atlas_after,
                    shifted(blank, self.glyph_offset, self.metrics),
                    loaded,
                )
            &&& forall|other: GlyphKey|
                other != key && !(substitutes && other == missing) ==> #[trigger] after.cached(
                    other,
                ) == self.cached(other)
        }
        // What is drawn for a key never changes until the cache is reset.
        &&& forall|other: GlyphKey|
            self.cached(other) is Some ==> #[trigger] after.cached(other) == self.cached(other)
    }

    /// Get the glyph of a key. One that is not in the atlas yet is put there and remembered;
    /// `rasterized` is what it looks like. A substitute is put there once for all the glyphs of a
    /// font that no font has, unless nothing is to be shown for them.
    ///
    /// The upload that comes with the glyph brings its pixels to the atlas.
    pub fn get(
        &mut self,
        atlas: &mut GlyphAtlas,
        key: GlyphKey,
        rasterized: Rasterized,
        show_missing: bool,
    ) -> (loaded: (Glyph, Option<Upload>))
        requires
            old(atlas).well_formed(),
        ensures
            final(atlas).well_formed(),
            old(self).got(
                *old(atlas),
                key,
                rasterized,
                show_missing,
                *final(self),
                *final(atlas),
                loaded,
            ),
            old(self).lies_in(*old(atlas)) ==> final(self).lies_in(*final(atlas)),
    {
        if let Some(glyph) = self.lookup(key) {
            return (glyph, None);
        }
        let loaded = match rasterized {
            Rasterized::Found(glyph) => self.load_glyph(atlas, glyph),
            Rasterized::Missing(glyph) if show_missing => {
                let missing = GlyphKey { font: key.font, size: key.size, character: '\0' };
                match self.lookup(missing) {
                    Some(glyph) => (glyph, None),
                    None => {
                        let loaded = self.load_glyph(atlas, glyph);
                        self.remember(missing, loaded.0);
                        loaded
                    },
                }
            },
            _ => {
                let blank = blank_glyph();
                self.load_glyph(atlas, blank)
            },
        };
        self.remember(key, loaded.0);
        loaded
    }

    /// Forget all glyphs, in the cache and in the atlas.
    pub fn reset_glyph_cache(&mut self, atlas: &mut GlyphAtlas)
        requires
            old(atlas).well_formed(),
        ensures
            final(atlas).well_formed(),
            final(atlas).pages@.len() == 1,
            final(atlas).pages@[0].row == (Row { extent: 0, baseline: 0, tallest: 0 }),
            final(atlas).pages@[0].placed@.len() == 0,
            forall|key: GlyphKey| #[trigger] final(self).cached(key) is None,
            final(self).lies_in(*final(atlas)),
            final(self).same_fonts(*old(self)),
    {
        atlas.clear();
        self.cache = HashMap::new();
    }

    /// Whether `after` has the fonts of the new settings.
    pub open spec fn updated(
        self,
        font: FontSettings,
        loaded: Option<(FontKeys, Metrics)>,
        after: GlyphCache,
    ) -> bool {
        &&& after.font_offset == font.offset
        &&& after.glyph_offset == font.glyph_offset
        &&& match loaded {
            Some((fonts, metrics)) => {
                &&& after.fonts == fonts
                &&& after.metrics == metrics
                &&& after.font_size == font.size
                &&& after.builtin_box_drawing == font.builtin_box_drawing
            },
            None => {
                &&& after.fonts == self.fonts
                &&& after.metrics == self.metrics
                &&& after.font_size == self.font_size
                &&& after.builtin_box_drawing == self.builtin_box_drawing
            },
        }
    }

    /// Take other settings of the fonts over. The offsets change in any case, everything else only
    /// where the fonts could be loaded; glyphs stay until the cache is reset.
    pub fn update_font_size(&mut self, font: &FontSettings, loaded: Option<(FontKeys, Metrics)>)
        ensures
            final(self).cache == old(self).cache,
            old(self).updated(*font, loaded, *final(self)),
    {
        self.font_offset = font.offset;
        self.glyph_offset = font.glyph_offset;
        if let Some((fonts, metrics)) = loaded {
            self.font_size = font.size;
            self.fonts = fonts;
            self.metrics = metrics;
            self.builtin_box_drawing = font.builtin_box_drawing;
        }
    }

    /// The font whose glyph `i` is prefetched.
    pub open spec fn prefetched_font(self, i: int) -> u32 {
        if i < 95 {
            self.fonts.regular
        } else if i < 190 {
            self.fonts.bold
        } else if i < 285 {
            self.fonts.italic
        } else {
            self.fonts.bold_italic
        }
    }

    /// Whether these are the keys of the glyphs that are prefetched.
    pub open spec fn are_common(self, keys: Seq<GlyphKey>) -> bool {
        &&& keys.len() == 380
        &&& forall|i: int|
            0 <= i < keys.len() ==> {
                &&& (#[trigger] keys[i]).font == self.prefetched_font(i)
                &&& keys[i].size == self.font_size
                &&& keys[i].character as int == 32 + i % 95
            }
    }

    /// Append the keys of the printable ASCII characters of a font.
    fn push_ascii(&self, keys: &mut Vec<GlyphKey>, font: u32)
        ensures
            final(keys)@.len() == old(keys)@.len() + 95,
            forall|i: int| 0 <= i < old(keys)@.len() ==> final(keys)@[i] == old(keys)@[i],
            forall|i: int|
                old(keys)@.len() <= i < final(keys)@.len() ==> {
                    &&& (#[trigger] final(keys)@[i]).font == font
                    &&& final(keys)@[i].size == self.font_size
                    &&& final(keys)@[i].character as int == 32 + i - old(keys)@.len()
                },
    {
        let mut code: u8 = 32;
        while code <= 126
            invariant
                32 <= code <= 127,
                keys@.len() == old(keys)@.len() + code - 32,
                forall|i: int| 0 <= i < old(keys)@.len() ==> keys@[i] == old(keys)@[i],
                forall|i: int|
                    old(keys)@.len() <= i < keys@.len() ==> {
                        &&& (#[trigger] keys@[i]).font == font
                        &&& keys@[i].size == self.font_size
                        &&& keys@[i].character as int == 32 + i - old(keys)@.len()
                    },
            decreases 127 - code,
        {
            keys.push(GlyphKey { font, size: self.font_size, character: code as char });
            code += 1;
        }
    }

    /// The glyphs that are almost certain to be needed: printable ASCII in all four fonts.
    pub fn common_glyphs(&self) -> (keys: Vec<GlyphKey>)
        ensures
            self.are_common(keys@),
    {
        let mut keys: Vec<GlyphKey> = Vec::new();
        self.push_ascii(&mut keys, self.fonts.regular);
        self.push_ascii(&mut keys, self.fonts.bold);
        self.push_ascii(&mut keys, self.fonts.italic);
        self.push_ascii(&mut keys, self.fonts.bold_italic);
        keys
    }
}

/// The description of a font.
#[derive(Debug)]
pub struct FontDescription {
    pub family: String,
    pub style: Option<String>,
}

/// The style of a font: the name of it, or what it is like.
#[derive(Debug)]
pub enum Style {
    Specific(String),
    Description { italic: bool, bold: bool },
}

/// A font that can be asked for.
#[derive(Debug)]
pub struct FontDesc {
    pub name: String,
    pub style: Style,
}

/// What a font is asked for by.
pub enum FontName {
    Specific(Seq<char>, Seq<char>),
    Description(Seq<char>, bool, bool),
}

impl View for FontDesc {
    type V = FontName;

    open spec fn view(&self) -> FontName {
        match self.style {
            Style::Specific(style) => FontName::Specific(self.name@, style@),
            Style::Description { italic, bold } => FontName::Description(self.name@, italic, bold),
        }
    }
}

/// What a described font is asked for by: its own style, or else the slant and the weight.
pub open spec fn font_name(description: FontDescription, italic: bool, bold: bool) -> FontName {
    match description.style {
        Some(style) => FontName::Specific(description.family@, style@),
        None => FontName::Description(description.family@, italic, bold),
    }
}

/// The font that a description asks for.
pub fn make_desc(description: &FontDescription, italic: bool, bold: bool) -> (desc: FontDesc)
    ensures
        desc@ == font_name(*description, italic, bold),
{
    let style = match &description.style {
        Some(style) => Style::Specific(style.clone()),
        None => Style::Description { italic, bold },
    };
    FontDesc { name: description.family.clone(), style }
}

/// Whether two fonts are asked for by the same name and style.
fn same_desc(first: &FontDesc, second: &FontDesc) -> (same: bool)
    ensures
        same == (first@ == second@),
{
    if !same_text(first.name.as_str(), second.name.as_str()) {
        return false;
    }
    match (&first.style, &second.style) {
        (Style::Specific(a), Style::Specific(b)) => same_text(a.as_str(), b.as_str()),
        (
            Style::Description { italic, bold },
            Style::Description { italic: other_italic, bold: other_bold },
        ) => *italic == *other_italic && *bold == *other_bold,
        _ => false,
    }
}

/// The fonts to be loaded besides the regular one: none where a style is the regular font.
#[derive(Debug)]
pub struct FontPlan {
    pub regular: FontDesc,
    pub bold: Option<FontDesc>,
    pub italic: Option<FontDesc>,
    pub bold_italic: Option<FontDesc>,
}

/// Whether `desc` is what must be loaded for a font that is asked for by `name`.
pub open spec fn planned(desc: Option<FontDesc>, name: FontName, regular: FontName) -> bool {
    if name == regular {
        desc is None
    } else {
        desc matches Some(desc) && desc@ == name
    }
}

/// The font, unless it is the regular one.
fn unless_regular(desc: FontDesc, regular: &FontDesc) -> (planned_desc: Option<FontDesc>)
    ensures
        planned(planned_desc, desc@, regular@),
{
    if same_desc(&desc, regular) {
        None
    } else {
        Some(desc)
    }
}

impl FontPlan {
    /// Whether the plan loads the fonts of four descriptions.
    pub open spec fn serves(
        self,
        normal: FontDescription,
        bold: FontDescription,
        italic: FontDescription,
        bold_italic: FontDescription,
    ) -> bool {
        &&& self.regular@ == font_name(normal, false, false)
        &&& planned(self.bold, font_name(bold, false, true), self.regular@)
        &&& planned(self.italic, font_name(italic, true, false), self.regular@)
        &&& planned(self.bold_italic, font_name(bold_italic, true, true), self.regular@)
    }
}

/// Plan which fonts are loaded for the four styles.
pub fn font_plan(
    normal: &FontDescription,
    bold: &FontDescription,
    italic: &FontDescription,
    bold_italic: &FontDescription,
) -> (plan: FontPlan)
    ensures
        plan.serves(*normal, *bold, *italic, *bold_italic),
{
    let regular = make_desc(normal, false, false);
    let bold = unless_regular(make_desc(bold, false, true), &regular);
    let italic = unless_regular(make_desc(italic, true, false), &regular);
    let bold_italic = unless_regular(make_desc(bold_italic, true, true), &regular);
    FontPlan { regular, bold, italic, bold_italic }
}

/// The regular font, given what came of loading the one that is asked for and of loading the default
/// one: the default one takes the place of a font that cannot be loaded, and there is none where
/// neither can be.
pub fn regular_font(first: Option<u32>, fallback: Option<u32>) -> (font: Option<u32>)
    ensures
        font == (if first is Some {
            first
        } else {
            fallback
        }),
{
    match first {
        Some(font) => Some(font),
        None => fallback,
    }
}

/// A font, or the regular one where it is not loaded.
pub open spec fn or_regular(font: Option<u32>, regular: u32) -> u32 {
    match font {
        Some(font) => font,
        None => regular,
    }
}

/// The fonts that are used: the regular one in place of each that is not loaded.
pub open spec fn font_keys(
    regular: u32,
    bold: Option<u32>,
    italic: Option<u32>,
    bold_italic: Option<u32>,
) -> FontKeys {
    FontKeys {
        regular,
        bold: or_regular(bold, regular),
        italic: or_regular(italic, regular),
        bold_italic: or_regular(bold_italic, regular),
    }
}

/// The fonts that are used: the regular one in place of each that is not loaded.
pub fn compute_font_keys(
    regular: u32,
    bold: Option<u32>,
    italic: Option<u32>,
    bold_italic: Option<u32>,
) -> (fonts: FontKeys)
    ensures
        fonts == font_keys(regular, bold, italic, bold_italic),
{
    FontKeys {
        regular,
        bold: match bold {
            Some(font) => font,
            None => regular,
        },
        italic: match italic {
            Some(font) => font,
            None => regular,
        },
        bold_italic: match bold_italic {
            Some(font) => font,
            None => regular,
        },
    }
}

/// Each glyph is rasterized and copied once: whatever else has been asked for in between, getting it
/// again gives the same glyph and copies nothing.
pub proof fn glyph_is_loaded_once(
    first: GlyphCache,
    first_atlas: GlyphAtlas,
    second: GlyphCache,
    second_atlas: GlyphAtlas,
    third: GlyphCache,
    third_atlas: GlyphAtlas,
    fourth: GlyphCache,
    fourth_atlas: GlyphAtlas,
    key: GlyphKey,
    other: GlyphKey,
    looks: Seq<Rasterized>,
    show_missing: Seq<bool>,
    loaded: Seq<(Glyph, Option<Upload>)>,
)
    requires
        looks.len() == 3,
        show_missing.len() == 3,
        loaded.len() == 3,
        first.got(first_atlas, key, looks[0], show_missing[0], second, second_atlas, loaded[0]),
        second.got(second_atlas, other, looks[1], show_missing[1], third, third_atlas, loaded[1]),
        third.got(third_atlas, key, looks[2], show_missing[2], fourth, fourth_atlas, loaded[2]),
    ensures
        loaded[2].0 == loaded[0].0,
        loaded[2].1 is None,
        fourth_atlas == third_atlas,
        fourth == third,
{
    assert(second.cached(key) == Some(loaded[0].0));
    assert(third.cached(key) == second.cached(key));
}

/// A glyph that is found stands where the font puts it within its cell, moved by the offset of the
/// configuration and by the descent of the font, and a character without a width one cell further
/// to the right. It is as large as its bitmap.
pub proof fn found_glyph_stands_in_its_place(
    cache: GlyphCache,
    atlas: GlyphAtlas,
    key: GlyphKey,
    glyph: RasterizedGlyph,
    show_missing: bool,
    after: GlyphCache,
    atlas_after: GlyphAtlas,
    loaded: (Glyph, Option<Upload>),
)
    requires
        cache.cached(key) is None,
        cache.got(atlas, key, Rasterized::Found(glyph), show_missing, after, atlas_after, loaded),
        0 <= glyph.width < 512,
        0 <= glyph.height < 512,
        -0x1000 <= glyph.left < 0x1000,
        -0x1000 <= glyph.top < 0x1000,
        -0x1000 <= cache.metrics.descent < 0x1000,
        -0x1000 <= cache.metrics.average_advance < 0x1000,
    ensures
        loaded.0.width == glyph.width,
        loaded.0.height == glyph.height,
        loaded.0.top == glyph.top + cache.glyph_offset.y - cache.metrics.descent,
        loaded.0.left == glyph.left + cache.glyph_offset.x + if char_width(glyph.character)
            == Some(0usize) {
            cache.metrics.average_advance as int
        } else {
            0
        },
        loaded.0.multicolor == (glyph.buffer is Rgba),
        loaded.1 matches Some(upload) ==> upload.slot == loaded.0.slot && upload.page
            == loaded.0.atlas_index,
        glyph.width > 0 && glyph.height > 0 ==> (loaded.1 is Some <==> match glyph.buffer {
            BitmapBuffer::Rgb(bytes) => bytes@.len() >= 3,
            BitmapBuffer::Rgba(bytes) => bytes@.len() >= 1,
        }),
{
    let moved = shifted(glyph, cache.glyph_offset, cache.metrics);
    assert(moved.width == glyph.width && moved.height == glyph.height);
    assert(moved.buffer == glyph.buffer);
    crate::renderer::atlas::glyph_names_its_pixels(atlas, atlas_after, moved, loaded);
}

/// Glyphs that no font has share one substitute: the first of a font and a size is copied, and every
/// other one is drawn with it.
pub proof fn missing_glyphs_share_a_substitute(
    first: GlyphCache,
    first_atlas: GlyphAtlas,
    second: GlyphCache,
    second_atlas: GlyphAtlas,
    third: GlyphCache,
    third_atlas: GlyphAtlas,
    key: GlyphKey,
    other: GlyphKey,
    substitute: RasterizedGlyph,
    another: RasterizedGlyph,
    loaded: (Glyph, Option<Upload>),
    loaded_again: (Glyph, Option<Upload>),
)
    requires
        first.cached(key) is None,
        first.cached(other) is None,
        key != other,
        key.font == other.font,
        key.size == other.size,
        key.character != '\0',
        other.character != '\0',
        first.got(
            first_atlas,
            key,
            Rasterized::Missing(substitute),
            true,
            second,
            second_atlas,
            loaded,
        ),
        second.got(
            second_atlas,
            other,
            Rasterized::Missing(another),
            true,
            third,
            third_atlas,
            loaded_again,
        ),
    ensures
        loaded_again.0 == loaded.0,
        loaded_again.1 is None,
        third_atlas == second_atlas,
{
    let missing = GlyphKey { character: '\0', ..key };
    assert(missing == GlyphKey { character: '\0', ..other });
    assert(second.cached(other) == first.cached(other));
    assert(second.cached(missing) == Some(loaded.0));
}

/// A glyph that cannot be had is drawn as nothing: it has no size and no pixels.
pub proof fn lost_glyphs_are_blank(
    cache: GlyphCache,
    atlas: GlyphAtlas,
    key: GlyphKey,
    rasterized: Rasterized,
    show_missing: bool,
    after: GlyphCache,
    atlas_after: GlyphAtlas,
    loaded: (Glyph, Option<Upload>),
)
    requires
        cache.cached(key) is None,
        rasterized is Failed || rasterized is Missing && !show_missing,
        cache.got(atlas, key, rasterized, show_missing, after, atlas_after, loaded),
    ensures
        loaded.0.width == 0,
        loaded.0.height == 0,
        loaded.1 is None,
{
    let blank = choose|blank: RasterizedGlyph| #[trigger]
        is_blank(blank) && took(
            atlas,
            atlas_after,
            shifted(blank, cache.glyph_offset, cache.metrics),
            loaded,
        );
    crate::renderer::atlas::glyph_names_its_pixels(
        atlas,
        atlas_after,
        shifted(blank, cache.glyph_offset, cache.metrics),
        loaded,
    );
}

/// Different glyphs are kept apart: getting one changes what is drawn for no other, except for the
/// substitute of its font.
pub proof fn glyphs_are_kept_apart(
    cache: GlyphCache,
    atlas: GlyphAtlas,
    key: GlyphKey,
    other: GlyphKey,
    rasterized: Rasterized,
    show_missing: bool,
    after: GlyphCache,
    atlas_after: GlyphAtlas,
    loaded: (Glyph, Option<Upload>),
)
    requires
        cache.got(atlas, key, rasterized, show_missing, after, atlas_after, loaded),
        other.font != key.font || other.size != key.size || other.character != key.character,
        other.character != '\0',
    ensures
        after.cached(other) == cache.cached(other),
        after.cached(key) == Some(loaded.0),
{
    if cache.cached(key) is None {
        assert(other != key);
        assert(after.cached(other) == cache.cached(other));
    }
}

/// A style that the configuration names for a font is asked for as it is; without one the font is
/// asked for by slant and weight.
pub proof fn named_styles_win(description: FontDescription, italic: bool, bold: bool)
    ensures
        description.style is Some ==> font_name(description, italic, bold) == FontName::Specific(
            description.family@,
            description.style->0@,
        ),
        description.style is None ==> ({
            &&& font_name(description, italic, bold) matches FontName::Description(family, i, b)
            &&& family == description.family@ && i == italic && b == bold
        }),
{
}

/// Every printable ASCII character is prefetched in every style, from the font of that style, and
/// nothing else is.
pub proof fn printable_characters_are_prefetched(
    cache: GlyphCache,
    keys: Seq<GlyphKey>,
    style: FontStyle,
    code: int,
    i: int,
)
    requires
        cache.are_common(keys),
        32 <= code <= 126,
        0 <= i < keys.len(),
    ensures
        exists|k: int|
            0 <= k < keys.len() && (#[trigger] keys[k]).font == (match style {
                FontStyle::Regular => cache.fonts.regular,
                FontStyle::Bold => cache.fonts.bold,
                FontStyle::Italic => cache.fonts.italic,
                FontStyle::BoldItalic => cache.fonts.bold_italic,
            }) && keys[k].character as int == code && keys[k].size == cache.font_size,
        32 <= keys[i].character as int <= 126,
        keys[i].size == cache.font_size,
{
    let k: int = code - 32 + match style {
        FontStyle::Regular => 0int,
        FontStyle::Bold => 95,
        FontStyle::Italic => 190,
        FontStyle::BoldItalic => 285,
    };
    assert(keys[k].character as int == code);
    assert(keys[k].font == cache.prefetched_font(k));
}

/// New settings take effect as a whole, or, where their fonts cannot be loaded, not at all but for the
/// offsets: the size, the metrics and the fonts always belong together.
pub proof fn settings_belong_together(
    cache: GlyphCache,
    font: FontSettings,
    loaded: Option<(FontKeys, Metrics)>,
    after: GlyphCache,
)
    requires
        cache.updated(font, loaded, after),
    ensures
        loaded matches Some((fonts, metrics)) ==> after.fonts == fonts && after.metrics == metrics
            && after.font_size == font.size && after.builtin_box_drawing
            == font.builtin_box_drawing,
        loaded is None ==> after.fonts == cache.fonts && after.metrics == cache.metrics
            && after.font_size == cache.font_size && after.builtin_box_drawing
            == cache.builtin_box_drawing,
        after.font_offset == font.offset,
        after.glyph_offset == font.glyph_offset,
{
}

/// Without styles of their own, the four fonts are asked for by what their cells look like: each with
/// its slant and its weight, and none of them is taken for another.
pub proof fn styles_are_asked_for(
    plan: FontPlan,
    normal: FontDescription,
    bold: FontDescription,
    italic: FontDescription,
    bold_italic: FontDescription,
)
    requires
        plan.serves(normal, bold, italic, bold_italic),
        normal.style is None,
        bold.style is None,
        italic.style is None,
        bold_italic.style is None,
    ensures
        plan.regular.name@ == normal.family@,
        plan.regular.style == (Style::Description { italic: false, bold: false }),
        plan.bold matches Some(desc) && desc.name@ == bold.family@ && desc.style == (
        Style::Description { italic: false, bold: true }),
        plan.italic matches Some(desc) && desc.name@ == italic.family@ && desc.style == (
        Style::Description { italic: true, bold: false }),
        plan.bold_italic matches Some(desc) && desc.name@ == bold_italic.family@ && desc.style == (
        Style::Description { italic: true, bold: true }),
{
}

/// A font is loaded anew unless it is the regular one: what is loaded is what is asked for, and nothing
/// is loaded only where the same name and style are asked for as for the regular font.
pub proof fn other_fonts_are_loaded(
    plan: FontPlan,
    normal: FontDescription,
    bold: FontDescription,
    italic: FontDescription,
    bold_italic: FontDescription,
)
    requires
        plan.serves(normal, bold, italic, bold_italic),
    ensures
        plan.bold is None <==> font_name(bold, false, true) == font_name(normal, false, false),
        plan.italic is None <==> font_name(italic, true, false) == font_name(normal, false, false),
        plan.bold_italic is None <==> font_name(bold_italic, true, true) == font_name(
            normal,
            false,
            false,
        ),
        plan.bold matches Some(desc) ==> desc.name@ == bold.family@,
        plan.italic matches Some(desc) ==> desc.name@ == italic.family@,
        plan.bold_italic matches Some(desc) ==> desc.name@ == bold_italic.family@,
        plan.regular.name@ == normal.family@,
{
}

/// Text in a style is drawn with the font that was loaded for that style, and with the regular font
/// where none was.
pub proof fn styles_use_their_fonts(
    regular: u32,
    bold: Option<u32>,
    italic: Option<u32>,
    bold_italic: Option<u32>,
)
    ensures
        ({
            let fonts = font_keys(regular, bold, italic, bold_italic);
            &&& fonts.font(FontStyle::Regular) == regular
            &&& bold is Some ==> fonts.font(FontStyle::Bold) == bold->0
            &&& bold is None ==> fonts.font(FontStyle::Bold) == regular
            &&& italic is Some ==> fonts.font(FontStyle::Italic) == italic->0
            &&& italic is None ==> fonts.font(FontStyle::Italic) == regular
            &&& bold_italic is Some ==> fonts.font(FontStyle::BoldItalic) == bold_italic->0
            &&& bold_italic is None ==> fonts.font(FontStyle::BoldItalic) == regular
        }),
{
}

/// Getting a glyph changes nothing about the fonts: neither which they are nor how large, nor where
/// their glyphs are put.
pub proof fn glyphs_leave_the_fonts_alone(
    cache: GlyphCache,
    atlas: GlyphAtlas,
    key: GlyphKey,
    rasterized: Rasterized,
    show_missing: bool,
    after: GlyphCache,
    atlas_after: GlyphAtlas,
    loaded: (Glyph, Option<Upload>),
)
    requires
        cache.got(atlas, key, rasterized, show_missing, after, atlas_after, loaded),
    ensures
        after.fonts == cache.fonts,
        after.font_size == cache.font_size,
        after.font_offset == cache.font_offset,
        after.glyph_offset == cache.glyph_offset,
        after.metrics == cache.metrics,
        after.builtin_box_drawing == cache.builtin_box_drawing,
{
}

} // verus!
