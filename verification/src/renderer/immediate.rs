//! Drawing without a queue: every batch of text and every kind of rectangle gets render passes of
//! its own, in the order in which they are asked for.

use crate::renderer::atlas::{Glyph, GlyphAtlas, Row, Slot};
use crate::renderer::content::{RenderableCell, Rgb, COLORED_FLAG, WIDE_CHAR_FLAG};
use crate::renderer::pipeline::{
    chunks, Blend, PipelineParts, VertexAttribute, VertexFormat,
};
use crate::renderer::rects::{positions, push_positions, RectKind};
use vstd::prelude::*;
use vstd::string::*;

verus! {

broadcast use vstd::string::group_string_axioms;

/// The bytes of the instance of a cell.
pub const CELL_INSTANCE_SIZE: usize = 72;

/// The bytes of a vertex of a rectangle.
pub const RECT_VERTEX_SIZE: usize = 24;

/// Vertices of a rectangle: two triangles.
pub const VERTICES_PER_RECT: usize = 6;

/// Vertices of rectangles that the buffer has room for at first.
pub const INITIAL_RECT_VERTICES: usize = 4096;

/// The attributes of the instance of a cell: grid position, glyph box, texture area, text color
/// with the flags, and background color.
pub fn cell_instance_layout() -> (attributes: [VertexAttribute; 5])
    ensures
        attributes@[0].format == VertexFormat::Uint32x2,
        attributes@[1].format == VertexFormat::Sint32x4,
        attributes@[2].format == VertexFormat::Float32x4,
        attributes@[3].format == VertexFormat::Uint32x4,
        attributes@[4].format == VertexFormat::Uint32x4,
        crate::renderer::pipeline::tiles(attributes@, CELL_INSTANCE_SIZE as int),
{
    [
        VertexAttribute { format: VertexFormat::Uint32x2, offset: 0, location: 0 },
        VertexAttribute { format: VertexFormat::Sint32x4, offset: 8, location: 1 },
        VertexAttribute { format: VertexFormat::Float32x4, offset: 24, location: 2 },
        VertexAttribute { format: VertexFormat::Uint32x4, offset: 40, location: 3 },
        VertexAttribute { format: VertexFormat::Uint32x4, offset: 56, location: 4 },
    ]
}

/// The attributes of a vertex of a rectangle: position and color.
pub fn rect_vertex_layout() -> (attributes: [VertexAttribute; 2])
    ensures
        attributes@[0].format == VertexFormat::Float32x2,
        attributes@[1].format == VertexFormat::Float32x4,
        crate::renderer::pipeline::tiles(attributes@, RECT_VERTEX_SIZE as int),
{
    [
        VertexAttribute { format: VertexFormat::Float32x2, offset: 0, location: 0 },
        VertexAttribute { format: VertexFormat::Float32x4, offset: 8, location: 1 },
    ]
}

/// The corners of a glyph in the order in which two triangles use them.
pub fn glyph_indices() -> (indices: [u32; 6])
    ensures
        indices@ == seq![0u32, 1, 3, 1, 2, 3],
{
    let indices: [u32; 6] = [0, 1, 3, 1, 2, 3];
    assert(indices@ =~= seq![0u32, 1, 3, 1, 2, 3]);
    indices
}

/// What a text pass draws of its instances.
#[derive(Clone, Copy, Debug, PartialEq, Eq, Structural)]
pub enum TextStep {
    Background,
    Glyphs,
}

impl TextStep {
    /// Whether the pipeline of a text pass is made of some parts.
    pub open spec fn is_made_of(self, parts: PipelineParts) -> bool {
        &&& parts.vertex_entry@ == "vs_main"@
        &&& match self {
            TextStep::Background => {
                &&& parts.label@ == "text_bg_pipeline"@
                &&& parts.fragment_entry@ == "fs_bg"@
                &&& parts.blend is Premultiplied
            },
            TextStep::Glyphs => {
                &&& parts.label@ == "text_fg_pipeline"@
                &&& parts.fragment_entry@ == "fs_text"@
                &&& parts.blend is Alpha
            },
        }
    }
}

/// What the pipeline of a text pass is made of.
pub fn text_pipeline_parts(step: TextStep) -> (parts: PipelineParts)
    ensures
        step.is_made_of(parts),
{
    match step {
        TextStep::Background => PipelineParts {
            label: "text_bg_pipeline".to_owned(),
            vertex_entry: "vs_main".to_owned(),
            fragment_entry: "fs_bg".to_owned(),
            blend: Blend::Premultiplied,
        },
        TextStep::Glyphs => PipelineParts {
            label: "text_fg_pipeline".to_owned(),
            vertex_entry: "vs_main".to_owned(),
            fragment_entry: "fs_text".to_owned(),
            blend: Blend::Alpha,
        },
    }
}

/// What the pipeline of a kind of rectangle is made of, if the kind is drawn.
pub fn rect_pipeline_parts(kind: RectKind) -> (parts: Option<PipelineParts>)
    ensures
        parts is None <==> kind is NumKinds,
        parts matches Some(parts) ==> {
            &&& parts.vertex_entry@ == "vs_main"@
            &&& parts.blend is Alpha
            &&& parts.label@ == "rect_pipeline_"@ + parts.fragment_entry@
            &&& parts.fragment_entry@ == (match kind {
                RectKind::Normal => "fs_normal"@,
                RectKind::Undercurl => "fs_undercurl"@,
                RectKind::DottedUnderline => "fs_dotted"@,
                _ => "fs_dashed"@,
            })
        },
{
    let fragment_entry = match kind {
        RectKind::Normal => "fs_normal".to_owned(),
        RectKind::Undercurl => "fs_undercurl".to_owned(),
        RectKind::DottedUnderline => "fs_dotted".to_owned(),
        RectKind::DashedUnderline => "fs_dashed".to_owned(),
        RectKind::NumKinds => {
            return None;
        },
    };
    let mut label = "rect_pipeline_".to_owned();
    label.append(fragment_entry.as_str());
    Some(
        PipelineParts {
            label,
            vertex_entry: "vs_main".to_owned(),
            fragment_entry,
            blend: Blend::Alpha,
        },
    )
}

/// What the graphics card is told about one glyph of a cell. Colors stay as they are.
#[derive(Clone, Copy, Debug, PartialEq, Eq, Structural)]
pub struct CellInstance {
    pub column: u32,
    pub line: u32,
    pub left: i32,
    pub top: i32,
    pub width: i32,
    pub height: i32,
    /// Area of the atlas page that holds the pixels.
    pub slot: Slot,
    pub text: Rgb,
    pub cell_flags: u32,
    pub background: Rgb,
    pub background_alpha: u32,
}

/// The instance of a glyph in a cell. Grid positions keep their low 32 bits.
pub open spec fn cell_instance(cell: RenderableCell, glyph: Glyph) -> CellInstance {
    CellInstance {
        column: cell.point.column.0 as u32,
        line: cell.point.line as u32,
        left: glyph.left as i32,
        top: glyph.top as i32,
        width: glyph.width as i32,
        height: glyph.height as i32,
        slot: glyph.slot,
        text: cell.fg,
        cell_flags: crate::renderer::content::instance_flags(
            glyph.multicolor,
            cell.flags.wide_char,
        ) as u32,
        background: cell.bg,
        background_alpha: cell.bg_alpha as u32,
    }
}

/// Make the instance of a glyph in a cell.
pub fn create_instance(cell: &RenderableCell, glyph: &Glyph) -> (instance: CellInstance)
    ensures
        instance == cell_instance(*cell, *glyph),
{
    let mut cell_flags: u8 = 0;
    if glyph.multicolor {
        cell_flags = cell_flags | COLORED_FLAG;
    }
    if cell.flags.wide_char {
        cell_flags = cell_flags | WIDE_CHAR_FLAG;
    }
    assert(0u8 | 1u8 == 1u8 && 0u8 | 2u8 == 2u8 && 1u8 | 2u8 == 3u8) by (bit_vector);
    CellInstance {
        column: cell.point.column.0 as u32,
        line: cell.point.line as u32,
        left: glyph.left as i32,
        top: glyph.top as i32,
        width: glyph.width as i32,
        height: glyph.height as i32,
        slot: glyph.slot,
        text: cell.fg,
        cell_flags: cell_flags as u32,
        background: cell.bg,
        background_alpha: cell.bg_alpha as u32,
    }
}

/// The instances of the first `count` glyphs of a cell that lie on a page of the atlas.
pub open spec fn on_page(cell: RenderableCell, glyphs: Seq<Glyph>, page: int, count: int) -> Seq<
    CellInstance,
>
    decreases count,
{
    if count <= 0 {
        Seq::empty()
    } else if glyphs[count - 1].atlas_index == page {
        on_page(cell, glyphs, page, count - 1).push(cell_instance(cell, glyphs[count - 1]))
    } else {
        on_page(cell, glyphs, page, count - 1)
    }
}

/// How many groups there are after the first `count` glyphs of a cell, where there were `groups`
/// before: one for each page up to the last one that is used.
pub open spec fn groups_after(groups: int, glyphs: Seq<Glyph>, count: int) -> int
    decreases count,
{
    if count <= 0 {
        groups
    } else {
        let before = groups_after(groups, glyphs, count - 1);
        if glyphs[count - 1].atlas_index < before {
            before
        } else {
            glyphs[count - 1].atlas_index + 1
        }
    }
}

/// The instances of a page: a page without a group has none.
pub open spec fn group(groups: Seq<Vec<CellInstance>>, page: int) -> Seq<CellInstance> {
    if 0 <= page < groups.len() {
        groups[page]@
    } else {
        Seq::empty()
    }
}

/// Add an instance to the group of its page.
fn push_instance(groups: &mut Vec<Vec<CellInstance>>, page: usize, instance: CellInstance)
    requires
        page < usize::MAX,
    ensures
        final(groups)@.len() == if old(groups)@.len() > page {
            old(groups)@.len() as int
        } else {
            page + 1
        },
        forall|p: int| #[trigger]
            group(final(groups)@, p) == if p == page {
                group(old(groups)@, p).push(instance)
            } else {
                group(old(groups)@, p)
            },
{
    while groups.len() < page + 1
        invariant
            page < usize::MAX,
            groups@.len() >= old(groups)@.len(),
            groups@.len() <= page + 1 || groups@.len() == old(groups)@.len(),
            forall|p: int| #[trigger] group(groups@, p) =~= group(old(groups)@, p),
        decreases page + 1 - groups@.len(),
    {
        let ghost before = groups@;
        let empty: Vec<CellInstance> = Vec::new();
        groups.push(empty);
        assert forall|p: int| #[trigger] group(groups@, p) =~= group(old(groups)@, p) by {
            assert(group(before, p) =~= group(old(groups)@, p));
        }
    }
    let ghost before = groups@;
    groups[page].push(instance);
    assert forall|p: int| #[trigger]
        group(groups@, p) == if p == page {
            group(old(groups)@, p).push(instance)
        } else {
            group(old(groups)@, p)
        } by {
        assert(group(before, p) =~= group(old(groups)@, p));
    }
}

/// Add the glyphs of a cell to the groups of their pages, in the order in which the cell asks for
/// them. Each carries the background of the cell.
pub fn process_cell(
    groups: &mut Vec<Vec<CellInstance>>,
    cell: &RenderableCell,
    glyphs: &Vec<Glyph>,
)
    requires
        glyphs@.len() == crate::renderer::content::requests_of(*cell).len(),
        forall|i: int| 0 <= i < glyphs@.len() ==> (#[trigger] glyphs@[i]).atlas_index < usize::MAX,
    ensures
        final(groups)@.len() == groups_after(
            old(groups)@.len() as int,
            glyphs@,
            glyphs@.len() as int,
        ),
        forall|page: int| #[trigger]
            group(final(groups)@, page) == group(old(groups)@, page) + on_page(
                *cell,
                glyphs@,
                page,
                glyphs@.len() as int,
            ),
{
    let mut index: usize = 0;
    assert forall|page: int| #[trigger]
        group(groups@, page) == group(old(groups)@, page) + on_page(*cell, glyphs@, page, 0) by {
        assert(group(groups@, page) =~= group(old(groups)@, page) + on_page(
            *cell,
            glyphs@,
            page,
            0,
        ));
    }
    while index < glyphs.len()
        invariant
            index <= glyphs@.len(),
            forall|i: int|
                0 <= i < glyphs@.len() ==> (#[trigger] glyphs@[i]).atlas_index < usize::MAX,
            groups@.len() == groups_after(old(groups)@.len() as int, glyphs@, index as int),
            forall|page: int| #[trigger]
                group(groups@, page) == group(old(groups)@, page) + on_page(
                    *cell,
                    glyphs@,
                    page,
                    index as int,
                ),
        decreases glyphs@.len() - index,
    {
        let glyph = glyphs[index];
        let ghost before = groups@;
        let instance = create_instance(cell, &glyph);
        push_instance(groups, glyph.atlas_index, instance);
        assert forall|page: int| #[trigger]
            group(groups@, page) == group(old(groups)@, page) + on_page(
                *cell,
                glyphs@,
                page,
                index + 1,
            ) by {
            assert(group(before, page) == group(old(groups)@, page) + on_page(
                *cell,
                glyphs@,
                page,
                index as int,
            ));
            assert(group(groups@, page) =~= group(old(groups)@, page) + on_page(
                *cell,
                glyphs@,
                page,
                index + 1,
            ));
        }
        index += 1;
    }
}

/// A render pass that draws instances of one page.
#[derive(Clone, Copy, Debug, PartialEq, Eq, Structural)]
pub struct TextPass {
    pub step: TextStep,
    pub atlas_index: usize,
    /// The first instance of the page that is drawn.
    pub start: usize,
    pub length: usize,
}

/// The sum of the first `count` of some lengths.
pub open spec fn sum_upto(lengths: Seq<usize>, count: int) -> int
    decreases count,
{
    if count <= 0 {
        0
    } else {
        sum_upto(lengths, count - 1) + lengths[count - 1]
    }
}

/// The passes for the first `count` of the batches of a page, given how long each is: first the
/// backgrounds of a batch, then its glyphs.
pub open spec fn passes_of_page(atlas_index: usize, lengths: Seq<usize>, count: int) -> Seq<
    TextPass,
>
    decreases count,
{
    if count <= 0 {
        Seq::empty()
    } else {
        let start = sum_upto(lengths, count - 1) as usize;
        let length = lengths[count - 1];
        passes_of_page(atlas_index, lengths, count - 1).push(
            TextPass { step: TextStep::Background, atlas_index, start, length },
        ).push(TextPass { step: TextStep::Glyphs, atlas_index, start, length })
    }
}

/// The passes that draw the instances of the first `count` pages.
pub open spec fn text_passes(groups: Seq<Vec<CellInstance>>, count: int) -> Seq<TextPass>
    decreases count,
{
    if count <= 0 {
        Seq::empty()
    } else {
        let lengths = crate::renderer::pipeline::chunk_lengths(groups[count - 1]@.len());
        text_passes(groups, count - 1) + passes_of_page(
            (count - 1) as usize,
            lengths,
            lengths.len() as int,
        )
    }
}

proof fn sum_shifts(lengths: Seq<usize>, rest: Seq<usize>, k: int)
    requires
        lengths.len() == rest.len() + 1,
        forall|i: int| 0 <= i < rest.len() ==> lengths[i + 1] == #[trigger] rest[i],
        0 < k <= lengths.len(),
    ensures
        sum_upto(lengths, k) == lengths[0] + sum_upto(rest, k - 1),
    decreases k,
{
    if k > 1 {
        sum_shifts(lengths, rest, k - 1);
        assert(lengths[k - 1] == rest[k - 2]);
    } else {
        reveal_with_fuel(sum_upto, 2);
    }
}

proof fn chunk_sum_is_bounded(count: nat, k: int)
    requires
        count <= usize::MAX,
        0 <= k <= crate::renderer::pipeline::chunk_lengths(count).len(),
    ensures
        0 <= sum_upto(crate::renderer::pipeline::chunk_lengths(count), k) <= count,
        k == crate::renderer::pipeline::chunk_lengths(count).len() ==> sum_upto(
            crate::renderer::pipeline::chunk_lengths(count),
            k,
        ) == count,
    decreases count,
{
    let lengths = crate::renderer::pipeline::chunk_lengths(count);
    if count > crate::renderer::pipeline::BATCH_MAX {
        let less = (count - crate::renderer::pipeline::BATCH_MAX) as nat;
        let rest = crate::renderer::pipeline::chunk_lengths(less);
        if k > 0 {
            chunk_sum_is_bounded(less, k - 1);
            sum_shifts(lengths, rest, k);
        }
    } else if count > 0 {
        assert(lengths.len() == 1);
        reveal_with_fuel(sum_upto, 2);
    }
}

/// The passes that draw the instances, page after page, in batches that are not too long.
fn passes_of_groups(groups: &Vec<Vec<CellInstance>>) -> (passes: Vec<TextPass>)
    ensures
        passes@ == text_passes(groups@, groups@.len() as int),
{
    let mut passes: Vec<TextPass> = Vec::new();
    let mut page: usize = 0;
    while page < groups.len()
        invariant
            page <= groups@.len(),
            passes@ == text_passes(groups@, page as int),
        decreases groups@.len() - page,
    {
        let count: usize = groups[page].len();
        let lengths = chunks(count);
        let ghost earlier = passes@;
        let mut start: usize = 0;
        let mut index: usize = 0;
        assert(passes@ =~= earlier + passes_of_page(page, lengths@, 0));
        while index < lengths.len()
            invariant
                lengths@ == crate::renderer::pipeline::chunk_lengths(count as nat),
                index <= lengths@.len(),
                start == sum_upto(lengths@, index as int),
                passes@ == earlier + passes_of_page(page, lengths@, index as int),
            decreases lengths@.len() - index,
        {
            let length: usize = lengths[index];
            proof {
                chunk_sum_is_bounded(count as nat, index + 1);
            }
            passes.push(TextPass { step: TextStep::Background, atlas_index: page, start, length });
            passes.push(TextPass { step: TextStep::Glyphs, atlas_index: page, start, length });
            start += length;
            index += 1;
            assert(passes@ =~= earlier + passes_of_page(page, lengths@, index as int));
        }
        page += 1;
    }
    passes
}

/// Whether a pass draws instance `i` of a page.
pub open spec fn draws(pass: TextPass, page: int, i: int) -> bool {
    pass.atlas_index == page && pass.start <= i < pass.start + pass.length
}

/// Whether pass `k` draws the background of instance `i` of a page, the next one its glyph, and no
/// other pass draws it.
pub open spec fn drawn_at(passes: Seq<TextPass>, page: int, i: int, k: int) -> bool {
    &&& 0 <= k < passes.len() - 1
    &&& draws(passes[k], page, i)
    &&& passes[k].step is Background
    &&& draws(passes[k + 1], page, i)
    &&& passes[k + 1].step is Glyphs
    &&& forall|j: int|
        0 <= j < passes.len() && #[trigger] draws(passes[j], page, i) ==> j == k || j == k + 1
}

/// The passes of the first `count` batches of a page draw only instances of these batches, and
/// each of them at one place.
proof fn page_is_drawn_once(page: usize, lengths: Seq<usize>, count: int, i: int) -> (k: int)
    requires
        0 <= count <= lengths.len(),
        sum_upto(lengths, count) <= usize::MAX,
    ensures
        sum_upto(lengths, count) >= 0,
        forall|j: int|
            0 <= j < passes_of_page(page, lengths, count).len() ==> (#[trigger] passes_of_page(
                page,
                lengths,
                count,
            )[j]).atlas_index == page,
        0 <= i < sum_upto(lengths, count) ==> drawn_at(
            passes_of_page(page, lengths, count),
            page as int,
            i,
            k,
        ),
        i >= sum_upto(lengths, count) ==> forall|j: int|
            0 <= j < passes_of_page(page, lengths, count).len() ==> !(#[trigger] draws(
                passes_of_page(page, lengths, count)[j],
                page as int,
                i,
            )),
    decreases count,
{
    if count <= 0 {
        0
    } else {
        let k = page_is_drawn_once(page, lengths, count - 1, i);
        let shorter = passes_of_page(page, lengths, count - 1);
        let longer = passes_of_page(page, lengths, count);
        let at = if 0 <= i < sum_upto(lengths, count - 1) {
            k
        } else {
            shorter.len() as int
        };
        assert(forall|j: int| 0 <= j < shorter.len() ==> #[trigger] longer[j] == shorter[j]);
        assert forall|j: int|
            0 <= j < longer.len() && i >= sum_upto(lengths, count) implies !(#[trigger] draws(
            longer[j],
            page as int,
            i,
        )) by {
            if j < shorter.len() {
                assert(!draws(shorter[j], page as int, i));
            }
        }
        if 0 <= i < sum_upto(lengths, count) {
            assert forall|j: int|
                0 <= j < longer.len() && #[trigger] draws(longer[j], page as int, i) implies j == at
                || j == at + 1 by {
                if j < shorter.len() {
                    assert(draws(shorter[j], page as int, i));
                }
            }
        }
        at
    }
}

/// The passes of the first `count` pages draw nothing of later ones.
proof fn passes_stay_on_their_pages(groups: Seq<Vec<CellInstance>>, count: int)
    requires
        0 <= count <= groups.len() <= usize::MAX,
    ensures
        forall|j: int|
            0 <= j < text_passes(groups, count).len() ==> (#[trigger] text_passes(
                groups,
                count,
            )[j]).atlas_index < count,
    decreases count,
{
    if count > 0 {
        passes_stay_on_their_pages(groups, count - 1);
        let length = groups[count - 1].len() as nat;
        let lengths = crate::renderer::pipeline::chunk_lengths(length);
        chunk_sum_is_bounded(length, lengths.len() as int);
        page_is_drawn_once((count - 1) as usize, lengths, lengths.len() as int, 0);
        let shorter = text_passes(groups, count - 1);
        let longer = text_passes(groups, count);
        let own = passes_of_page((count - 1) as usize, lengths, lengths.len() as int);
        assert forall|j: int| 0 <= j < longer.len() implies (#[trigger] longer[j]).atlas_index
            < count by {
            if j < shorter.len() {
                assert(longer[j] == shorter[j]);
            } else {
                assert(longer[j] == own[j - shorter.len()]);
            }
        }
    }
}

proof fn instance_is_drawn_once(
    groups: Seq<Vec<CellInstance>>,
    count: int,
    page: int,
    i: int,
) -> (k: int)
    requires
        0 <= page < count <= groups.len() <= usize::MAX,
        0 <= i < groups[page]@.len(),
    ensures
        drawn_at(text_passes(groups, count), page, i, k),
    decreases count,
{
    let length = groups[count - 1].len() as nat;
    let lengths = crate::renderer::pipeline::chunk_lengths(length);
    chunk_sum_is_bounded(length, lengths.len() as int);
    let own_at = page_is_drawn_once((count - 1) as usize, lengths, lengths.len() as int, i);
    let shorter = text_passes(groups, count - 1);
    let longer = text_passes(groups, count);
    let own = passes_of_page((count - 1) as usize, lengths, lengths.len() as int);
    assert(longer =~= shorter + own);
    let k = if page < count - 1 {
        instance_is_drawn_once(groups, count - 1, page, i)
    } else {
        shorter.len() + own_at
    };
    passes_stay_on_their_pages(groups, count - 1);
    assert forall|j: int| 0 <= j < longer.len() && #[trigger] draws(longer[j], page, i) implies j
        == k || j == k + 1 by {
        if j < shorter.len() {
            assert(longer[j] == shorter[j]);
            assert(draws(shorter[j], page, i));
        } else {
            assert(longer[j] == own[j - shorter.len()]);
            assert(draws(own[j - shorter.len()], page, i));
        }
    }
    k
}

/// Every instance of every page is drawn, its background in one pass and its glyph in the next,
/// and in no other pass.
pub proof fn every_instance_is_drawn_once(groups: Seq<Vec<CellInstance>>, page: int, i: int)
    requires
        groups.len() <= usize::MAX,
        0 <= page < groups.len(),
        0 <= i < groups[page]@.len(),
    ensures
        exists|k: int| drawn_at(text_passes(groups, groups.len() as int), page, i, k),
{
    let k = instance_is_drawn_once(groups, groups.len() as int, page, i);
    assert(drawn_at(text_passes(groups, groups.len() as int), page, i, k));
}

/// A render pass that draws all rectangles of one kind.
#[derive(Debug)]
pub struct RectPass {
    pub kind: RectKind,
    /// The positions of the rectangles.
    pub rects: Vec<usize>,
    /// How many vertices are drawn.
    pub vertices: usize,
    /// The size in bytes of a new buffer, if one is needed.
    pub grow: Option<u64>,
}

/// The kinds in the order in which they are drawn, with normal rectangles on top.
pub open spec fn kind_order() -> Seq<RectKind> {
    seq![
        RectKind::DashedUnderline,
        RectKind::DottedUnderline,
        RectKind::Undercurl,
        RectKind::Normal,
    ]
}

/// The positions of the rectangles of a kind.
pub open spec fn of_kind(kinds: Seq<RectKind>, kind: RectKind) -> Seq<usize> {
    positions(kinds, kind, kinds.len() as int)
}

/// The bytes of the vertices of the rectangles of a kind.
pub open spec fn vertex_bytes(kinds: Seq<RectKind>, kind: RectKind) -> int {
    of_kind(kinds, kind).len() * VERTICES_PER_RECT * RECT_VERTEX_SIZE
}

/// The size of the buffer after the first `count` kinds: it grows where the vertices of a kind do
/// not fit, and just so far that they do.
pub open spec fn buffer_after(kinds: Seq<RectKind>, size: int, count: int) -> int
    decreases count,
{
    if count <= 0 {
        size
    } else {
        let before = buffer_after(kinds, size, count - 1);
        let needed = vertex_bytes(kinds, kind_order()[count - 1]);
        if needed > before {
            needed
        } else {
            before
        }
    }
}

impl RectPass {
    /// Whether the pass draws the rectangles of a kind, where the buffer has some size before it.
    pub open spec fn is_of(self, kinds: Seq<RectKind>, kind: RectKind, size: int) -> bool {
        &&& self.kind == kind
        &&& self.rects@ == of_kind(kinds, kind)
        &&& self.vertices == of_kind(kinds, kind).len() * VERTICES_PER_RECT
        &&& match self.grow {
            Some(grown) => grown == vertex_bytes(kinds, kind) > size,
            None => vertex_bytes(kinds, kind) <= size,
        }
    }
}

/// Whether passes are those of the first `count` kinds: one for each kind that occurs.
pub open spec fn are_passes(
    passes: Seq<RectPass>,
    kinds: Seq<RectKind>,
    size: int,
    count: int,
) -> bool
    decreases count,
{
    if count <= 0 {
        passes.len() == 0
    } else {
        let kind = kind_order()[count - 1];
        if of_kind(kinds, kind).len() == 0 {
            are_passes(passes, kinds, size, count - 1)
        } else {
            &&& passes.len() > 0
            &&& passes.last().is_of(kinds, kind, buffer_after(kinds, size, count - 1))
            &&& are_passes(passes.drop_last(), kinds, size, count - 1)
        }
    }
}

/// Append the pass of kind `index`, if it occurs.
fn push_rect_pass(
    passes: &mut Vec<RectPass>,
    kinds: &Vec<RectKind>,
    kind: RectKind,
    size: &mut u64,
    Ghost(start): Ghost<int>,
    Ghost(index): Ghost<int>,
)
    requires
        kinds@.len() * VERTICES_PER_RECT * RECT_VERTEX_SIZE <= usize::MAX,
        0 <= index < kind_order().len(),
        kind == kind_order()[index],
        are_passes(old(passes)@, kinds@, start, index),
        *old(size) == buffer_after(kinds@, start, index),
    ensures
        are_passes(final(passes)@, kinds@, start, index + 1),
        *final(size) == buffer_after(kinds@, start, index + 1),
{
    let mut rects: Vec<usize> = Vec::new();
    push_positions(&mut rects, kinds, kind);
    assert(rects@ =~= of_kind(kinds@, kind));
    proof {
        positions_are_few(kinds@, kind, kinds@.len() as int);
    }
    if rects.len() == 0 {
        return;
    }
    let vertices: usize = rects.len() * VERTICES_PER_RECT;
    let needed: u64 = (vertices * RECT_VERTEX_SIZE) as u64;
    let mut grow: Option<u64> = None;
    if needed > *size {
        grow = Some(needed);
        *size = needed;
    }
    let ghost before = passes@;
    passes.push(RectPass { kind, rects, vertices, grow });
    assert(passes@.drop_last() =~= before);
}

proof fn positions_are_few(kinds: Seq<RectKind>, kind: RectKind, count: int)
    requires
        0 <= count,
    ensures
        positions(kinds, kind, count).len() <= count,
    decreases count,
{
    if count > 0 {
        positions_are_few(kinds, kind, count - 1);
    }
}

/// The instances of the first `count` cells that lie on a page of the atlas.
pub open spec fn cells_on_page(
    cells: Seq<RenderableCell>,
    glyphs: Seq<Vec<Glyph>>,
    page: int,
    count: int,
) -> Seq<CellInstance>
    decreases count,
{
    if count <= 0 {
        Seq::empty()
    } else {
        cells_on_page(cells, glyphs, page, count - 1) + on_page(
            cells[count - 1],
            glyphs[count - 1]@,
            page,
            glyphs[count - 1]@.len() as int,
        )
    }
}

/// How many groups the first `count` cells need.
pub open spec fn groups_of_cells(glyphs: Seq<Vec<Glyph>>, count: int) -> int
    decreases count,
{
    if count <= 0 {
        0
    } else {
        groups_after(
            groups_of_cells(glyphs, count - 1),
            glyphs[count - 1]@,
            glyphs[count - 1]@.len() as int,
        )
    }
}

/// Cells that are ready to be drawn.
#[derive(Debug)]
pub struct DrawnCells {
    /// The instances of each page.
    pub groups: Vec<Vec<CellInstance>>,
    pub passes: Vec<TextPass>,
}

/// What the renderer keeps from one call to the next.
pub struct WgpuRenderer {
    pub glyph_atlas: GlyphAtlas,
    pub rect_vertex_buffer_size: u64,
}

impl WgpuRenderer {
    /// A renderer that has not drawn anything.
    pub fn new() -> (renderer: WgpuRenderer)
        ensures
            renderer.glyph_atlas.well_formed(),
            renderer.glyph_atlas.pages@.len() == 1,
            renderer.glyph_atlas.pages@[0].row == (Row { extent: 0, baseline: 0, tallest: 0 }),
            renderer.glyph_atlas.pages@[0].placed@.len() == 0,
            renderer.rect_vertex_buffer_size == INITIAL_RECT_VERTICES * RECT_VERTEX_SIZE,
    {
        WgpuRenderer {
            glyph_atlas: GlyphAtlas::new(),
            rect_vertex_buffer_size: (INITIAL_RECT_VERTICES * RECT_VERTEX_SIZE) as u64,
        }
    }

    /// The passes that draw cells, given their glyphs.
    pub fn draw_cells(&self, cells: &Vec<RenderableCell>, glyphs: &Vec<Vec<Glyph>>) -> (drawn:
        DrawnCells)
        requires
            crate::renderer::batch::glyphs_fit(cells@, glyphs@),
        ensures
            drawn.groups@.len() == groups_of_cells(glyphs@, cells@.len() as int),
            forall|page: int| #[trigger]
                group(drawn.groups@, page) == cells_on_page(
                    cells@,
                    glyphs@,
                    page,
                    cells@.len() as int,
                ),
            drawn.passes@ == text_passes(drawn.groups@, drawn.groups@.len() as int),
    {
        let mut groups: Vec<Vec<CellInstance>> = Vec::new();
        let mut index: usize = 0;
        while index < cells.len()
            invariant
                index <= cells@.len(),
                crate::renderer::batch::glyphs_fit(cells@, glyphs@),
                groups@.len() == groups_of_cells(glyphs@, index as int),
                forall|page: int| #[trigger]
                    group(groups@, page) == cells_on_page(cells@, glyphs@, page, index as int),
            decreases cells@.len() - index,
        {
            process_cell(&mut groups, &cells[index], &glyphs[index]);
            index += 1;
        }
        let passes = passes_of_groups(&groups);
        DrawnCells { groups, passes }
    }

    /// The passes that draw rectangles of the given kinds: none where there are no rectangles, and
    /// one for each drawable kind that occurs, so that normal rectangles come last.
    pub fn draw_rects(&mut self, kinds: &Vec<RectKind>) -> (passes: Vec<RectPass>)
        requires
            kinds@.len() * VERTICES_PER_RECT * RECT_VERTEX_SIZE <= usize::MAX,
        ensures
            are_passes(
                passes@,
                kinds@,
                old(self).rect_vertex_buffer_size as int,
                kind_order().len() as int,
            ),
            final(self).rect_vertex_buffer_size == buffer_after(
                kinds@,
                old(self).rect_vertex_buffer_size as int,
                kind_order().len() as int,
            ),
            final(self).glyph_atlas == old(self).glyph_atlas,
    {
        let mut passes: Vec<RectPass> = Vec::new();
        let ghost start = self.rect_vertex_buffer_size as int;
        let mut size: u64 = self.rect_vertex_buffer_size;
        push_rect_pass(
            &mut passes,
            kinds,
            RectKind::DashedUnderline,
            &mut size,
            Ghost(start),
            Ghost(0),
        );
        push_rect_pass(
            &mut passes,
            kinds,
            RectKind::DottedUnderline,
            &mut size,
            Ghost(start),
            Ghost(1),
        );
        push_rect_pass(
            &mut passes,
            kinds,
            RectKind::Undercurl,
            &mut size,
            Ghost(start),
            Ghost(2),
        );
        push_rect_pass(&mut passes, kinds, RectKind::Normal, &mut size, Ghost(start), Ghost(3));
        self.rect_vertex_buffer_size = size;
        passes
    }
}

/// The positions of the rectangles that passes draw, in order.
pub open spec fn drawn_rects(passes: Seq<RectPass>) -> Seq<usize>
    decreases passes.len(),
{
    if passes.len() == 0 {
        Seq::empty()
    } else {
        drawn_rects(passes.drop_last()) + passes.last().rects@
    }
}

/// The positions of the rectangles of the first `count` kinds.
spec fn of_kinds(kinds: Seq<RectKind>, count: int) -> Seq<usize>
    decreases count,
{
    if count <= 0 {
        Seq::empty()
    } else {
        of_kinds(kinds, count - 1) + of_kind(kinds, kind_order()[count - 1])
    }
}

proof fn passes_draw_their_kinds(
    passes: Seq<RectPass>,
    kinds: Seq<RectKind>,
    size: int,
    count: int,
)
    requires
        are_passes(passes, kinds, size, count),
    ensures
        drawn_rects(passes) == of_kinds(kinds, count),
    decreases count,
{
    if count > 0 {
        let kind = kind_order()[count - 1];
        if of_kind(kinds, kind).len() == 0 {
            passes_draw_their_kinds(passes, kinds, size, count - 1);
            assert(of_kinds(kinds, count) =~= of_kinds(kinds, count - 1));
        } else {
            passes_draw_their_kinds(passes.drop_last(), kinds, size, count - 1);
        }
    }
}

/// Pass after pass, the rectangles are drawn in the same order as in a single pass.
pub proof fn passes_keep_the_paint_order(passes: Seq<RectPass>, kinds: Seq<RectKind>, size: int)
    requires
        are_passes(passes, kinds, size, kind_order().len() as int),
    ensures
        drawn_rects(passes) == crate::renderer::rects::painted(kinds),
{
    passes_draw_their_kinds(passes, kinds, size, kind_order().len() as int);
    reveal_with_fuel(of_kinds, 5);
    assert(drawn_rects(passes) =~= crate::renderer::rects::painted(kinds));
}

/// The instance of a cell shows its glyph: it takes its pixels from where the glyph has them, puts them
/// where the glyph belongs, and has the position and the colors of the cell as they are. Its flags
/// say whether the glyph is colored and whether the cell is wide.
pub proof fn cell_instance_shows_its_glyph(cell: RenderableCell, glyph: Glyph)
    ensures
        ({
            let instance = cell_instance(cell, glyph);
            &&& instance.slot.x == glyph.slot.x && instance.slot.y == glyph.slot.y
            &&& instance.slot.width == glyph.slot.width
            &&& instance.slot.height == glyph.slot.height
            &&& instance.left == glyph.left && instance.top == glyph.top
            &&& instance.width == glyph.width && instance.height == glyph.height
            &&& cell.point.column.0 <= u32::MAX ==> instance.column == cell.point.column.0
            &&& cell.point.line <= u32::MAX ==> instance.line == cell.point.line
            &&& instance.text.r == cell.fg.r && instance.text.g == cell.fg.g && instance.text.b
                == cell.fg.b
            &&& instance.background.r == cell.bg.r && instance.background.g == cell.bg.g
                && instance.background.b == cell.bg.b
            &&& instance.background_alpha == cell.bg_alpha
            &&& instance.cell_flags < 4
            &&& instance.cell_flags % 2 == 1 <==> glyph.multicolor
            &&& instance.cell_flags / 2 == 1 <==> cell.flags.wide_char
        }),
{
}

proof fn glyph_is_on_its_page(cell: RenderableCell, glyphs: Seq<Glyph>, count: int, j: int) -> (k:
    int)
    requires
        0 <= j < count <= glyphs.len(),
    ensures
        0 <= k < on_page(cell, glyphs, glyphs[j].atlas_index as int, count).len(),
        on_page(cell, glyphs, glyphs[j].atlas_index as int, count)[k] == cell_instance(
            cell,
            glyphs[j],
        ),
    decreases count,
{
    if j < count - 1 {
        glyph_is_on_its_page(cell, glyphs, count - 1, j)
    } else {
        on_page(cell, glyphs, glyphs[j].atlas_index as int, count - 1).len() as int
    }
}

proof fn page_has_a_group(groups: int, glyphs: Seq<Glyph>, count: int, j: int)
    requires
        0 <= count <= glyphs.len(),
    ensures
        groups <= groups_after(groups, glyphs, count),
        0 <= j < count ==> glyphs[j].atlas_index < groups_after(groups, glyphs, count),
    decreases count,
{
    if count > 0 {
        page_has_a_group(groups, glyphs, count - 1, j);
    }
}

proof fn cell_is_on_its_page(
    cells: Seq<RenderableCell>,
    glyphs: Seq<Vec<Glyph>>,
    count: int,
    c: int,
    j: int,
) -> (k: int)
    requires
        glyphs.len() == cells.len(),
        0 <= c < count <= cells.len(),
        0 <= j < glyphs[c]@.len(),
    ensures
        ({
            let page = glyphs[c]@[j].atlas_index as int;
            let drawn = cells_on_page(cells, glyphs, page, count);
            &&& 0 <= k < drawn.len()
            &&& drawn[k] == cell_instance(cells[c], glyphs[c]@[j])
            &&& page < groups_of_cells(glyphs, count)
        }),
    decreases count,
{
    let page = glyphs[c]@[j].atlas_index as int;
    let own = glyphs[count - 1]@;
    page_has_a_group(groups_of_cells(glyphs, count - 1), own, own.len() as int, j);
    if c < count - 1 {
        cell_is_on_its_page(cells, glyphs, count - 1, c, j)
    } else {
        let k = glyph_is_on_its_page(cells[c], own, own.len() as int, j);
        cells_on_page(cells, glyphs, page, count - 1).len() + k
    }
}

/// Every glyph of every cell is drawn: glyph `j` of cell `c` has an instance among those of its page,
/// which shows that glyph in that cell, and the page is among those that are drawn.
pub proof fn every_glyph_of_a_cell_is_drawn(
    cells: Seq<RenderableCell>,
    glyphs: Seq<Vec<Glyph>>,
    c: int,
    j: int,
)
    requires
        glyphs.len() == cells.len(),
        0 <= c < cells.len(),
        0 <= j < glyphs[c]@.len(),
        cells[c].point.column.0 <= u32::MAX,
        cells[c].point.line <= u32::MAX,
    ensures
        ({
            let glyph = glyphs[c]@[j];
            let drawn = cells_on_page(
                cells,
                glyphs,
                glyph.atlas_index as int,
                cells.len() as int,
            );
            &&& glyph.atlas_index < groups_of_cells(glyphs, cells.len() as int)
            &&& exists|k: int|
                0 <= k < drawn.len() && ({
                    let instance = #[trigger] drawn[k];
                    &&& instance.slot.x == glyph.slot.x && instance.slot.y == glyph.slot.y
                    &&& instance.slot.width == glyph.slot.width
                    &&& instance.slot.height == glyph.slot.height
                    &&& instance.column == cells[c].point.column.0
                    &&& instance.line == cells[c].point.line
                    &&& instance.text == cells[c].fg && instance.background == cells[c].bg
                    &&& instance.background_alpha == cells[c].bg_alpha
                })
        }),
{
    let k = cell_is_on_its_page(cells, glyphs, cells.len() as int, c, j);
    let glyph = glyphs[c]@[j];
    cell_instance_shows_its_glyph(cells[c], glyph);
    let drawn = cells_on_page(cells, glyphs, glyph.atlas_index as int, cells.len() as int);
    assert(drawn[k].slot.x == glyph.slot.x);
}

/// The buffer has room for the vertices of every pass, six for each rectangle with 24 bytes each, and
/// it never shrinks nor grows further than the largest pass needs.
pub proof fn buffer_has_room_for_every_pass(kinds: Seq<RectKind>, size: int, count: int, c: int)
    requires
        0 <= c < count <= 4,
    ensures
        buffer_after(kinds, size, count) >= size,
        buffer_after(kinds, size, count) >= 144 * positions(
            kinds,
            kind_order()[c],
            kinds.len() as int,
        ).len(),
        buffer_after(kinds, size, count) == size || exists|d: int|
            0 <= d < count && buffer_after(kinds, size, count) == 144 * (#[trigger] of_kind(
                kinds,
                kind_order()[d],
            )).len(),
    decreases count,
{
    reveal_with_fuel(buffer_after, 2);
    if count > 1 {
        buffer_has_room_for_every_pass(kinds, size, count - 1, if c < count - 1 { c } else { 0 });
    }
    let last = of_kind(kinds, kind_order()[count - 1]);
    assert(vertex_bytes(kinds, kind_order()[count - 1]) == 144 * last.len());
    if buffer_after(kinds, size, count - 1) == buffer_after(kinds, size, count)
        && buffer_after(kinds, size, count) != size {
        let d = choose|d: int|
            0 <= d < count - 1 && buffer_after(kinds, size, count - 1) == 144 * (
            #[trigger] of_kind(kinds, kind_order()[d])).len();
        assert(0 <= d < count);
    }
}

/// The two text passes draw the same boxes in different ways: they share the shader that places the
/// corners, and differ in the one that paints them and in how its colors are put over the rest.
pub proof fn text_passes_share_their_corners(background: PipelineParts, glyphs: PipelineParts)
    requires
        TextStep::Background.is_made_of(background),
        TextStep::Glyphs.is_made_of(glyphs),
    ensures
        background.vertex_entry@ == glyphs.vertex_entry@,
        glyphs.vertex_entry@ == "vs_main"@,
        background.fragment_entry@ != glyphs.fragment_entry@,
        background.label@ != glyphs.label@,
        background.label@.len() == glyphs.label@.len(),
        background.label@[5] == 'b' && glyphs.label@[5] == 'f',
        background.fragment_entry@[3] == 'b' && glyphs.fragment_entry@[3] == 't',
        background.blend is Premultiplied,
        glyphs.blend is Alpha,
{
    reveal_strlit("text_bg_pipeline");
    reveal_strlit("text_fg_pipeline");
    reveal_strlit("fs_bg");
    reveal_strlit("fs_text");
    assert("text_bg_pipeline"@[5] == 'b' && "text_fg_pipeline"@[5] == 'f');
    assert("fs_bg"@[3] == 'b' && "fs_text"@[3] == 't');
}

} // verus!
