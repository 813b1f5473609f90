use alacritty::renderer::atlas::{Glyph, Slot};
use alacritty::renderer::content::{RenderableCell, Rgb};
use alacritty::renderer::immediate::{
    cell_instance_layout, create_instance, glyph_indices, process_cell, rect_pipeline_parts,
    rect_vertex_layout, text_pipeline_parts, CellInstance, TextPass, TextStep, WgpuRenderer,
    INITIAL_RECT_VERTICES, RECT_VERTEX_SIZE,
};
use alacritty::renderer::pipeline::{Blend, VertexFormat, BATCH_MAX};
use alacritty::renderer::rects::{paint_order, RectKind};
use alacritty::terminal::{Column, Point};

fn cell(column: usize, wide: bool) -> RenderableCell {
    RenderableCell::plain(
        Point::new(7, Column(column)),
        'x',
        wide,
        Rgb { r: 1, g: 2, b: 3 },
        Rgb { r: 4, g: 5, b: 6 },
    )
}

fn glyph(atlas_index: usize) -> Glyph {
    let mut glyph = Glyph::empty(atlas_index);
    glyph.left = -1;
    glyph.top = 2;
    glyph.width = 3;
    glyph.height = 4;
    glyph
}

#[test]
fn cell_instances_keep_colors() {
    let mut wide_glyph = glyph(0);
    wide_glyph.multicolor = true;
    wide_glyph.slot = Slot { x: 8, y: 9, width: 3, height: 4 };
    let mut wide = cell(70_000, true);
    wide.bg_alpha = 128;
    assert_eq!(
        create_instance(&wide, &wide_glyph),
        CellInstance {
            column: 70_000,
            line: 7,
            left: -1,
            top: 2,
            width: 3,
            height: 4,
            slot: Slot { x: 8, y: 9, width: 3, height: 4 },
            text: Rgb { r: 1, g: 2, b: 3 },
            cell_flags: 3,
            background: Rgb { r: 4, g: 5, b: 6 },
            background_alpha: 128,
        }
    );
    assert_eq!(create_instance(&cell(0, false), &glyph(0)).cell_flags, 0);
    assert_eq!(create_instance(&cell(0, true), &glyph(0)).cell_flags, 2);
}

#[test]
fn cell_instances_are_grouped_by_page() {
    let mut groups = Vec::new();
    let mut accented = cell(3, false);
    accented.zerowidth = vec!['\u{301}', '\u{302}'];
    process_cell(&mut groups, &accented, &vec![glyph(2), glyph(0), glyph(2)]);
    process_cell(&mut groups, &cell(4, false), &vec![glyph(0)]);
    let columns: Vec<Vec<u32>> =
        groups.iter().map(|group| group.iter().map(|part| part.column).collect()).collect();
    assert_eq!(columns, [vec![3, 4], vec![], vec![3, 3]]);
    // Every glyph carries the background.
    assert!(groups.iter().flatten().all(|part| part.background_alpha == 255));
}

#[test]
fn text_passes_come_in_pairs() {
    let renderer = WgpuRenderer::new();
    let mut cells = Vec::new();
    let mut glyphs = Vec::new();
    for column in 0..BATCH_MAX + 7 {
        cells.push(cell(column, false));
        glyphs.push(vec![glyph(if column < 2 { 0 } else { 2 })]);
    }
    let drawn = renderer.draw_cells(&cells, &glyphs);
    let lengths: Vec<usize> = drawn.groups.iter().map(Vec::len).collect();
    assert_eq!(lengths, [2, 0, BATCH_MAX + 5]);
    assert_eq!(drawn.groups[2][BATCH_MAX].column as usize, BATCH_MAX + 2);
    let mut expected = Vec::new();
    for (atlas_index, start, length) in [(0, 0, 2), (2, 0, BATCH_MAX), (2, BATCH_MAX, 5)] {
        for step in [TextStep::Background, TextStep::Glyphs] {
            expected.push(TextPass { step, atlas_index, start, length });
        }
    }
    assert_eq!(drawn.passes, expected);
    assert!(renderer.draw_cells(&vec![], &vec![]).passes.is_empty());
}

#[test]
fn rect_passes_go_by_kind() {
    let kinds = vec![
        RectKind::Normal,
        RectKind::DashedUnderline,
        RectKind::NumKinds,
        RectKind::Undercurl,
        RectKind::DashedUnderline,
    ];
    let mut renderer = WgpuRenderer::new();
    renderer.rect_vertex_buffer_size = 150;
    let passes = renderer.draw_rects(&kinds);
    let drawn: Vec<(RectKind, Vec<usize>, usize, Option<u64>)> = passes
        .into_iter()
        .map(|pass| (pass.kind, pass.rects, pass.vertices, pass.grow))
        .collect();
    assert_eq!(
        drawn,
        [
            (RectKind::DashedUnderline, vec![1, 4], 12, Some(288)),
            (RectKind::Undercurl, vec![3], 6, None),
            (RectKind::Normal, vec![0], 6, None),
        ]
    );
    assert_eq!(renderer.rect_vertex_buffer_size, 288);
    let order: Vec<usize> = drawn.into_iter().flat_map(|pass| pass.1).collect();
    assert_eq!(order, paint_order(&kinds));
}

#[test]
fn rect_buffer_stays_where_it_is_large_enough() {
    let start = (INITIAL_RECT_VERTICES * RECT_VERTEX_SIZE) as u64;
    let mut renderer = WgpuRenderer::new();
    assert_eq!(renderer.rect_vertex_buffer_size, start);
    assert!(renderer.draw_rects(&vec![]).is_empty());
    assert_eq!(renderer.draw_rects(&vec![RectKind::Normal; 682])[0].grow, None);
    assert_eq!(renderer.rect_vertex_buffer_size, start);
    assert_eq!(renderer.draw_rects(&vec![RectKind::Normal; 683])[0].grow, Some(98_352));
    assert_eq!(renderer.rect_vertex_buffer_size, 98_352);
}

#[test]
fn immediate_layouts_have_no_gaps() {
    let cells: Vec<(VertexFormat, u64, u32)> = cell_instance_layout()
        .iter()
        .map(|part| (part.format, part.offset, part.location))
        .collect();
    assert_eq!(
        cells,
        [
            (VertexFormat::Uint32x2, 0, 0),
            (VertexFormat::Sint32x4, 8, 1),
            (VertexFormat::Float32x4, 24, 2),
            (VertexFormat::Uint32x4, 40, 3),
            (VertexFormat::Uint32x4, 56, 4),
        ]
    );
    let rects: Vec<(VertexFormat, u64)> =
        rect_vertex_layout().iter().map(|part| (part.format, part.offset)).collect();
    assert_eq!(rects, [(VertexFormat::Float32x2, 0), (VertexFormat::Float32x4, 8)]);
    assert_eq!(glyph_indices(), [0, 1, 3, 1, 2, 3]);
}

#[test]
fn immediate_pipelines_have_their_parts() {
    let parts = text_pipeline_parts(TextStep::Background);
    assert_eq!(parts.label, "text_bg_pipeline");
    assert_eq!((parts.vertex_entry.as_str(), parts.fragment_entry.as_str()), ("vs_main", "fs_bg"));
    assert_eq!(parts.blend, Blend::Premultiplied);
    let parts = text_pipeline_parts(TextStep::Glyphs);
    assert_eq!((parts.fragment_entry.as_str(), parts.blend), ("fs_text", Blend::Alpha));
    let kinds = [
        (RectKind::Normal, "rect_pipeline_fs_normal"),
        (RectKind::Undercurl, "rect_pipeline_fs_undercurl"),
        (RectKind::DottedUnderline, "rect_pipeline_fs_dotted"),
        (RectKind::DashedUnderline, "rect_pipeline_fs_dashed"),
    ];
    for (kind, label) in kinds {
        let parts = rect_pipeline_parts(kind).unwrap();
        assert_eq!(parts.label, label);
        assert_eq!(format!("rect_pipeline_{}", parts.fragment_entry), label);
        assert_eq!(parts.vertex_entry, "vs_main");
    }
    assert!(rect_pipeline_parts(RectKind::NumKinds).is_none());
}
