use alacritty::config::LevelFilter;
use alacritty::platform::Platform;
use alacritty::renderer::atlas::{
    Atlas, AtlasInsertError, BitmapBuffer, Glyph, GlyphAtlas, RasterizedGlyph, Slot, ATLAS_SIZE,
};
use alacritty::renderer::batch::{
    process_cell, InstanceRange, TextDrawCommand, TextLayer, TextQueue,
};
use alacritty::renderer::content::{
    cell_glyphs, create_instance, font_style, spaced_string_cells, string_cells, Flags, FontStyle,
    GlyphRequest, RenderableCell, Rgb,
};
use alacritty::renderer::frame::{PassCommand, WgpuRenderer};
use alacritty::renderer::gl::{
    gl_debug_text, gl_get_string, renderer_choice, Error as GlError, GlExtensions, LoaderApi,
    Renderer, RendererChoice, RendererPreference, TextRendererProvider, Viewport,
};
use alacritty::renderer::glyph_cache::{
    compute_font_keys, font_plan, regular_font, Delta, FontDescription, FontKeys, FontSettings, GlyphCache,
    GlyphKey, Metrics, Rasterized, Style,
};
use alacritty::renderer::pipeline::{
    backend_choice, chunks, instance_capacity, next_power_of_two, pipeline_parts,
    rect_buffer_size, rect_instance_layout, text_instance_layout, Backend, BackendChoice, Blend,
    Pipeline, BATCH_MAX,
};
use alacritty::renderer::rects::{
    paint_order, quad_corners, LineFlag, RectKind, RenderLine, RenderLines, Stroke,
};
use alacritty::renderer::surface::{
    initialized, select_alpha_mode, surface_configuration, Acquired, AlphaMode, Capabilities, Error, FrameStep,
    FrameUnavailable, PresentMode, Surface, SurfaceFormat,
};
use alacritty::terminal::{Column, Point, SizeInfo};

fn rgb(r: u8, g: u8, b: u8) -> Rgb {
    Rgb { r, g, b }
}

fn table() -> [u8; 256] {
    let mut table = [0; 256];
    for (i, value) in table.iter_mut().enumerate() {
        *value = 255 - i as u8;
    }
    table
}

fn cell(column: usize, character: char) -> RenderableCell {
    RenderableCell::plain(
        Point::new(1, Column(column)),
        character,
        false,
        rgb(1, 2, 3),
        rgb(4, 5, 6),
    )
}

fn bitmap(width: i32, height: i32) -> RasterizedGlyph {
    RasterizedGlyph {
        character: 'a',
        width,
        height,
        top: 3,
        left: -2,
        buffer: BitmapBuffer::Rgb(vec![7; (width * height * 3) as usize]),
    }
}

fn glyph(atlas_index: usize) -> Glyph {
    let mut glyph = Glyph::empty(atlas_index);
    glyph.left = 1;
    glyph.top = 2;
    glyph.width = 3;
    glyph.height = 4;
    glyph
}

#[test]
fn glyphs_are_placed_side_by_side() {
    let mut atlas = Atlas::new(16);
    let (first, upload) = atlas.insert(&bitmap(4, 5), 3).unwrap();
    assert_eq!(first.slot, Slot { x: 0, y: 0, width: 4, height: 5 });
    assert_eq!((first.left, first.top, first.width, first.height), (-2, 3, 4, 5));
    let upload = upload.unwrap();
    assert_eq!(upload.page, 3);
    assert_eq!(upload.rgba.len(), 80);
    assert_eq!(upload.rgba[..4], [255, 255, 255, 7]);
    let (second, _) = atlas.insert(&bitmap(4, 3), 0).unwrap();
    assert_eq!(second.slot, Slot { x: 5, y: 0, width: 4, height: 3 });
    let (third, _) = atlas.insert(&bitmap(8, 2), 0).unwrap();
    assert_eq!(third.slot, Slot { x: 0, y: 6, width: 8, height: 2 });
    assert_eq!(
        atlas.insert(&bitmap(16, 2), 0).unwrap_err(),
        AtlasInsertError::GlyphTooLarge
    );
    assert_eq!(atlas.insert(&bitmap(8, 15), 0).unwrap_err(), AtlasInsertError::Full);
}

#[test]
fn full_pages_are_followed_by_new_ones() {
    let mut atlas = GlyphAtlas::new();
    let big = bitmap(500, 500);
    assert_eq!(atlas.load_glyph(&big).0.atlas_index, 0);
    assert_eq!(atlas.load_glyph(&big).0.atlas_index, 1);
    let (blank, upload) = atlas.load_glyph(&bitmap(ATLAS_SIZE as i32, 1));
    assert_eq!(blank, Glyph::empty(1));
    assert!(upload.is_none());
    atlas.clear();
    assert_eq!(atlas.load_glyph(&big).0.atlas_index, 0);
}

#[test]
fn colored_glyphs_keep_their_colors() {
    let mut atlas = GlyphAtlas::new();
    let mut colored = bitmap(1, 1);
    colored.buffer = BitmapBuffer::Rgba(vec![1, 2, 3, 4]);
    let (glyph, upload) = atlas.load_glyph(&colored);
    assert!(glyph.multicolor);
    assert_eq!(upload.unwrap().rgba, [1, 2, 3, 4]);
}

#[test]
fn instances_are_made_of_cells_and_glyphs() {
    let mut cell = cell(70000, 'x');
    cell.flags.wide_char = true;
    let mut glyph = glyph(0);
    glyph.multicolor = true;
    let instance = create_instance(&cell, 9, &glyph, &table());
    assert_eq!(instance.column, (70000 % 65536) as u16);
    assert_eq!(instance.line, 1);
    assert_eq!((instance.left, instance.top), (1, 2));
    assert_eq!((instance.width, instance.height), (3, 4));
    assert_eq!(instance.text, rgb(254, 253, 252));
    assert_eq!(instance.background, rgb(251, 250, 249));
    assert_eq!(instance.cell_flags, 3);
    assert_eq!(instance.background_alpha, 9);
}

#[test]
fn fonts_follow_the_attributes() {
    let mut flags = Flags::empty();
    assert_eq!(font_style(flags), FontStyle::Regular);
    flags.bold = true;
    assert_eq!(font_style(flags), FontStyle::Bold);
    flags.italic = true;
    assert_eq!(font_style(flags), FontStyle::BoldItalic);
    flags.bold = false;
    assert_eq!(font_style(flags), FontStyle::Italic);
}

#[test]
fn wide_characters_take_more_columns() {
    let text: Vec<char> = "a漢\u{301}b\u{7}c\u{17d8}d".chars().collect();
    let cells = string_cells(Point::new(4, Column(10)), rgb(1, 1, 1), rgb(2, 2, 2), &text);
    let columns: Vec<usize> = cells.iter().map(|cell| cell.point.column.0).collect();
    assert_eq!(columns, [10, 11, 13, 14, 15, 16, 17, 20]);
    let wide: Vec<bool> = cells.iter().map(|cell| cell.flags.wide_char).collect();
    assert_eq!(wide, [false, true, false, false, false, false, true, false]);
    assert!(cells.iter().all(|cell| cell.point.line == 4 && cell.bg_alpha == 255));
    assert_eq!(cells[0].underline, rgb(1, 1, 1));
}

#[test]
fn spacers_are_not_drawn() {
    let text: Vec<char> = "a漢 b漢".chars().collect();
    let cells = spaced_string_cells(Point::new(0, Column(5)), rgb(1, 1, 1), rgb(2, 2, 2), &text);
    let drawn: Vec<(char, usize)> =
        cells.iter().map(|cell| (cell.character, cell.point.column.0)).collect();
    assert_eq!(drawn, [('a', 5), ('漢', 6), ('b', 8), ('漢', 9)]);
    assert!(cells[1].flags.wide_char);
}

#[test]
fn cells_ask_for_their_glyphs() {
    let mut cell = cell(0, 'e');
    cell.zerowidth = vec!['\u{301}', '\u{302}'];
    let show = |character, show_missing| GlyphRequest { character, show_missing };
    assert_eq!(
        cell_glyphs(&cell),
        [show('e', true), show('\u{301}', false), show('\u{302}', false)]
    );
    cell.flags.hidden = true;
    assert_eq!(cell_glyphs(&cell), [show(' ', true)]);
    cell.flags.hidden = false;
    cell.zerowidth.clear();
    cell.character = '\t';
    assert_eq!(cell_glyphs(&cell), [show(' ', true)]);
}

#[test]
fn glyphs_on_top_have_no_background() {
    let mut cell = cell(0, 'e');
    cell.zerowidth = vec!['\u{301}'];
    let mut groups = Vec::new();
    process_cell(&mut groups, &cell, &vec![glyph(0), glyph(2)], &table());
    assert_eq!(groups.len(), 3);
    assert_eq!(groups[0][0].background_alpha, 255);
    assert!(groups[1].is_empty());
    assert_eq!(groups[2][0].background_alpha, 0);
}

#[test]
fn every_instance_is_drawn_once() {
    let mut queue = TextQueue::new();
    let cells = vec![cell(0, 'a'), cell(1, 'b'), cell(2, 'c')];
    let glyphs = vec![vec![glyph(1)], vec![glyph(0)], vec![glyph(1)]];
    queue.queue_cells(TextLayer::AfterRects, &cells, &glyphs, &table());
    queue.queue_cells(
        TextLayer::BeforeRects,
        &vec![cell(7, 'd')],
        &vec![vec![glyph(0)]],
        &table(),
    );
    queue.queue_cells(TextLayer::BeforeRects, &vec![], &vec![], &table());
    queue.flatten_text_batches();
    let columns: Vec<u16> = queue.instances.iter().map(|instance| instance.column).collect();
    assert_eq!(columns, [7, 1, 0, 2]);
    let range = |start, end| InstanceRange { start, end };
    assert_eq!(
        queue.before_commands,
        [
            TextDrawCommand::Background(range(0, 1)),
            TextDrawCommand::Glyph { atlas_index: 0, instance_range: range(0, 1) },
        ]
    );
    assert_eq!(
        queue.after_commands,
        [
            TextDrawCommand::Background(range(1, 4)),
            TextDrawCommand::Glyph { atlas_index: 0, instance_range: range(1, 2) },
            TextDrawCommand::Glyph { atlas_index: 1, instance_range: range(2, 4) },
        ]
    );
    queue.begin_frame();
    queue.flatten_text_batches();
    assert!(queue.instances.is_empty());
    assert!(queue.after_commands.is_empty());
    assert_eq!(TextLayer::BeforeRects.index(), 0);
    assert_eq!(TextLayer::AfterRects.index(), 1);
}

#[test]
fn frames_are_drawn_from_bottom_to_top() {
    let mut renderer = WgpuRenderer::new(configuration(), false);
    assert_eq!(renderer.begin_frame(10, 10), FrameStep::Acquire { configure: true });
    assert_eq!(renderer.begin_frame(10, 10), FrameStep::Acquire { configure: false });
    assert!(renderer.prepare_text().is_none());
    for layer in [TextLayer::BeforeRects, TextLayer::AfterRects] {
        renderer.queue_cells(layer, &vec![cell(0, 'a')], &vec![vec![glyph(0)]], &table());
    }
    let upload = renderer.prepare_text().unwrap();
    assert_eq!((upload.instances, upload.grow), (2, None));
    let upload = renderer.prepare_rects(&vec![RectKind::Normal, RectKind::Undercurl]).unwrap();
    assert_eq!(upload.order, [1, 0]);
    assert_eq!(upload.grow, None);
    let range = |start, end| InstanceRange { start, end };
    assert_eq!(
        renderer.render_frame(),
        [
            PassCommand::BindUniforms,
            PassCommand::TextInstances,
            PassCommand::SetPipeline(Pipeline::TextBackground),
            PassCommand::BindPage(0),
            PassCommand::Draw(range(0, 1)),
            PassCommand::SetPipeline(Pipeline::TextForeground),
            PassCommand::BindPage(0),
            PassCommand::Draw(range(0, 1)),
            PassCommand::SetPipeline(Pipeline::Rect),
            PassCommand::BindUniforms,
            PassCommand::RectInstances,
            PassCommand::Draw(range(0, 2)),
            PassCommand::BindUniforms,
            PassCommand::TextInstances,
            PassCommand::SetPipeline(Pipeline::TextBackground),
            PassCommand::BindPage(0),
            PassCommand::Draw(range(1, 2)),
            PassCommand::SetPipeline(Pipeline::TextForeground),
            PassCommand::BindPage(0),
            PassCommand::Draw(range(1, 2)),
        ]
    );
    assert!(renderer.prepare_rects(&vec![RectKind::NumKinds]).is_none());
    assert_eq!(renderer.begin_frame(0, 10), FrameStep::Unavailable(FrameUnavailable::Suspended));
}

#[test]
fn buffers_grow_to_powers_of_two() {
    let mut renderer = WgpuRenderer::new(configuration(), false);
    let cells: Vec<RenderableCell> = (0..8193).map(|i| cell(i, 'a')).collect();
    let glyphs = vec![vec![glyph(0)]; 8193];
    renderer.queue_cells(TextLayer::AfterRects, &cells, &glyphs, &table());
    assert_eq!(renderer.prepare_text().unwrap().grow, Some(16384));
    assert_eq!(renderer.prepare_text().unwrap().grow, None);
    assert_eq!(
        renderer.prepare_rects(&vec![RectKind::Normal; 1025]).unwrap().grow,
        Some(65536)
    );

    assert_eq!(next_power_of_two(0), 1);
    assert_eq!(next_power_of_two(1), 1);
    assert_eq!(next_power_of_two(3), 4);
    assert_eq!(next_power_of_two(4), 4);
    assert_eq!(next_power_of_two(1 << 63), 1 << 63);
    assert_eq!(instance_capacity(8192, 8192), 8192);
    assert_eq!(instance_capacity(8192, 8193), 16384);
    assert_eq!(rect_buffer_size(100, 2), 100);
    assert_eq!(rect_buffer_size(100, 3), 128);
}

#[test]
fn long_calls_are_split() {
    assert!(chunks(0).is_empty());
    assert_eq!(chunks(BATCH_MAX), [BATCH_MAX]);
    assert_eq!(chunks(2 * BATCH_MAX + 1), [BATCH_MAX, BATCH_MAX, 1]);
}

#[test]
fn instances_have_no_gaps() {
    let offsets: Vec<u64> = text_instance_layout().iter().map(|part| part.offset).collect();
    assert_eq!(offsets, [0, 4, 12, 28, 32]);
    let offsets: Vec<u64> = rect_instance_layout().iter().map(|part| part.offset).collect();
    assert_eq!(offsets, [0, 16, 32]);
}

#[test]
fn pipelines_have_their_parts() {
    let parts = pipeline_parts(Pipeline::TextBackground);
    assert_eq!((parts.vertex_entry.as_str(), parts.blend), ("vs_bg", Blend::Premultiplied));
    let parts = pipeline_parts(Pipeline::TextForeground);
    assert_eq!((parts.fragment_entry.as_str(), parts.blend), ("fs_text", Blend::Alpha));
    let parts = pipeline_parts(Pipeline::Rect);
    assert_eq!((parts.label.as_str(), parts.blend), ("rect_pipeline", Blend::Alpha));
    assert_eq!(
        backend_choice(Platform::Windows, true),
        BackendChoice { backend: Backend::Dx12, from_visual: true }
    );
    assert_eq!(backend_choice(Platform::Macos, true).backend, Backend::Metal);
    assert_eq!(backend_choice(Platform::OtherUnix, true).backend, Backend::Vulkan);
}

#[test]
fn lines_grow_along_their_cells() {
    let mut lines = RenderLines::new();
    let mut first = cell(2, 'a');
    first.flags.underline = true;
    first.flags.strikeout = true;
    first.underline = rgb(9, 9, 9);
    lines.update(&first);
    let mut second = cell(3, 'b');
    second.flags.underline = true;
    second.flags.wide_char = true;
    second.underline = rgb(9, 9, 9);
    lines.update(&second);
    let mut third = cell(6, 'c');
    third.flags.underline = true;
    third.underline = rgb(9, 9, 9);
    lines.update(&third);
    assert_eq!(lines.underline.len(), 2);
    assert_eq!(lines.underline[0].start.column, Column(2));
    assert_eq!(lines.underline[0].end.column, Column(4));
    assert_eq!(lines.underline[1].start.column, Column(6));
    assert_eq!(lines.strikeout[0].color, rgb(1, 2, 3));
    assert_eq!(lines.rects(10).len(), 3);
}

#[test]
fn lines_are_cut_at_the_edge() {
    let line = RenderLine {
        start: Point::new(0, Column(5)),
        end: Point::new(2, Column(1)),
        color: rgb(0, 0, 0),
    };
    let rects = line.rects(LineFlag::DoubleUnderline, 8);
    let ends: Vec<(usize, usize, usize)> = rects
        .iter()
        .map(|rect| (rect.start.line, rect.start.column.0, rect.end.column.0))
        .collect();
    assert_eq!(ends, [(0, 5, 7), (0, 5, 7), (1, 0, 7), (1, 0, 7), (2, 0, 1), (2, 0, 1)]);
    assert_eq!(rects[0].stroke, Stroke::UpperUnderline);
    assert_eq!(rects[1].stroke, Stroke::LowerUnderline);
    let rects = line.rects(LineFlag::Undercurl, 8);
    assert_eq!((rects[0].stroke, rects[0].kind), (Stroke::Descent, RectKind::Undercurl));
    let rects = line.rects(LineFlag::DashedUnderline, 8);
    assert_eq!((rects[0].stroke, rects[0].kind), (Stroke::Underline, RectKind::DashedUnderline));
    let rects = line.rects(LineFlag::DottedUnderline, 8);
    assert_eq!((rects[0].stroke, rects[0].kind), (Stroke::Descent, RectKind::DottedUnderline));
    let rects = line.rects(LineFlag::Strikeout, 8);
    assert_eq!((rects[0].stroke, rects[0].kind), (Stroke::Strikeout, RectKind::Normal));
}

#[test]
fn normal_rectangles_are_on_top() {
    let kinds = vec![
        RectKind::Normal,
        RectKind::DottedUnderline,
        RectKind::NumKinds,
        RectKind::DashedUnderline,
        RectKind::Undercurl,
        RectKind::Normal,
        RectKind::DashedUnderline,
    ];
    assert_eq!(paint_order(&kinds), [3, 6, 1, 4, 0, 5]);
    assert_eq!(quad_corners(), [0, 1, 2, 2, 3, 1]);
    assert_eq!(RectKind::DashedUnderline.number(), 3);
}

fn format(code: u32, srgb: bool) -> SurfaceFormat {
    SurfaceFormat { code, srgb }
}

fn capabilities() -> Capabilities {
    Capabilities {
        formats: vec![format(1, false), format(2, true), format(3, true)],
        alpha_modes: vec![AlphaMode::Inherit, AlphaMode::Opaque, AlphaMode::PostMultiplied],
        present_modes: vec![PresentMode::Fifo, PresentMode::Mailbox],
    }
}

fn configuration() -> alacritty::renderer::surface::SurfaceConfiguration {
    surface_configuration(&capabilities(), 0, 7, false).unwrap()
}

#[test]
fn first_failed_step_decides() {
    let failed = |text: &str| Err(text.to_owned());
    let none = Capabilities { formats: vec![], alpha_modes: vec![], present_modes: vec![] };
    let start = |created, adapter, device, capabilities: &Capabilities| {
        initialized(created, adapter, device, capabilities, 0, 7, false)
            .map_err(|error| error.message())
    };
    assert_eq!(
        start(failed("a"), failed("b"), failed("c"), &none).unwrap_err(),
        "failed to create surface: a"
    );
    assert_eq!(
        start(Ok(()), failed("b"), failed("c"), &none).unwrap_err(),
        "failed to request adapter: b"
    );
    assert_eq!(
        start(Ok(()), Ok(()), failed("c"), &none).unwrap_err(),
        "failed to request device: c"
    );
    assert_eq!(
        start(Ok(()), Ok(()), Ok(()), &none).unwrap_err(),
        "surface exposes no texture formats"
    );
    assert_eq!(start(Ok(()), Ok(()), Ok(()), &capabilities()).unwrap(), configuration());
}

#[test]
fn new_renderer_is_empty() {
    let mut renderer = WgpuRenderer::new(configuration(), false);
    assert!(renderer.text.instances.is_empty());
    assert!(renderer.text.before_commands.is_empty());
    assert!(renderer.text.after_commands.is_empty());
    assert_eq!(renderer.rects, 0);
    let (first, _) = renderer.glyph_atlas.load_glyph(&bitmap(4, 5));
    assert_eq!((first.atlas_index, first.slot.x, first.slot.y), (0, 0, 0));
}

#[test]
fn surfaces_are_configured() {
    let config = configuration();
    assert_eq!(config.format, format(2, true));
    assert_eq!(config.alpha_mode, AlphaMode::Opaque);
    assert_eq!(config.present_mode, PresentMode::Fifo);
    assert_eq!((config.width, config.height), (1, 7));
    assert_eq!(config.desired_maximum_frame_latency, 1);
    let config = surface_configuration(&capabilities(), 5, 7, true).unwrap();
    assert_eq!(config.alpha_mode, AlphaMode::PostMultiplied);

    let mut few = capabilities();
    few.present_modes.clear();
    assert_eq!(
        surface_configuration(&few, 1, 1, true).unwrap_err().message(),
        "surface exposes no present modes"
    );
    few.alpha_modes.clear();
    assert_eq!(
        surface_configuration(&few, 1, 1, true).unwrap_err().message(),
        "surface exposes no alpha modes"
    );
    few.formats.clear();
    assert_eq!(
        surface_configuration(&few, 1, 1, true).unwrap_err().message(),
        "surface exposes no texture formats"
    );
    assert_eq!(Error::CreateSurface("x".to_owned()).message(), "failed to create surface: x");
    assert_eq!(Error::RequestAdapter("x".to_owned()).message(), "failed to request adapter: x");
    assert_eq!(Error::RequestDevice("x".to_owned()).message(), "failed to request device: x");
}

#[test]
fn alpha_modes_follow_the_transparency() {
    let modes = vec![AlphaMode::Auto, AlphaMode::PostMultiplied, AlphaMode::PreMultiplied];
    assert_eq!(select_alpha_mode(&modes, true), Some(AlphaMode::PreMultiplied));
    assert_eq!(select_alpha_mode(&modes, false), Some(AlphaMode::Auto));
    assert_eq!(select_alpha_mode(&vec![], false), None);
}

#[test]
fn lost_surfaces_are_recovered_once() {
    let mut surface = Surface::new(configuration(), false);
    assert_eq!(surface.begin_frame(5, 5), FrameStep::Acquire { configure: true });
    assert_eq!(surface.acquired(Acquired::Lost, 5, 5), FrameStep::Recreate);
    assert!(surface.recreate_surface(Ok(capabilities())).is_ok());
    assert_eq!(surface.recreated(true, 5, 5), FrameStep::Acquire { configure: true });
    assert_eq!(
        surface.acquired(Acquired::Lost, 5, 5),
        FrameStep::Unavailable(FrameUnavailable::Retry)
    );

    assert_eq!(surface.begin_frame(5, 5), FrameStep::Acquire { configure: false });
    assert_eq!(
        surface.acquired(Acquired::Outdated, 5, 5),
        FrameStep::Acquire { configure: true }
    );
    assert_eq!(surface.acquired(Acquired::Suboptimal, 5, 5), FrameStep::Draw);
    assert!(surface.config_dirty);
    assert_eq!(surface.begin_frame(5, 5), FrameStep::Acquire { configure: true });
    assert_eq!(
        surface.acquired(Acquired::Occluded, 5, 5),
        FrameStep::Unavailable(FrameUnavailable::Suspended)
    );
    surface.begin_frame(5, 5);
    assert_eq!(
        surface.acquired(Acquired::Timeout, 5, 5),
        FrameStep::Unavailable(FrameUnavailable::Retry)
    );
    surface.begin_frame(5, 5);
    assert_eq!(
        surface.acquired(Acquired::Outdated, 0, 5),
        FrameStep::Unavailable(FrameUnavailable::Suspended)
    );
}

#[test]
fn new_surfaces_must_have_the_format() {
    let mut surface = Surface::new(configuration(), true);
    let mut other = capabilities();
    other.formats = vec![format(9, true)];
    assert_eq!(
        surface.recreate_surface(Ok(other)).unwrap_err().message(),
        "surface exposes no previously selected texture format"
    );
    let mut other = capabilities();
    other.alpha_modes.clear();
    assert_eq!(
        surface.recreate_surface(Ok(other)).unwrap_err().message(),
        "surface exposes no alpha modes"
    );
    assert!(surface.recreate_surface(Err(Error::CreateSurface("x".to_owned()))).is_err());
    assert!(surface.recreate_surface(Ok(capabilities())).is_ok());
    assert_eq!(surface.config.alpha_mode, AlphaMode::PostMultiplied);
    assert!(surface.config_dirty);
    assert_eq!(surface.configure_surface(3, 0, true), None);
    assert_eq!(surface.configure_surface(3, 4, false), Some(true));
    assert_eq!(surface.configure_surface(3, 4, false), Some(false));
}

fn settings() -> FontSettings {
    FontSettings {
        size: 12,
        offset: Delta { x: 0, y: 0 },
        glyph_offset: Delta { x: 1, y: -1 },
        builtin_box_drawing: true,
    }
}

fn key(character: char) -> GlyphKey {
    GlyphKey { font: 0, size: 12, character }
}

#[test]
fn glyphs_are_loaded_once() {
    let mut atlas = GlyphAtlas::new();
    let fonts = FontKeys { regular: 0, bold: 1, italic: 2, bold_italic: 3 };
    let metrics = Metrics { descent: -4, average_advance: 8 };
    let mut cache = GlyphCache::new(&settings(), fonts, metrics);
    assert!(cache.lookup(key('a')).is_none());
    let (glyph, upload) =
        cache.get(&mut atlas, key('a'), Rasterized::Found(bitmap(2, 2)), true);
    assert_eq!((glyph.left, glyph.top), (-1, 6));
    assert!(upload.is_some());
    assert_eq!(cache.lookup(key('a')), Some(glyph));
    let again = cache.get(&mut atlas, key('a'), Rasterized::Failed, true);
    assert_eq!(again.0, glyph);
    assert!(again.1.is_none());

    let mut accent = bitmap(2, 2);
    accent.character = '\u{301}';
    let (glyph, _) = cache.get(&mut atlas, key('\u{301}'), Rasterized::Found(accent), false);
    assert_eq!(glyph.left, 7);

    let (first, upload) =
        cache.get(&mut atlas, key('x'), Rasterized::Missing(bitmap(3, 3)), true);
    assert!(upload.is_some());
    assert_eq!(cache.lookup(key('\0')), Some(first));
    let (second, upload) =
        cache.get(&mut atlas, key('y'), Rasterized::Missing(bitmap(5, 5)), true);
    assert!(upload.is_none());
    assert_eq!(first, second);
    let (third, upload) =
        cache.get(&mut atlas, key('z'), Rasterized::Missing(bitmap(5, 5)), false);
    assert!(upload.is_none());
    assert_eq!(third.width, 0);
    let (fourth, _) = cache.get(&mut atlas, key('w'), Rasterized::Failed, true);
    assert_eq!(fourth.width, 0);

    cache.reset_glyph_cache(&mut atlas);
    assert!(cache.lookup(key('a')).is_none());
    // The room of the glyphs is free again.
    let (again, _) = cache.get(&mut atlas, key('a'), Rasterized::Found(bitmap(2, 2)), true);
    assert_eq!((again.atlas_index, again.slot), (0, Slot { x: 0, y: 0, width: 2, height: 2 }));
}

#[test]
fn lines_within_one_line_need_no_columns() {
    let point = Point::new(2, Column(1));
    let line = RenderLine { start: point, end: point, color: rgb(1, 2, 3) };
    assert_eq!(line.rects(LineFlag::DoubleUnderline, 0).len(), 2);
    assert!(RenderLines::new().rects(0).is_empty());
}

#[test]
fn builtin_font_goes_first_where_it_is_on() {
    let fonts = FontKeys { regular: 0, bold: 1, italic: 2, bold_italic: 3 };
    let mut cache = GlyphCache::new(&settings(), fonts, Metrics { descent: 0, average_advance: 0 });
    let width = |rasterized| match rasterized {
        Rasterized::Found(glyph) => Some(glyph.width),
        _ => None,
    };
    let font = || Rasterized::Found(bitmap(2, 2));
    assert_eq!(width(cache.chosen(Some(bitmap(5, 5)), font())), Some(5));
    assert_eq!(width(cache.chosen(Some(bitmap(5, 5)), Rasterized::Failed)), Some(5));
    assert_eq!(width(cache.chosen(None, font())), Some(2));
    assert_eq!(width(cache.chosen(None, Rasterized::Failed)), None);
    cache.builtin_box_drawing = false;
    assert_eq!(width(cache.chosen(Some(bitmap(5, 5)), font())), Some(2));
}

#[test]
fn default_font_takes_the_place_of_a_missing_one() {
    assert_eq!(regular_font(Some(1), Some(2)), Some(1));
    assert_eq!(regular_font(None, Some(2)), Some(2));
    assert_eq!(regular_font(None, None), None);
}

#[test]
fn common_glyphs_are_printable() {
    let fonts = FontKeys { regular: 5, bold: 6, italic: 7, bold_italic: 8 };
    let metrics = Metrics { descent: 0, average_advance: 0 };
    let mut cache = GlyphCache::new(&settings(), fonts, metrics);
    let keys = cache.common_glyphs();
    assert_eq!(keys.len(), 380);
    assert_eq!((keys[0].font, keys[0].character), (5, ' '));
    assert_eq!((keys[94].font, keys[94].character), (5, '~'));
    assert_eq!((keys[95].font, keys[95].character), (6, ' '));
    assert_eq!((keys[379].font, keys[379].character), (8, '~'));

    let mut other = settings();
    other.size = 20;
    other.glyph_offset = Delta { x: 3, y: 3 };
    cache.update_font_size(&other, None);
    assert_eq!(cache.font_size, 12);
    assert_eq!(cache.glyph_offset, Delta { x: 3, y: 3 });
    cache.update_font_size(&other, Some((FontKeys::default(), metrics)));
    assert_eq!(cache.font_size, 20);
    assert_eq!(cache.fonts.get(FontStyle::Bold), 0);
}

#[test]
fn fonts_are_planned() {
    let plain = |style: Option<&str>| FontDescription {
        family: "Mono".to_owned(),
        style: style.map(|style| style.to_owned()),
    };
    let plan =
        font_plan(&plain(Some("Book")), &plain(None), &plain(Some("Book")), &plain(Some("Old")));
    assert!(matches!(plan.regular.style, Style::Specific(_)));
    assert!(matches!(
        plan.bold.unwrap().style,
        Style::Description { italic: false, bold: true }
    ));
    assert!(plan.italic.is_none());
    assert_eq!(plan.bold_italic.unwrap().name, "Mono");
    let fonts = compute_font_keys(3, Some(4), None, Some(6));
    assert_eq!(fonts, FontKeys { regular: 3, bold: 4, italic: 3, bold_italic: 6 });
}

#[test]
fn gl_renderers_are_chosen() {
    let choice = |use_glsl3, allow_dsb| RendererChoice { use_glsl3, allow_dsb };
    assert_eq!(renderer_choice(None, "3.30 NVIDIA", false), choice(true, true));
    assert_eq!(renderer_choice(None, "3.3", false), choice(true, true));
    assert_eq!(renderer_choice(None, "3.3", true), choice(false, true));
    assert_eq!(renderer_choice(None, "1.20", false), choice(false, true));
    let glsl3 = Some(RendererPreference::Glsl3);
    assert_eq!(renderer_choice(glsl3, "1", true), choice(true, true));
    let gles2 = Some(RendererPreference::Gles2);
    assert_eq!(renderer_choice(gles2, "4", false), choice(false, true));
    let pure = Some(RendererPreference::Gles2Pure);
    assert_eq!(renderer_choice(pure, "4", false), choice(false, false));
}

#[test]
fn gl_strings_are_checked() {
    assert_eq!(gl_get_string(0, Some("4.6".to_owned()), "version").unwrap(), "4.6");
    assert_eq!(
        gl_get_string(0x500, None, "version").unwrap_err().message(),
        "OpenGL error requesting version: invalid enum"
    );
    assert_eq!(
        gl_get_string(1282, Some("4.6".to_owned()), "version").unwrap_err().message(),
        "OpenGL error 1282 requesting version"
    );
    assert_eq!(
        gl_get_string(0, None, "version").unwrap_err().message(),
        "OpenGL error 0 requesting version"
    );
    assert_eq!(
        GlError::Shader("bad".to_owned()).message(),
        "There was an error initializing the shaders: bad"
    );
    assert_eq!(gl_debug_text("hm"), "[gl_render] hm");
}

#[test]
fn gl_extensions_are_listed() {
    let listed = GlExtensions::load_extensions(Some(" GL_KHR_debug\tGL_KHR_robustness ".to_owned()));
    assert_eq!(listed.names, ["GL_KHR_debug", "GL_KHR_robustness"]);
    assert!(listed.contains("GL_KHR_debug"));
    assert!(!listed.contains("GL_KHR"));
    assert!(listed.supports_robustness(0x8252));
    assert!(!listed.supports_robustness(0x8261));
    assert!(listed.logs_debug_messages(LevelFilter::Debug));
    assert!(!listed.logs_debug_messages(LevelFilter::Info));
    let none = GlExtensions::load_extensions(None);
    assert!(!none.supports_robustness(0x8252));
    let named = GlExtensions::from_names(vec!["X".to_owned()]);
    assert!(named.contains("X"));
    assert!(!named.logs_debug_messages(LevelFilter::Trace));
}

#[test]
fn gl_renderer_follows_the_window() {
    let mut renderer = Renderer::new(RendererChoice { use_glsl3: false, allow_dsb: true }, true);
    let size = SizeInfo {
        width: 100,
        height: 80,
        cell_width: 5,
        cell_height: 10,
        padding_x: 3,
        padding_y: 4,
        screen_lines: 7,
        columns: 18,
    };
    renderer.resize(&size);
    assert_eq!(renderer.viewport, Viewport { x: 3, y: 4, width: 94, height: 72 });
    assert_eq!(renderer.text_size, size);
    let api = renderer.with_loader(|api: LoaderApi| api.text_renderer);
    assert_eq!(api, TextRendererProvider::Gles2);
    assert_eq!(renderer.was_context_reset(0), None);
    assert_eq!(renderer.was_context_reset(0x8253).as_deref(), Some("guilty"));
    assert_eq!(renderer.was_context_reset(0x8254).as_deref(), Some("innocent"));
    assert_eq!(renderer.was_context_reset(0x8255).as_deref(), Some("unknown"));
    assert_eq!(renderer.was_context_reset(7).as_deref(), Some("invalid"));
    let renderer = Renderer::new(RendererChoice { use_glsl3: true, allow_dsb: true }, false);
    assert_eq!(renderer.was_context_reset(0x8253), None);
    assert_eq!(renderer.text_renderer, TextRendererProvider::Glsl3);
}
