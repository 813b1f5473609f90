//! One frame from the cells of the grid to the commands of the graphics card.

use crate::renderer::atlas::{Glyph, GlyphAtlas, Row};
use crate::renderer::batch::{InstanceRange, TextDrawCommand, TextLayer, TextQueue};
use crate::renderer::content::{LinearTable, RenderableCell};
use crate::renderer::pipeline::{
    instance_capacity, rect_buffer_size, Pipeline, INITIAL_INSTANCE_CAPACITY,
    INITIAL_RECT_INSTANCE_CAPACITY, RECT_INSTANCE_SIZE,
};
use crate::renderer::rects::{paint_order, RectKind};
use crate::renderer::surface::{FrameStep, Phase, Surface, SurfaceConfiguration};
use vstd::prelude::*;

verus! {

/// A command of a render pass.
#[derive(Clone, Copy, Debug, PartialEq, Eq, Structural)]
pub enum PassCommand {
    /// Use what all instances of the frame share.
    BindUniforms,
    /// Take the instances from the buffer of the text.
    TextInstances,
    /// Take the instances from the buffer of the rectangles.
    RectInstances,
    SetPipeline(Pipeline),
    /// Take the pixels from a page of the atlas.
    BindPage(usize),
    Draw(InstanceRange),
}

/// The commands of draw command `k` of a layer. The pipeline for glyphs stays in use from one glyph
/// command to the next.
pub open spec fn pass_of(commands: Seq<TextDrawCommand>, k: int) -> Seq<PassCommand> {
    match commands[k] {
        TextDrawCommand::Background(range) => seq![
            PassCommand::SetPipeline(Pipeline::TextBackground),
            PassCommand::BindPage(0),
            PassCommand::Draw(range),
        ],
        TextDrawCommand::Glyph { atlas_index, instance_range } => if k > 0 && commands[k
            - 1] is Glyph {
            seq![PassCommand::BindPage(atlas_index), PassCommand::Draw(instance_range)]
        } else {
            seq![
                PassCommand::SetPipeline(Pipeline::TextForeground),
                PassCommand::BindPage(atlas_index),
                PassCommand::Draw(instance_range),
            ]
        },
    }
}

/// The commands of the first `count` draw commands of a layer.
pub open spec fn passes(commands: Seq<TextDrawCommand>, count: int) -> Seq<PassCommand>
    decreases count,
{
    if count <= 0 {
        Seq::empty()
    } else {
        passes(commands, count - 1) + pass_of(commands, count - 1)
    }
}

/// The commands of a layer: none where it has no text.
pub open spec fn layer_pass(commands: Seq<TextDrawCommand>) -> Seq<PassCommand> {
    if commands.len() == 0 {
        Seq::empty()
    } else {
        seq![PassCommand::BindUniforms, PassCommand::TextInstances] + passes(
            commands,
            commands.len() as int,
        )
    }
}

/// The commands of the rectangles: none where there are none.
pub open spec fn rect_pass(rects: int) -> Seq<PassCommand> {
    if rects == 0 {
        Seq::empty()
    } else {
        seq![
            PassCommand::SetPipeline(Pipeline::Rect),
            PassCommand::BindUniforms,
            PassCommand::RectInstances,
            PassCommand::Draw(InstanceRange { start: 0, end: rects as u32 }),
        ]
    }
}

/// Append the commands of a layer.
fn render_text_layer(pass: &mut Vec<PassCommand>, commands: &Vec<TextDrawCommand>)
    ensures
        final(pass)@ == old(pass)@ + layer_pass(commands@),
{
    if commands.len() == 0 {
        assert(pass@ =~= old(pass)@ + layer_pass(commands@));
        return;
    }
    pass.push(PassCommand::BindUniforms);
    pass.push(PassCommand::TextInstances);
    let ghost start = pass@;
    let mut foreground_pipeline_active = false;
    let mut index: usize = 0;
    assert(pass@ =~= start + passes(commands@, 0));
    while index < commands.len()
        invariant
            index <= commands@.len(),
            foreground_pipeline_active == (index > 0 && commands@[index - 1] is Glyph),
            pass@ == start + passes(commands@, index as int),
        decreases commands@.len() - index,
    {
        let ghost before = pass@;
        match commands[index] {
            TextDrawCommand::Background(instance_range) => {
                pass.push(PassCommand::SetPipeline(Pipeline::TextBackground));
                pass.push(PassCommand::BindPage(0));
                pass.push(PassCommand::Draw(instance_range));
                foreground_pipeline_active = false;
            },
            TextDrawCommand::Glyph { atlas_index, instance_range } => {
                if !foreground_pipeline_active {
                    pass.push(PassCommand::SetPipeline(Pipeline::TextForeground));
                    foreground_pipeline_active = true;
                }
                pass.push(PassCommand::BindPage(atlas_index));
                pass.push(PassCommand::Draw(instance_range));
            },
        }
        assert(pass@ =~= before + pass_of(commands@, index as int));
        assert(pass@ =~= start + passes(commands@, index + 1));
        index += 1;
    }
    assert(pass@ =~= old(pass)@ + layer_pass(commands@));
}

/// The instances of a frame that are copied to the graphics card.
#[derive(Clone, Copy, Debug, PartialEq, Eq, Structural)]
pub struct TextUpload {
    /// How many instances a new buffer has room for, if one is needed.
    pub grow: Option<usize>,
    pub instances: usize,
}

/// The rectangles of a frame that are copied to the graphics card.
#[derive(Debug)]
pub struct RectUpload {
    /// The size in bytes of a new buffer, if one is needed.
    pub grow: Option<u64>,
    /// The positions of the rectangles in the order in which they are drawn.
    pub order: Vec<usize>,
}

/// What the renderer keeps from frame to frame.
pub struct WgpuRenderer {
    pub surface: Surface,
    pub text: TextQueue,
    pub glyph_atlas: GlyphAtlas,
    pub text_instance_buffer_capacity: usize,
    pub rect_instance_buffer_size: u64,
    pub rects: usize,
}

impl WgpuRenderer {
    /// A renderer that has not drawn anything.
    pub fn new(config: SurfaceConfiguration, transparent: bool) -> (renderer: WgpuRenderer)
        ensures
            renderer.surface == (Surface {
                config,
                config_dirty: false,
                transparent,
                phase: Phase::Idle,
            }),
            renderer.text.layer(TextLayer::BeforeRects).len() == 0,
            renderer.text.layer(TextLayer::AfterRects).len() == 0,
            renderer.text.instances@.len() == 0,
            renderer.text.before_commands@.len() == 0,
            renderer.text.after_commands@.len() == 0,
            renderer.glyph_atlas.well_formed(),
            renderer.glyph_atlas.pages@.len() == 1,
            renderer.glyph_atlas.pages@[0].row == (Row { extent: 0, baseline: 0, tallest: 0 }),
            renderer.glyph_atlas.pages@[0].placed@.len() == 0,
            renderer.text_instance_buffer_capacity == INITIAL_INSTANCE_CAPACITY,
            renderer.rect_instance_buffer_size == INITIAL_RECT_INSTANCE_CAPACITY
                * RECT_INSTANCE_SIZE,
            renderer.rects == 0,
    {
        WgpuRenderer {
            surface: Surface::new(config, transparent),
            text: TextQueue::new(),
            glyph_atlas: GlyphAtlas::new(),
            text_instance_buffer_capacity: INITIAL_INSTANCE_CAPACITY,
            rect_instance_buffer_size: (INITIAL_RECT_INSTANCE_CAPACITY * RECT_INSTANCE_SIZE) as u64,
            rects: 0,
        }
    }

    /// Begin with the next frame: forget the text of the last one, and fit the surface to the
    /// window.
    pub fn begin_frame(&mut self, width: u32, height: u32) -> (step: FrameStep)
        ensures
            final(self).text.layer(TextLayer::BeforeRects).len() == 0,
            final(self).text.layer(TextLayer::AfterRects).len() == 0,
            final(self).text.instances == old(self).text.instances,
            final(self).text.before_commands == old(self).text.before_commands,
            final(self).text.after_commands == old(self).text.after_commands,
            old(self).surface.begun(width, height, final(self).surface, step),
            final(self).glyph_atlas == old(self).glyph_atlas,
            final(self).text_instance_buffer_capacity == old(self).text_instance_buffer_capacity,
            final(self).rect_instance_buffer_size == old(self).rect_instance_buffer_size,
            final(self).rects == old(self).rects,
    {
        self.text.begin_frame();
        self.surface.begin_frame(width, height)
    }

    /// Add cells to a layer, without drawing them yet.
    pub fn queue_cells(
        &mut self,
        layer: TextLayer,
        cells: &Vec<RenderableCell>,
        glyphs: &Vec<Vec<Glyph>>,
        table: &LinearTable,
    )
        requires
            crate::renderer::batch::glyphs_fit(cells@, glyphs@),
        ensures
            final(self).text.layer(layer) == (if crate::renderer::batch::is_drawn(
                crate::renderer::batch::batch_of(cells@, glyphs@, *table),
            ) {
                old(self).text.layer(layer).push(
                    crate::renderer::batch::batch_of(cells@, glyphs@, *table),
                )
            } else {
                old(self).text.layer(layer)
            }),
            layer == TextLayer::BeforeRects ==> final(self).text.after_rects == old(
                self).text.after_rects,
            layer == TextLayer::AfterRects ==> final(self).text.before_rects == old(
                self).text.before_rects,
            final(self).text.instances == old(self).text.instances,
            final(self).text.before_commands == old(self).text.before_commands,
            final(self).text.after_commands == old(self).text.after_commands,
            final(self).surface == old(self).surface,
            final(self).glyph_atlas == old(self).glyph_atlas,
            final(self).text_instance_buffer_capacity == old(self).text_instance_buffer_capacity,
            final(self).rect_instance_buffer_size == old(self).rect_instance_buffer_size,
            final(self).rects == old(self).rects,
    {
        self.text.queue_cells(layer, cells, glyphs, table);
    }

    /// Lay out the queued text, and say what is to be copied to the graphics card: nothing where
    /// there is no text.
    pub fn prepare_text(&mut self) -> (upload: Option<TextUpload>)
        requires
            crate::renderer::batch::layer_instances(
                old(self).text.layer(TextLayer::BeforeRects),
                old(self).text.layer(TextLayer::BeforeRects).len() as int,
            ).len() + crate::renderer::batch::layer_instances(
                old(self).text.layer(TextLayer::AfterRects),
                old(self).text.layer(TextLayer::AfterRects).len() as int,
            ).len() <= usize::MAX / 2 + 1,
        ensures
            ({
                let before = old(self).text.layer(TextLayer::BeforeRects);
                let after = old(self).text.layer(TextLayer::AfterRects);
                let bottom = crate::renderer::batch::layer_instances(before, before.len() as int);
                let top = crate::renderer::batch::layer_instances(after, after.len() as int);
                let capacity = old(self).text_instance_buffer_capacity;
                &&& final(self).text.instances@ == bottom + top
                &&& final(self).text.before_commands@ == crate::renderer::batch::layer_commands(
                    before,
                    0,
                    before.len() as int,
                )
                &&& final(self).text.after_commands@ == crate::renderer::batch::layer_commands(
                    after,
                    bottom.len() as int,
                    after.len() as int,
                )
                &&& final(self).text_instance_buffer_capacity >= (bottom + top).len()
                &&& match upload {
                    None => (bottom + top).len() == 0 && final(self).text_instance_buffer_capacity
                        == capacity,
                    Some(upload) => {
                        &&& upload.instances == (bottom + top).len() > 0
                        &&& upload.instances <= capacity ==> upload.grow is None && final(
                            self).text_instance_buffer_capacity == capacity
                        &&& upload.instances > capacity ==> upload.grow == Some(
                            final(self).text_instance_buffer_capacity,
                        ) && crate::renderer::pipeline::is_next_power(
                            final(self).text_instance_buffer_capacity as int,
                            upload.instances as int,
                        )
                    },
                }
            }),
            final(self).text.before_rects == old(self).text.before_rects,
            final(self).text.after_rects == old(self).text.after_rects,
            final(self).surface == old(self).surface,
            final(self).glyph_atlas == old(self).glyph_atlas,
            final(self).rect_instance_buffer_size == old(self).rect_instance_buffer_size,
            final(self).rects == old(self).rects,
    {
        self.text.flatten_text_batches();
        let instances: usize = self.text.instances.len();
        if instances == 0 {
            return None;
        }
        let capacity: usize = instance_capacity(self.text_instance_buffer_capacity, instances);
        let grow: Option<usize> = if instances > self.text_instance_buffer_capacity {
            Some(capacity)
        } else {
            None
        };
        self.text_instance_buffer_capacity = capacity;
        Some(TextUpload { grow, instances })
    }

    /// Whether `after` and `upload` are what comes of preparing rectangles of some kinds.
    pub open spec fn prepared_rects(
        self,
        kinds: Seq<RectKind>,
        after: WgpuRenderer,
        upload: Option<RectUpload>,
    ) -> bool {
        let order = crate::renderer::rects::painted(kinds);
        let size = self.rect_instance_buffer_size;
        let needed = order.len() * RECT_INSTANCE_SIZE;
        &&& after.rects == order.len()
        &&& match upload {
            None => order.len() == 0 && after.rect_instance_buffer_size == size,
            Some(upload) => {
                &&& upload.order@ == order
                &&& order.len() > 0
                &&& needed <= size ==> upload.grow is None && after.rect_instance_buffer_size
                    == size
                &&& needed > size ==> upload.grow == Some(after.rect_instance_buffer_size)
                    && crate::renderer::pipeline::is_next_power(
                    after.rect_instance_buffer_size as int,
                    needed as int,
                )
            },
        }
    }

    /// Put the rectangles of the frame in order, and say what is to be copied to the graphics card:
    /// nothing where there is none of a drawable kind.
    pub fn prepare_rects(&mut self, kinds: &Vec<RectKind>) -> (upload: Option<RectUpload>)
        requires
            crate::renderer::rects::painted(kinds@).len() * RECT_INSTANCE_SIZE <= usize::MAX,
            crate::renderer::rects::painted(kinds@).len() * RECT_INSTANCE_SIZE
                <= 0x8000_0000_0000_0000,
        ensures
            old(self).prepared_rects(kinds@, *final(self), upload),
            final(self).text == old(self).text,
            final(self).surface == old(self).surface,
            final(self).glyph_atlas == old(self).glyph_atlas,
            final(self).text_instance_buffer_capacity == old(self).text_instance_buffer_capacity,
    {
        let order = paint_order(kinds);
        let count: usize = order.len();
        self.rects = count;
        if count == 0 {
            return None;
        }
        let size: u64 = rect_buffer_size(self.rect_instance_buffer_size, count);
        let needed: u64 = (count * RECT_INSTANCE_SIZE) as u64;
        let grow: Option<u64> = if needed > self.rect_instance_buffer_size {
            Some(size)
        } else {
            None
        };
        self.rect_instance_buffer_size = size;
        Some(RectUpload { grow, order })
    }

    /// The commands of the frame: text below the rectangles, the rectangles, and text above them.
    pub fn render_frame(&self) -> (pass: Vec<PassCommand>)
        ensures
            pass@ == frame_pass(
                self.text.before_commands@,
                self.rects as int,
                self.text.after_commands@,
            ),
    {
        let mut pass: Vec<PassCommand> = Vec::new();
        render_text_layer(&mut pass, &self.text.before_commands);
        let ghost below = pass@;
        if self.rects > 0 {
            pass.push(PassCommand::SetPipeline(Pipeline::Rect));
            pass.push(PassCommand::BindUniforms);
            pass.push(PassCommand::RectInstances);
            pass.push(PassCommand::Draw(InstanceRange { start: 0, end: self.rects as u32 }));
        }
        assert(pass@ =~= below + rect_pass(self.rects as int));
        render_text_layer(&mut pass, &self.text.after_commands);
        pass
    }
}

/// The pipeline that is in use once some commands have run.
pub open spec fn pipeline_in_use(pass: Seq<PassCommand>) -> Option<Pipeline>
    decreases pass.len(),
{
    if pass.len() == 0 {
        None
    } else {
        match pass.last() {
            PassCommand::SetPipeline(pipeline) => Some(pipeline),
            _ => pipeline_in_use(pass.drop_last()),
        }
    }
}

/// The page that is bound once some commands have run.
pub open spec fn page_in_use(pass: Seq<PassCommand>) -> Option<usize>
    decreases pass.len(),
{
    if pass.len() == 0 {
        None
    } else {
        match pass.last() {
            PassCommand::BindPage(page) => Some(page),
            _ => page_in_use(pass.drop_last()),
        }
    }
}

/// Whether the instances of the text, and not those of the rectangles, are in use once some commands
/// have run; `None` where none are.
pub open spec fn text_in_use(pass: Seq<PassCommand>) -> Option<bool>
    decreases pass.len(),
{
    if pass.len() == 0 {
        None
    } else {
        match pass.last() {
            PassCommand::TextInstances => Some(true),
            PassCommand::RectInstances => Some(false),
            _ => text_in_use(pass.drop_last()),
        }
    }
}

/// Whether command `i` of a pass draws instances of the text with a pipeline and from a page.
pub open spec fn draws_text(
    pass: Seq<PassCommand>,
    i: int,
    range: InstanceRange,
    pipeline: Pipeline,
    page: usize,
) -> bool {
    &&& 0 <= i < pass.len()
    &&& pass[i] == PassCommand::Draw(range)
    &&& pipeline_in_use(pass.take(i)) == Some(pipeline)
    &&& page_in_use(pass.take(i)) == Some(page)
    &&& text_in_use(pass.take(i)) == Some(true)
}

/// Whether command `i` of a pass does what a draw command says: backgrounds are drawn without a page
/// of their own, and glyphs from the page that they are on.
pub open spec fn carries_out(pass: Seq<PassCommand>, i: int, command: TextDrawCommand) -> bool {
    match command {
        TextDrawCommand::Background(range) => draws_text(
            pass,
            i,
            range,
            Pipeline::TextBackground,
            0,
        ),
        TextDrawCommand::Glyph { atlas_index, instance_range } => draws_text(
            pass,
            i,
            instance_range,
            Pipeline::TextForeground,
            atlas_index,
        ),
    }
}

/// How many commands of a pass draw something.
pub open spec fn draw_count(pass: Seq<PassCommand>) -> int
    decreases pass.len(),
{
    if pass.len() == 0 {
        0
    } else {
        draw_count(pass.drop_last()) + if pass.last() is Draw {
            1int
        } else {
            0
        }
    }
}

proof fn command_is_appended(pass: Seq<PassCommand>, command: PassCommand)
    ensures
        pass.push(command).drop_last() == pass,
        draw_count(pass.push(command)) == draw_count(pass) + if command is Draw {
            1int
        } else {
            0
        },
        pipeline_in_use(pass.push(command)) == match command {
            PassCommand::SetPipeline(pipeline) => Some(pipeline),
            _ => pipeline_in_use(pass),
        },
        page_in_use(pass.push(command)) == match command {
            PassCommand::BindPage(page) => Some(page),
            _ => page_in_use(pass),
        },
        text_in_use(pass.push(command)) == match command {
            PassCommand::TextInstances => Some(true),
            PassCommand::RectInstances => Some(false),
            _ => text_in_use(pass),
        },
{
    assert(pass.push(command).drop_last() =~= pass);
}

/// A command stays carried out when others come behind it.
proof fn stays_carried_out(
    pass: Seq<PassCommand>,
    more: Seq<PassCommand>,
    i: int,
    command: TextDrawCommand,
)
    requires
        carries_out(pass, i, command),
    ensures
        carries_out(pass + more, i, command),
{
    assert((pass + more).take(i) =~= pass.take(i));
}

proof fn layer_is_carried_out(
    start: Seq<PassCommand>,
    commands: Seq<TextDrawCommand>,
    count: int,
    k: int,
) -> (i: int)
    requires
        0 <= count <= commands.len(),
        text_in_use(start) == Some(true),
    ensures
        text_in_use(start + passes(commands, count)) == Some(true),
        count > 0 && commands[count - 1] is Glyph ==> pipeline_in_use(
            start + passes(commands, count),
        ) == Some(Pipeline::TextForeground),
        0 <= k < count ==> i >= start.len() && carries_out(
            start + passes(commands, count),
            i,
            commands[k],
        ),
        draw_count(start + passes(commands, count)) == draw_count(start) + count,
    decreases count,
{
    if count == 0 {
        assert(start + passes(commands, 0) =~= start);
        0
    } else {
        let at = layer_is_carried_out(start, commands, count - 1, k);
        let before = start + passes(commands, count - 1);
        let own = pass_of(commands, count - 1);
        let all = start + passes(commands, count);
        assert(all =~= before + own);
        if k == count - 1 {
            let i = all.len() - 1;
            assert(all.take(i) =~= before + own.drop_last());
        } else if 0 <= k < count - 1 {
            stays_carried_out(before, own, at, commands[k]);
        }
        // The commands of the last one, one by one.
        if own.len() == 3 {
            command_is_appended(before, own[0]);
            command_is_appended(before.push(own[0]), own[1]);
            command_is_appended(before.push(own[0]).push(own[1]), own[2]);
            assert(all =~= before.push(own[0]).push(own[1]).push(own[2]));
            assert(before + own.drop_last() =~= before.push(own[0]).push(own[1]));
        } else {
            command_is_appended(before, own[0]);
            command_is_appended(before.push(own[0]), own[1]);
            assert(all =~= before.push(own[0]).push(own[1]));
            assert(before + own.drop_last() =~= before.push(own[0]));
        }
        if k == count - 1 {
            all.len() - 1
        } else {
            at
        }
    }
}

proof fn layer_draws(before: Seq<PassCommand>, commands: Seq<TextDrawCommand>, k: int) -> (i: int)
    ensures
        0 <= k < commands.len() ==> i >= before.len() && carries_out(
            before + layer_pass(commands),
            i,
            commands[k],
        ),
        draw_count(before + layer_pass(commands)) == draw_count(before) + commands.len(),
{
    let count = commands.len() as int;
    if count == 0 {
        assert(before + layer_pass(commands) =~= before);
        0
    } else {
        let start = before.push(PassCommand::BindUniforms).push(PassCommand::TextInstances);
        command_is_appended(before, PassCommand::BindUniforms);
        command_is_appended(before.push(PassCommand::BindUniforms), PassCommand::TextInstances);
        let i = layer_is_carried_out(start, commands, count, k);
        assert(before + layer_pass(commands) =~= start + passes(commands, count));
        i
    }
}

/// The commands of a frame: text below the rectangles, the rectangles, and text above them.
pub open spec fn frame_pass(
    before: Seq<TextDrawCommand>,
    rects: int,
    after: Seq<TextDrawCommand>,
) -> Seq<PassCommand> {
    layer_pass(before) + rect_pass(rects) + layer_pass(after)
}

/// A frame is drawn from the bottom up, and all of it is: every draw command of the lower layer is
/// carried out, then all rectangles are drawn in one go, and then every draw command of the upper
/// layer is carried out. Nothing is drawn besides.
pub proof fn frame_is_drawn_from_the_bottom_up(
    before: Seq<TextDrawCommand>,
    rects: int,
    after: Seq<TextDrawCommand>,
    k: int,
    l: int,
)
    requires
        0 < rects <= u32::MAX,
        0 <= k < before.len(),
        0 <= l < after.len(),
    ensures
        draw_count(frame_pass(before, rects, after)) == before.len() + 1 + after.len(),
        exists|i: int, m: int, j: int|
            i < m < j && #[trigger] carries_out(frame_pass(before, rects, after), i, before[k])
                && #[trigger] draws_rects(frame_pass(before, rects, after), m, rects)
                && #[trigger] carries_out(frame_pass(before, rects, after), j, after[l]),
{
    let pass = frame_pass(before, rects, after);
    let i = layer_draws(Seq::empty(), before, k);
    let bottom = layer_pass(before);
    assert(Seq::<PassCommand>::empty() + bottom =~= bottom);
    assert(draw_count(Seq::<PassCommand>::empty()) == 0);
    let own = rect_pass(rects);
    command_is_appended(bottom, own[0]);
    command_is_appended(bottom.push(own[0]), own[1]);
    command_is_appended(bottom.push(own[0]).push(own[1]), own[2]);
    command_is_appended(bottom.push(own[0]).push(own[1]).push(own[2]), own[3]);
    let middle = bottom + own;
    assert(middle =~= bottom.push(own[0]).push(own[1]).push(own[2]).push(own[3]));
    let m = middle.len() - 1;
    assert(middle.take(m) =~= bottom.push(own[0]).push(own[1]).push(own[2]));
    let j = layer_draws(middle, after, l);
    assert(pass =~= middle + layer_pass(after));
    assert(pass =~= bottom + (own + layer_pass(after)));
    stays_carried_out(bottom, own + layer_pass(after), i, before[k]);
    assert(pass.take(m) =~= middle.take(m));
    assert(draws_rects(pass, m, rects));
    assert(i < bottom.len());
}

/// Whether command `i` of a pass draws all rectangles.
pub open spec fn draws_rects(pass: Seq<PassCommand>, i: int, rects: int) -> bool {
    &&& 0 <= i < pass.len()
    &&& pass[i] is Draw
    &&& pass[i]->Draw_0.start == 0
    &&& pass[i]->Draw_0.end == rects
    &&& pipeline_in_use(pass.take(i)) == Some(Pipeline::Rect)
    &&& text_in_use(pass.take(i)) == Some(false)
}

/// No part of a frame depends on another: the draw commands of either layer are carried out and the
/// rectangles are drawn whether or not there is anything else to draw.
pub proof fn every_part_of_a_frame_is_drawn(
    before: Seq<TextDrawCommand>,
    rects: int,
    after: Seq<TextDrawCommand>,
    k: int,
)
    requires
        0 <= rects <= u32::MAX,
    ensures
        draw_count(frame_pass(before, rects, after)) == before.len() + if rects > 0 {
            1int
        } else {
            0
        } + after.len(),
        0 <= k < before.len() ==> exists|i: int| #[trigger]
            carries_out(frame_pass(before, rects, after), i, before[k]),
        0 <= k < after.len() ==> exists|i: int| #[trigger]
            carries_out(frame_pass(before, rects, after), i, after[k]),
        rects > 0 ==> exists|i: int| #[trigger]
            draws_rects(frame_pass(before, rects, after), i, rects),
{
    let pass = frame_pass(before, rects, after);
    let i = layer_draws(Seq::empty(), before, k);
    let bottom = layer_pass(before);
    assert(Seq::<PassCommand>::empty() + bottom =~= bottom);
    assert(draw_count(Seq::<PassCommand>::empty()) == 0);
    let own = rect_pass(rects);
    let middle = bottom + own;
    if rects > 0 {
        command_is_appended(bottom, own[0]);
        command_is_appended(bottom.push(own[0]), own[1]);
        command_is_appended(bottom.push(own[0]).push(own[1]), own[2]);
        command_is_appended(bottom.push(own[0]).push(own[1]).push(own[2]), own[3]);
        assert(middle =~= bottom.push(own[0]).push(own[1]).push(own[2]).push(own[3]));
        let m = middle.len() - 1;
        assert(middle.take(m) =~= bottom.push(own[0]).push(own[1]).push(own[2]));
        assert(pass =~= middle + layer_pass(after));
        assert(pass.take(m) =~= middle.take(m));
        assert(draws_rects(pass, m, rects));
    } else {
        assert(middle =~= bottom);
    }
    let j = layer_draws(middle, after, k);
    assert(pass =~= middle + layer_pass(after));
    assert(pass =~= bottom + (own + layer_pass(after)));
    if 0 <= k < before.len() {
        stays_carried_out(bottom, own + layer_pass(after), i, before[k]);
    }
}

/// The buffer has room for every rectangle that is drawn: it never gets smaller, the graphics card is
/// told of its size whenever it changes, and as many rectangles are copied as are drawn.
pub proof fn rectangles_have_room(
    before: WgpuRenderer,
    kinds: Seq<RectKind>,
    after: WgpuRenderer,
    upload: Option<RectUpload>,
)
    requires
        before.prepared_rects(kinds, after, upload),
    ensures
        after.rect_instance_buffer_size >= 36 * after.rects,
        after.rect_instance_buffer_size >= before.rect_instance_buffer_size,
        after.rect_instance_buffer_size != before.rect_instance_buffer_size ==> upload is Some
            && upload->0.grow == Some(after.rect_instance_buffer_size),
        upload is Some <==> after.rects > 0,
        upload matches Some(upload) ==> upload.order@.len() == after.rects,
{
}

} // verus!
