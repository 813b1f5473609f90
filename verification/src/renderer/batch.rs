//! The glyphs of a frame, in the order in which they are drawn.

use crate::renderer::atlas::Glyph;
use crate::renderer::content::{create_instance, LinearTable, RenderableCell, TextInstance};
use vstd::prelude::*;

verus! {

/// Position of text relative to the rectangles.
#[derive(Clone, Copy, Debug, PartialEq, Eq, Structural)]
pub enum TextLayer {
    BeforeRects,
    AfterRects,
}

impl TextLayer {
    /// The number of the layer, from the bottom up.
    pub fn index(self) -> (index: usize)
        ensures
            index == (match self {
                TextLayer::BeforeRects => 0int,
                TextLayer::AfterRects => 1int,
            }),
    {
        match self {
            TextLayer::BeforeRects => 0,
            TextLayer::AfterRects => 1,
        }
    }
}

/// Consecutive instances: those from `start` on, up to `end`.
#[derive(Clone, Copy, Debug, PartialEq, Eq, Structural)]
pub struct InstanceRange {
    pub start: u32,
    pub end: u32,
}

impl InstanceRange {
    /// Whether instance `k` is among them.
    pub open spec fn holds(self, k: int) -> bool {
        self.start <= k < self.end
    }
}

/// One call that draws text.
#[derive(Clone, Copy, Debug, PartialEq, Eq, Structural)]
pub enum TextDrawCommand {
    /// Draw the backgrounds of some instances.
    Background(InstanceRange),
    /// Draw the glyphs of some instances, which are all on one page of the atlas.
    Glyph { atlas_index: usize, instance_range: InstanceRange },
}

/// The instances of each page of the atlas.
pub open spec fn groups_of(vectors: Seq<Vec<TextInstance>>) -> Seq<Seq<TextInstance>> {
    vectors.map_values(|vector: Vec<TextInstance>| vector@)
}

/// The instances of text that was queued together.
#[derive(Debug)]
pub struct TextBatch {
    pub instances_by_atlas: Vec<Vec<TextInstance>>,
}

impl View for TextBatch {
    type V = Seq<Seq<TextInstance>>;

    open spec fn view(&self) -> Seq<Seq<TextInstance>> {
        groups_of(self.instances_by_atlas@)
    }
}

/// The instances of each batch.
pub open spec fn batches_of(batches: Seq<TextBatch>) -> Seq<Seq<Seq<TextInstance>>> {
    batches.map_values(|batch: TextBatch| batch@)
}

/// At least `count` groups: empty ones are added where some are missing.
pub open spec fn padded(groups: Seq<Seq<TextInstance>>, count: int) -> Seq<Seq<TextInstance>>
    decreases count - groups.len(),
{
    if groups.len() >= count {
        groups
    } else {
        padded(groups.push(Seq::empty()), count)
    }
}

/// The groups with another instance at the end of one of them.
pub open spec fn with_instance(
    groups: Seq<Seq<TextInstance>>,
    atlas_index: int,
    instance: TextInstance,
) -> Seq<Seq<TextInstance>> {
    let groups = padded(groups, atlas_index + 1);
    groups.update(atlas_index, groups[atlas_index].push(instance))
}

proof fn padded_len(groups: Seq<Seq<TextInstance>>, count: int)
    ensures
        padded(groups, count).len() == if groups.len() >= count {
            groups.len() as int
        } else {
            count
        },
    decreases count - groups.len(),
{
    if groups.len() < count {
        padded_len(groups.push(Seq::empty()), count);
    }
}

/// Make sure that there is a group for a page.
fn ensure_instance_group(groups: &mut Vec<Vec<TextInstance>>, atlas_index: usize)
    requires
        atlas_index < usize::MAX,
    ensures
        groups_of(final(groups)@) == padded(groups_of(old(groups)@), atlas_index + 1),
        final(groups)@.len() > atlas_index,
{
    while groups.len() < atlas_index + 1
        invariant
            atlas_index < usize::MAX,
            padded(groups_of(groups@), atlas_index + 1) == padded(
                groups_of(old(groups)@),
                atlas_index + 1,
            ),
        decreases atlas_index + 1 - groups@.len(),
    {
        let ghost before = groups_of(groups@);
        let empty: Vec<TextInstance> = Vec::new();
        groups.push(empty);
        assert(groups_of(groups@) =~= before.push(Seq::empty()));
    }
}

/// Add an instance to the group of its page.
fn push_instance(groups: &mut Vec<Vec<TextInstance>>, atlas_index: usize, instance: TextInstance)
    requires
        atlas_index < usize::MAX,
    ensures
        groups_of(final(groups)@) == with_instance(
            groups_of(old(groups)@),
            atlas_index as int,
            instance,
        ),
{
    ensure_instance_group(groups, atlas_index);
    let ghost before = groups_of(groups@);
    groups[atlas_index].push(instance);
    assert(groups_of(groups@) =~= before.update(
        atlas_index as int,
        before[atlas_index as int].push(instance),
    ));
}

/// The groups with the first `count` glyphs of a cell. The glyphs on top of its character have no
/// background of their own.
pub open spec fn with_cell(
    groups: Seq<Seq<TextInstance>>,
    cell: RenderableCell,
    glyphs: Seq<Glyph>,
    table: LinearTable,
    count: int,
) -> Seq<Seq<TextInstance>>
    decreases count,
{
    if count <= 0 {
        groups
    } else {
        let alpha = if count == 1 {
            cell.bg_alpha
        } else {
            0u8
        };
        with_instance(
            with_cell(groups, cell, glyphs, table, count - 1),
            glyphs[count - 1].atlas_index as int,
            crate::renderer::content::instance_of(cell, alpha, glyphs[count - 1], table),
        )
    }
}

/// Add the glyphs of a cell, which come in the order in which the cell asks for them.
pub fn process_cell(
    groups: &mut Vec<Vec<TextInstance>>,
    cell: &RenderableCell,
    glyphs: &Vec<Glyph>,
    table: &LinearTable,
)
    requires
        glyphs@.len() == crate::renderer::content::requests_of(*cell).len(),
        forall|i: int| 0 <= i < glyphs@.len() ==> (#[trigger] glyphs@[i]).atlas_index < usize::MAX,
    ensures
        groups_of(final(groups)@) == with_cell(
            groups_of(old(groups)@),
            *cell,
            glyphs@,
            *table,
            glyphs@.len() as int,
        ),
{
    let mut index: usize = 0;
    while index < glyphs.len()
        invariant
            index <= glyphs@.len(),
            forall|i: int|
                0 <= i < glyphs@.len() ==> (#[trigger] glyphs@[i]).atlas_index < usize::MAX,
            groups_of(groups@) == with_cell(
                groups_of(old(groups)@),
                *cell,
                glyphs@,
                *table,
                index as int,
            ),
        decreases glyphs@.len() - index,
    {
        let alpha: u8 = if index == 0 {
            cell.bg_alpha
        } else {
            0
        };
        let glyph = glyphs[index];
        let instance = create_instance(cell, alpha, &glyph, table);
        push_instance(groups, glyph.atlas_index, instance);
        index += 1;
    }
}

/// The groups with the first `count` cells.
pub open spec fn with_cells(
    groups: Seq<Seq<TextInstance>>,
    cells: Seq<RenderableCell>,
    glyphs: Seq<Vec<Glyph>>,
    table: LinearTable,
    count: int,
) -> Seq<Seq<TextInstance>>
    decreases count,
{
    if count <= 0 {
        groups
    } else {
        with_cell(
            with_cells(groups, cells, glyphs, table, count - 1),
            cells[count - 1],
            glyphs[count - 1]@,
            table,
            glyphs[count - 1]@.len() as int,
        )
    }
}

/// The batch of some cells.
pub open spec fn batch_of(
    cells: Seq<RenderableCell>,
    glyphs: Seq<Vec<Glyph>>,
    table: LinearTable,
) -> Seq<Seq<TextInstance>> {
    with_cells(seq![Seq::empty()], cells, glyphs, table, cells.len() as int)
}

/// Whether there are all the glyphs that some cells ask for.
pub open spec fn glyphs_fit(cells: Seq<RenderableCell>, glyphs: Seq<Vec<Glyph>>) -> bool {
    &&& glyphs.len() == cells.len()
    &&& forall|i: int|
        0 <= i < cells.len() ==> (#[trigger] glyphs[i])@.len()
            == crate::renderer::content::requests_of(cells[i]).len()
    &&& forall|i: int, j: int|
        0 <= i < glyphs.len() && 0 <= j < glyphs[i]@.len() ==> (#[trigger] glyphs[i]@[j]).atlas_index
            < usize::MAX
}

/// Whether a batch has any instance.
pub open spec fn is_drawn(groups: Seq<Seq<TextInstance>>) -> bool {
    exists|i: int| 0 <= i < groups.len() && (#[trigger] groups[i]).len() > 0
}

/// The instances of the first `count` groups.
pub open spec fn flat(groups: Seq<Seq<TextInstance>>, count: int) -> Seq<TextInstance>
    decreases count,
{
    if count <= 0 {
        Seq::empty()
    } else {
        flat(groups, count - 1) + groups[count - 1]
    }
}

/// All instances of a batch.
pub open spec fn batch_instances(groups: Seq<Seq<TextInstance>>) -> Seq<TextInstance> {
    flat(groups, groups.len() as int)
}

/// The instances from `start` on, up to `end`, as the graphics card counts them.
pub open spec fn range_of(start: int, end: int) -> InstanceRange {
    InstanceRange { start: start as u32, end: end as u32 }
}

/// The calls that draw the glyphs of the first `count` groups, where the instances of the batch
/// begin at `start`: one for each page that has any.
pub open spec fn glyph_commands(groups: Seq<Seq<TextInstance>>, start: int, count: int) -> Seq<
    TextDrawCommand,
>
    decreases count,
{
    if count <= 0 {
        Seq::empty()
    } else if groups[count - 1].len() == 0 {
        glyph_commands(groups, start, count - 1)
    } else {
        glyph_commands(groups, start, count - 1).push(
            TextDrawCommand::Glyph {
                atlas_index: (count - 1) as usize,
                instance_range: range_of(
                    start + flat(groups, count - 1).len(),
                    start + flat(groups, count).len(),
                ),
            },
        )
    }
}

/// The calls that draw a batch whose instances begin at `start`: first all backgrounds, so that no
/// background covers a glyph of the batch, and then the glyphs.
pub open spec fn batch_commands(groups: Seq<Seq<TextInstance>>, start: int) -> Seq<
    TextDrawCommand,
> {
    let range = range_of(start, start + batch_instances(groups).len());
    if range.start == range.end {
        Seq::empty()
    } else {
        seq![TextDrawCommand::Background(range)] + glyph_commands(
            groups,
            start,
            groups.len() as int,
        )
    }
}

/// The instances of the first `count` batches.
pub open spec fn layer_instances(batches: Seq<Seq<Seq<TextInstance>>>, count: int) -> Seq<
    TextInstance,
>
    decreases count,
{
    if count <= 0 {
        Seq::empty()
    } else {
        layer_instances(batches, count - 1) + batch_instances(batches[count - 1])
    }
}

/// The calls that draw the first `count` batches of a layer whose instances begin at `start`.
pub open spec fn layer_commands(
    batches: Seq<Seq<Seq<TextInstance>>>,
    start: int,
    count: int,
) -> Seq<TextDrawCommand>
    decreases count,
{
    if count <= 0 {
        Seq::empty()
    } else {
        layer_commands(batches, start, count - 1) + batch_commands(
            batches[count - 1],
            start + layer_instances(batches, count - 1).len(),
        )
    }
}

/// Whether these are the instances and the calls of a frame with the given layers: the instances of the
/// upper layer come behind those of the lower one.
pub open spec fn lays_out(
    before: Seq<Seq<Seq<TextInstance>>>,
    after: Seq<Seq<Seq<TextInstance>>>,
    instances: Seq<TextInstance>,
    before_commands: Seq<TextDrawCommand>,
    after_commands: Seq<TextDrawCommand>,
) -> bool {
    let bottom = layer_instances(before, before.len() as int);
    &&& instances == bottom + layer_instances(after, after.len() as int)
    &&& before_commands == layer_commands(before, 0, before.len() as int)
    &&& after_commands == layer_commands(after, bottom.len() as int, after.len() as int)
}

/// Append the calls and the instances of a batch.
fn flatten_batch(
    batch: &TextBatch,
    instances: &mut Vec<TextInstance>,
    commands: &mut Vec<TextDrawCommand>,
)
    ensures
        final(instances)@ == old(instances)@ + batch_instances(batch@),
        final(commands)@ == old(commands)@ + batch_commands(batch@, old(instances)@.len() as int),
{
    let ghost groups = batch@;
    let ghost start = instances@.len() as int;
    let ghost before = instances@;
    let ghost earlier = commands@;
    let batch_start: u32 = instances.len() as u32;
    let command_start: usize = commands.len();
    let no_range = InstanceRange { start: batch_start, end: batch_start };
    commands.push(TextDrawCommand::Background(no_range));
    let ghost background = seq![TextDrawCommand::Background(no_range)];
    assert(commands@ =~= earlier + background + glyph_commands(groups, start, 0));
    assert(instances@ =~= before + flat(groups, 0));

    let mut atlas_index: usize = 0;
    while atlas_index < batch.instances_by_atlas.len()
        invariant
            groups == batch@,
            atlas_index <= batch.instances_by_atlas@.len(),
            start == before.len(),
            instances@ == before + flat(groups, atlas_index as int),
            commands@ == earlier + background + glyph_commands(groups, start, atlas_index as int),
        decreases batch.instances_by_atlas@.len() - atlas_index,
    {
        let group = &batch.instances_by_atlas[atlas_index];
        assert(groups[atlas_index as int] == group@);
        if group.len() == 0 {
            assert(instances@ =~= before + flat(groups, atlas_index + 1));
            atlas_index += 1;
            continue;
        }
        let range_start: u32 = instances.len() as u32;
        let ghost drawn = instances@;
        let mut index: usize = 0;
        assert(instances@ =~= drawn + group@.take(0));
        while index < group.len()
            invariant
                index <= group@.len(),
                instances@ == drawn + group@.take(index as int),
            decreases group@.len() - index,
        {
            instances.push(group[index]);
            index += 1;
            assert(instances@ =~= drawn + group@.take(index as int));
        }
        assert(group@.take(index as int) =~= group@);
        assert(instances@ =~= before + flat(groups, atlas_index + 1));
        let range_end: u32 = instances.len() as u32;
        let ghost calls = commands@;
        commands.push(
            TextDrawCommand::Glyph {
                atlas_index,
                instance_range: InstanceRange { start: range_start, end: range_end },
            },
        );
        assert(commands@ =~= earlier + background + glyph_commands(
            groups,
            start,
            atlas_index + 1,
        ));
        atlas_index += 1;
    }

    let batch_end: u32 = instances.len() as u32;
    if batch_start == batch_end {
        commands.truncate(command_start);
        assert(commands@ =~= earlier + batch_commands(groups, start));
    } else {
        commands.set(
            command_start,
            TextDrawCommand::Background(InstanceRange { start: batch_start, end: batch_end }),
        );
        assert(commands@ =~= earlier + batch_commands(groups, start));
    }
}

/// The text of a frame: what is queued, and what is drawn of it.
#[derive(Debug)]
pub struct TextQueue {
    pub before_rects: Vec<TextBatch>,
    pub after_rects: Vec<TextBatch>,
    pub instances: Vec<TextInstance>,
    pub before_commands: Vec<TextDrawCommand>,
    pub after_commands: Vec<TextDrawCommand>,
}

impl TextQueue {
    /// The batches of a layer.
    pub open spec fn layer(self, layer: TextLayer) -> Seq<Seq<Seq<TextInstance>>> {
        match layer {
            TextLayer::BeforeRects => batches_of(self.before_rects@),
            TextLayer::AfterRects => batches_of(self.after_rects@),
        }
    }

    /// A queue without text.
    pub fn new() -> (queue: TextQueue)
        ensures
            queue.layer(TextLayer::BeforeRects).len() == 0,
            queue.layer(TextLayer::AfterRects).len() == 0,
            queue.instances@.len() == 0,
            queue.before_commands@.len() == 0,
            queue.after_commands@.len() == 0,
    {
        TextQueue {
            before_rects: Vec::new(),
            after_rects: Vec::new(),
            instances: Vec::new(),
            before_commands: Vec::new(),
            after_commands: Vec::new(),
        }
    }

    /// Forget what was queued for the last frame.
    pub fn begin_frame(&mut self)
        ensures
            final(self).layer(TextLayer::BeforeRects).len() == 0,
            final(self).layer(TextLayer::AfterRects).len() == 0,
            final(self).instances == old(self).instances,
            final(self).before_commands == old(self).before_commands,
            final(self).after_commands == old(self).after_commands,
    {
        self.before_rects.clear();
        self.after_rects.clear();
    }

    /// Add cells to a layer, without drawing them yet; cells without any glyph are no batch.
    pub fn queue_cells(
        &mut self,
        layer: TextLayer,
        cells: &Vec<RenderableCell>,
        glyphs: &Vec<Vec<Glyph>>,
        table: &LinearTable,
    )
        requires
            glyphs_fit(cells@, glyphs@),
        ensures
            final(self).layer(layer) == (if is_drawn(batch_of(cells@, glyphs@, *table)) {
                old(self).layer(layer).push(batch_of(cells@, glyphs@, *table))
            } else {
                old(self).layer(layer)
            }),
            layer == TextLayer::BeforeRects ==> final(self).after_rects == old(self).after_rects,
            layer == TextLayer::AfterRects ==> final(self).before_rects == old(self).before_rects,
            final(self).instances == old(self).instances,
            final(self).before_commands == old(self).before_commands,
            final(self).after_commands == old(self).after_commands,
    {
        let mut groups: Vec<Vec<TextInstance>> = Vec::new();
        let first: Vec<TextInstance> = Vec::new();
        groups.push(first);
        let ghost start = seq![Seq::<TextInstance>::empty()];
        assert(groups_of(groups@) =~= start);
        let mut index: usize = 0;
        while index < cells.len()
            invariant
                index <= cells@.len(),
                glyphs_fit(cells@, glyphs@),
                groups_of(groups@) == with_cells(start, cells@, glyphs@, *table, index as int),
            decreases cells@.len() - index,
        {
            process_cell(&mut groups, &cells[index], &glyphs[index], table);
            index += 1;
        }
        let batch = TextBatch { instances_by_atlas: groups };
        let mut drawn = false;
        let mut index: usize = 0;
        while index < batch.instances_by_atlas.len()
            invariant
                index <= batch.instances_by_atlas@.len(),
                drawn == (exists|i: int| 0 <= i < index && (#[trigger] batch@[i]).len() > 0),
            decreases batch.instances_by_atlas@.len() - index,
        {
            assert(batch@[index as int] == batch.instances_by_atlas@[index as int]@);
            if batch.instances_by_atlas[index].len() > 0 {
                drawn = true;
            }
            index += 1;
        }
        assert(drawn == is_drawn(batch@));
        if drawn {
            let ghost earlier = self.layer(layer);
            match layer {
                TextLayer::BeforeRects => self.before_rects.push(batch),
                TextLayer::AfterRects => self.after_rects.push(batch),
            }
            assert(self.layer(layer) =~= earlier.push(batch@));
        }
    }

    /// Lay out the queued text for the graphics card.
    pub fn flatten_text_batches(&mut self)
        ensures
            final(self).before_rects == old(self).before_rects,
            final(self).after_rects == old(self).after_rects,
            lays_out(
                old(self).layer(TextLayer::BeforeRects),
                old(self).layer(TextLayer::AfterRects),
                final(self).instances@,
                final(self).before_commands@,
                final(self).after_commands@,
            ),
    {
        self.instances.clear();
        self.before_commands.clear();
        self.after_commands.clear();
        flatten_layer(&self.before_rects, &mut self.instances, &mut self.before_commands);
        flatten_layer(&self.after_rects, &mut self.instances, &mut self.after_commands);
    }
}

/// Append the calls and the instances of a layer.
fn flatten_layer(
    batches: &Vec<TextBatch>,
    instances: &mut Vec<TextInstance>,
    commands: &mut Vec<TextDrawCommand>,
)
    ensures
        ({
            let layer = batches_of(batches@);
            &&& final(instances)@ == old(instances)@ + layer_instances(layer, layer.len() as int)
            &&& final(commands)@ == old(commands)@ + layer_commands(
                layer,
                old(instances)@.len() as int,
                layer.len() as int,
            )
        }),
{
    let ghost layer = batches_of(batches@);
    let ghost start = instances@.len() as int;
    let mut index: usize = 0;
    assert(instances@ =~= old(instances)@ + layer_instances(layer, 0));
    assert(commands@ =~= old(commands)@ + layer_commands(layer, start, 0));
    while index < batches.len()
        invariant
            layer == batches_of(batches@),
            index <= batches@.len(),
            start == old(instances)@.len(),
            instances@ == old(instances)@ + layer_instances(layer, index as int),
            commands@ == old(commands)@ + layer_commands(layer, start, index as int),
        decreases batches@.len() - index,
    {
        assert(layer[index as int] == batches@[index as int]@);
        flatten_batch(&batches[index], instances, commands);
        index += 1;
        assert(instances@ =~= old(instances)@ + layer_instances(layer, index as int));
        assert(commands@ =~= old(commands)@ + layer_commands(layer, start, index as int));
    }
}

/// Every instance of a batch is drawn once: exactly one call draws its glyph, from the page that
/// the instance belongs to, and the call before all of these draws its background.
pub proof fn batch_draws_every_instance_once(groups: Seq<Seq<TextInstance>>, start: int, k: int)
    requires
        0 <= start,
        start <= k < start + batch_instances(groups).len(),
        start + batch_instances(groups).len() <= u32::MAX,
        groups.len() <= usize::MAX,
    ensures
        batch_commands(groups, start)[0] matches TextDrawCommand::Background(range) && range.holds(k),
        exists|c: int|
            1 <= c < batch_commands(groups, start).len() && #[trigger] draws_glyph(
                batch_commands(groups, start)[c],
                groups,
                start,
                k,
            ),
        forall|c: int, d: int|
            1 <= c < batch_commands(groups, start).len() && 1 <= d < batch_commands(
                groups,
                start,
            ).len() && #[trigger] draws_glyph(batch_commands(groups, start)[c], groups, start, k)
                && #[trigger] draws_glyph(batch_commands(groups, start)[d], groups, start, k) ==> c
                == d,
{
    let count = groups.len() as int;
    let calls = glyph_commands(groups, start, count);
    let commands = batch_commands(groups, start);
    glyph_commands_draw(groups, start, count, k);
    let c = choose|c: int|
        0 <= c < calls.len() && #[trigger] draws_glyph(calls[c], groups, start, k);
    assert(commands[c + 1] == calls[c]);
    assert(draws_glyph(commands[c + 1], groups, start, k));
    assert forall|c: int, d: int|
        1 <= c < commands.len() && 1 <= d < commands.len() && #[trigger] draws_glyph(
            commands[c],
            groups,
            start,
            k,
        ) && #[trigger] draws_glyph(commands[d], groups, start, k) implies c == d by {
        assert(commands[c] == calls[c - 1]);
        assert(commands[d] == calls[d - 1]);
    }
}

/// Whether a call draws the glyph of instance `k` from its page, where the instances of the batch
/// begin at `start`.
pub open spec fn draws_glyph(
    command: TextDrawCommand,
    groups: Seq<Seq<TextInstance>>,
    start: int,
    k: int,
) -> bool {
    &&& command matches TextDrawCommand::Glyph { atlas_index, instance_range }
    &&& instance_range.holds(k)
    &&& atlas_index < groups.len()
    &&& k - instance_range.start < groups[atlas_index as int].len()
    &&& batch_instances(groups)[k - start] == groups[atlas_index as int][k - instance_range.start]
}

proof fn flat_grows(groups: Seq<Seq<TextInstance>>, low: int, high: int)
    requires
        0 <= low <= high <= groups.len(),
    ensures
        flat(groups, low).len() <= flat(groups, high).len(),
        forall|i: int|
            0 <= i < flat(groups, low).len() ==> #[trigger] flat(groups, high)[i] == flat(
                groups,
                low,
            )[i],
    decreases high,
{
    if low < high {
        flat_grows(groups, low, high - 1);
    }
}

proof fn glyph_commands_draw(groups: Seq<Seq<TextInstance>>, start: int, count: int, k: int)
    requires
        0 <= start,
        0 <= count <= groups.len() <= usize::MAX,
        start + batch_instances(groups).len() <= u32::MAX,
    ensures
        start <= k < start + flat(groups, count).len() ==> exists|c: int|
            0 <= c < glyph_commands(groups, start, count).len() && #[trigger] draws_glyph(
                glyph_commands(groups, start, count)[c],
                groups,
                start,
                k,
            ),
        k >= start + flat(groups, count).len() ==> forall|c: int|
            0 <= c < glyph_commands(groups, start, count).len() ==> !(#[trigger] draws_glyph(
                glyph_commands(groups, start, count)[c],
                groups,
                start,
                k,
            )),
        forall|c: int, d: int|
            0 <= c < glyph_commands(groups, start, count).len() && 0 <= d < glyph_commands(
                groups,
                start,
                count,
            ).len() && #[trigger] draws_glyph(
                glyph_commands(groups, start, count)[c],
                groups,
                start,
                k,
            ) && #[trigger] draws_glyph(
                glyph_commands(groups, start, count)[d],
                groups,
                start,
                k,
            ) ==> c == d,
    decreases count,
{
    if count > 0 {
        glyph_commands_draw(groups, start, count - 1, k);
        flat_grows(groups, count - 1, count);
        flat_grows(groups, count, groups.len() as int);
        let earlier = glyph_commands(groups, start, count - 1);
        let calls = glyph_commands(groups, start, count);
        if groups[count - 1].len() > 0 {
            let last = calls.len() - 1;
            assert forall|c: int| 0 <= c < earlier.len() implies calls[c] == earlier[c] by {}
            let low = start + flat(groups, count - 1).len();
            let high = start + flat(groups, count).len();
            assert(calls[last] == TextDrawCommand::Glyph {
                atlas_index: (count - 1) as usize,
                instance_range: range_of(low, high),
            });
            if low <= k < high {
                assert(batch_instances(groups)[k - start] == flat(groups, count)[k - start]);
                assert(flat(groups, count)[k - start] == groups[count - 1][k - low]);
                assert(draws_glyph(calls[last], groups, start, k));
            } else if start <= k < low {
                let c = choose|c: int|
                    0 <= c < earlier.len() && #[trigger] draws_glyph(earlier[c], groups, start, k);
                assert(draws_glyph(calls[c], groups, start, k));
            }
        }
    }
}

proof fn padded_groups(groups: Seq<Seq<TextInstance>>, count: int)
    ensures
        padded(groups, count).len() >= groups.len(),
        padded(groups, count).len() >= count,
        forall|i: int|
            0 <= i < groups.len() ==> #[trigger] padded(groups, count)[i] == groups[i],
        forall|i: int|
            groups.len() <= i < padded(groups, count).len() ==> (#[trigger] padded(
                groups,
                count,
            )[i]).len() == 0,
        flat(padded(groups, count), padded(groups, count).len() as int).len() == flat(
            groups,
            groups.len() as int,
        ).len(),
    decreases count - groups.len(),
{
    if groups.len() < count {
        let more = groups.push(Seq::empty());
        padded_groups(more, count);
        assert forall|i: int| 0 <= i < groups.len() implies #[trigger] padded(groups, count)[i]
            == groups[i] by {
            assert(more[i] == groups[i]);
        }
        assert forall|i: int|
            groups.len() <= i < padded(groups, count).len() implies (#[trigger] padded(
            groups,
            count,
        )[i]).len() == 0 by {
            if i == groups.len() {
                assert(padded(more, count)[i] == more[i]);
            }
        }
        flat_of_prefix(groups, more, groups.len() as int);
    }
}

proof fn flat_of_prefix(groups: Seq<Seq<TextInstance>>, more: Seq<Seq<TextInstance>>, count: int)
    requires
        0 <= count <= groups.len() <= more.len(),
        forall|i: int| 0 <= i < groups.len() ==> #[trigger] more[i] == groups[i],
    ensures
        flat(more, count) == flat(groups, count),
    decreases count,
{
    if count > 0 {
        flat_of_prefix(groups, more, count - 1);
    }
}

proof fn flat_of_update(
    groups: Seq<Seq<TextInstance>>,
    at: int,
    instance: TextInstance,
    count: int,
)
    requires
        0 <= at < groups.len(),
        0 <= count <= groups.len(),
    ensures
        flat(groups.update(at, groups[at].push(instance)), count).len() == flat(groups, count).len()
            + if at < count {
            1int
        } else {
            0
        },
    decreases count,
{
    if count > 0 {
        flat_of_update(groups, at, instance, count - 1);
    }
}

/// Whether a group begins with everything in another one.
spec fn begins_with(group: Seq<TextInstance>, start: Seq<TextInstance>) -> bool {
    &&& start.len() <= group.len()
    &&& forall|k: int| 0 <= k < start.len() ==> #[trigger] group[k] == start[k]
}

/// Whether everything in the groups `before` is at the same place in the groups `after`.
spec fn still_holds(before: Seq<Seq<TextInstance>>, after: Seq<Seq<TextInstance>>) -> bool {
    &&& before.len() <= after.len()
    &&& forall|i: int| 0 <= i < before.len() ==> #[trigger] begins_with(after[i], before[i])
}

proof fn holds_further(
    first: Seq<Seq<TextInstance>>,
    second: Seq<Seq<TextInstance>>,
    third: Seq<Seq<TextInstance>>,
)
    requires
        still_holds(first, second),
        still_holds(second, third),
    ensures
        still_holds(first, third),
{
    assert forall|i: int| 0 <= i < first.len() implies #[trigger] begins_with(
        third[i],
        first[i],
    ) by {
        assert(begins_with(second[i], first[i]));
        assert(begins_with(third[i], second[i]));
        assert forall|k: int| 0 <= k < first[i].len() implies #[trigger] third[i][k]
            == first[i][k] by {
            assert(second[i][k] == first[i][k]);
        }
    }
}

/// What a group holds stays where it is, and the instance comes behind it.
proof fn instance_is_added(
    groups: Seq<Seq<TextInstance>>,
    atlas_index: int,
    instance: TextInstance,
)
    requires
        0 <= atlas_index,
    ensures
        ({
            let after = with_instance(groups, atlas_index, instance);
            &&& after.len() >= groups.len()
            &&& after.len() > atlas_index
            &&& still_holds(groups, after)
            &&& after[atlas_index].len() > 0
            &&& after[atlas_index].last() == instance
            &&& batch_instances(after).len() == batch_instances(groups).len() + 1
        }),
{
    let enough = padded(groups, atlas_index + 1);
    padded_groups(groups, atlas_index + 1);
    flat_of_update(enough, atlas_index, instance, enough.len() as int);
    let after = with_instance(groups, atlas_index, instance);
    assert forall|i: int| 0 <= i < groups.len() implies #[trigger] begins_with(
        after[i],
        groups[i],
    ) by {
        assert(enough[i] == groups[i]);
    }
}

proof fn cell_is_added(
    groups: Seq<Seq<TextInstance>>,
    cell: RenderableCell,
    glyphs: Seq<Glyph>,
    table: LinearTable,
    count: int,
    j: int,
)
    requires
        0 <= count <= glyphs.len(),
    ensures
        ({
            let after = with_cell(groups, cell, glyphs, table, count);
            &&& after.len() >= groups.len()
            &&& still_holds(groups, after)
            &&& batch_instances(after).len() == batch_instances(groups).len() + count
            &&& 0 <= j < count ==> {
                let page = glyphs[j].atlas_index as int;
                &&& page < after.len()
                &&& exists|k: int|
                    0 <= k < after[page].len() && #[trigger] after[page][k]
                        == crate::renderer::content::instance_of(
                        cell,
                        if j == 0 {
                            cell.bg_alpha
                        } else {
                            0
                        },
                        glyphs[j],
                        table,
                    )
            }
        }),
    decreases count,
{
    if count > 0 {
        cell_is_added(groups, cell, glyphs, table, count - 1, j);
        let before = with_cell(groups, cell, glyphs, table, count - 1);
        let alpha = if count == 1 {
            cell.bg_alpha
        } else {
            0u8
        };
        let last = glyphs[count - 1];
        let instance = crate::renderer::content::instance_of(cell, alpha, last, table);
        instance_is_added(before, last.atlas_index as int, instance);
        let after = with_cell(groups, cell, glyphs, table, count);
        assert(after == with_instance(before, last.atlas_index as int, instance));
        holds_further(groups, before, after);
        if j == count - 1 {
            let page = last.atlas_index as int;
            assert(after[page][after[page].len() - 1] == instance);
        } else if 0 <= j < count {
            let page = glyphs[j].atlas_index as int;
            let wanted = crate::renderer::content::instance_of(
                cell,
                if j == 0 {
                    cell.bg_alpha
                } else {
                    0
                },
                glyphs[j],
                table,
            );
            let k = choose|k: int|
                0 <= k < before[page].len() && #[trigger] before[page][k] == wanted;
            assert(begins_with(after[page], before[page]));
            assert(after[page][k] == before[page][k]);
        }
    }
}

/// How many glyphs the first `count` cells have.
pub open spec fn glyphs_upto(glyphs: Seq<Vec<Glyph>>, count: int) -> int
    decreases count,
{
    if count <= 0 {
        0
    } else {
        glyphs_upto(glyphs, count - 1) + glyphs[count - 1]@.len()
    }
}

proof fn cells_are_added(
    groups: Seq<Seq<TextInstance>>,
    cells: Seq<RenderableCell>,
    glyphs: Seq<Vec<Glyph>>,
    table: LinearTable,
    count: int,
    c: int,
    j: int,
)
    requires
        0 <= count <= cells.len(),
        glyphs.len() == cells.len(),
    ensures
        ({
            let after = with_cells(groups, cells, glyphs, table, count);
            &&& batch_instances(after).len() == batch_instances(groups).len() + glyphs_upto(
                glyphs,
                count,
            )
            &&& 0 <= c < count && 0 <= j < glyphs[c]@.len() ==> {
                let page = glyphs[c]@[j].atlas_index as int;
                &&& page < after.len()
                &&& exists|k: int|
                    0 <= k < after[page].len() && #[trigger] after[page][k]
                        == crate::renderer::content::instance_of(
                        cells[c],
                        if j == 0 {
                            cells[c].bg_alpha
                        } else {
                            0
                        },
                        glyphs[c]@[j],
                        table,
                    )
            }
        }),
    decreases count,
{
    if count > 0 {
        cells_are_added(groups, cells, glyphs, table, count - 1, c, j);
        let before = with_cells(groups, cells, glyphs, table, count - 1);
        let own = glyphs[count - 1]@;
        cell_is_added(before, cells[count - 1], own, table, own.len() as int, j);
        let after = with_cells(groups, cells, glyphs, table, count);
        assert(after == with_cell(before, cells[count - 1], own, table, own.len() as int));
        if 0 <= c < count - 1 && 0 <= j < glyphs[c]@.len() {
            let page = glyphs[c]@[j].atlas_index as int;
            let wanted = crate::renderer::content::instance_of(
                cells[c],
                if j == 0 {
                    cells[c].bg_alpha
                } else {
                    0
                },
                glyphs[c]@[j],
                table,
            );
            let k = choose|k: int|
                0 <= k < before[page].len() && #[trigger] before[page][k] == wanted;
            assert(begins_with(after[page], before[page]));
            assert(after[page][k] == before[page][k]);
        }
    }
}

/// Every glyph of every cell is queued, and nothing else is: glyph `j` of cell `c` has an instance on
/// its page of the atlas, which takes its pixels from where the glyph has them and stands where the
/// cell does. Only the first glyph of a cell brings the background of the cell along.
pub proof fn every_glyph_is_queued(
    cells: Seq<RenderableCell>,
    glyphs: Seq<Vec<Glyph>>,
    table: LinearTable,
    c: int,
    j: int,
)
    requires
        glyphs.len() == cells.len(),
        0 <= c < cells.len(),
        0 <= j < glyphs[c]@.len(),
        cells[c].point.column.0 < 0x1_0000,
        cells[c].point.line < 0x1_0000,
    ensures
        ({
            let groups = batch_of(cells, glyphs, table);
            let glyph = glyphs[c]@[j];
            &&& glyph.atlas_index < groups.len()
            &&& exists|k: int|
                0 <= k < groups[glyph.atlas_index as int].len() && ({
                    let instance = #[trigger] groups[glyph.atlas_index as int][k];
                    &&& instance.slot.x == glyph.slot.x && instance.slot.y == glyph.slot.y
                    &&& instance.slot.width == glyph.slot.width
                    &&& instance.slot.height == glyph.slot.height
                    &&& instance.column == cells[c].point.column.0
                    &&& instance.line == cells[c].point.line
                    &&& instance.left == glyph.left && instance.top == glyph.top
                    &&& instance.width == glyph.width && instance.height == glyph.height
                    &&& instance.text.r == table[cells[c].fg.r as int]
                    &&& instance.background.r == table[cells[c].bg.r as int]
                    &&& instance.background_alpha == if j == 0 {
                        cells[c].bg_alpha
                    } else {
                        0
                    }
                })
            &&& batch_instances(groups).len() == glyphs_upto(glyphs, cells.len() as int)
        }),
{
    let start = seq![Seq::<TextInstance>::empty()];
    let count = cells.len() as int;
    cells_are_added(start, cells, glyphs, table, count, c, j);
    reveal_with_fuel(flat, 3);
    assert(batch_instances(start).len() == 0);
    let groups = batch_of(cells, glyphs, table);
    let glyph = glyphs[c]@[j];
    let alpha = if j == 0 {
        cells[c].bg_alpha
    } else {
        0u8
    };
    let page = glyph.atlas_index as int;
    let k = choose|k: int|
        0 <= k < groups[page].len() && #[trigger] groups[page][k]
            == crate::renderer::content::instance_of(cells[c], alpha, glyph, table);
    crate::renderer::content::instance_shows_its_glyph(cells[c], alpha, glyph, table);
    assert(groups[page][k].slot.x == glyph.slot.x);
}

proof fn layer_instances_hold(batches: Seq<Seq<Seq<TextInstance>>>, count: int, b: int, k: int)
    requires
        0 <= b < count <= batches.len(),
        0 <= k < batch_instances(batches[b]).len(),
    ensures
        ({
            let offset = layer_instances(batches, b).len();
            &&& offset + k < layer_instances(batches, count).len()
            &&& layer_instances(batches, count)[offset + k] == batch_instances(batches[b])[k]
        }),
    decreases count,
{
    if b < count - 1 {
        layer_instances_hold(batches, count - 1, b, k);
    }
}

proof fn layer_commands_hold(
    batches: Seq<Seq<Seq<TextInstance>>>,
    start: int,
    count: int,
    b: int,
) -> (at: int)
    requires
        0 <= b < count <= batches.len(),
    ensures
        ({
            let own = batch_commands(batches[b], start + layer_instances(batches, b).len());
            let all = layer_commands(batches, start, count);
            &&& 0 <= at && at + own.len() <= all.len()
            &&& forall|c: int| 0 <= c < own.len() ==> #[trigger] own[c] == all[at + c]
        }),
    decreases count,
{
    if b < count - 1 {
        layer_commands_hold(batches, start, count - 1, b)
    } else {
        layer_commands(batches, start, count - 1).len() as int
    }
}

/// Whether some call draws the background of instance `k`, and a later one its glyph from a page.
pub open spec fn is_drawn_by(commands: Seq<TextDrawCommand>, page: int, k: int) -> bool {
    exists|c: int, d: int|
        0 <= c < d < commands.len() && #[trigger] draws_background_of(commands[c], k)
            && #[trigger] draws_glyph_of(commands[d], page, k)
}

/// Whether a call draws the background of instance `k`.
pub open spec fn draws_background_of(command: TextDrawCommand, k: int) -> bool {
    command matches TextDrawCommand::Background(range) && range.start <= k < range.end
}

/// Whether a call draws the glyph of instance `k` from a page.
pub open spec fn draws_glyph_of(command: TextDrawCommand, page: int, k: int) -> bool {
    &&& command matches TextDrawCommand::Glyph { atlas_index, instance_range }
    &&& atlas_index == page
    &&& instance_range.start <= k < instance_range.end
}

proof fn flat_holds(groups: Seq<Seq<TextInstance>>, count: int, page: int, i: int)
    requires
        0 <= page < count <= groups.len(),
        0 <= i < groups[page].len(),
    ensures
        ({
            let at = flat(groups, page).len() + i;
            &&& at < flat(groups, count).len()
            &&& flat(groups, count)[at] == groups[page][i]
        }),
    decreases count,
{
    if page < count - 1 {
        flat_holds(groups, count - 1, page, i);
    }
}

proof fn glyph_command_of(
    groups: Seq<Seq<TextInstance>>,
    start: int,
    count: int,
    page: int,
) -> (at: int)
    requires
        0 <= page < count <= groups.len(),
        groups[page].len() > 0,
    ensures
        0 <= at < glyph_commands(groups, start, count).len(),
        glyph_commands(groups, start, count)[at] == (TextDrawCommand::Glyph {
            atlas_index: page as usize,
            instance_range: range_of(
                start + flat(groups, page).len(),
                start + flat(groups, page + 1).len(),
            ),
        }),
    decreases count,
{
    if page < count - 1 {
        glyph_command_of(groups, start, count - 1, page)
    } else {
        glyph_commands(groups, start, count - 1).len() as int
    }
}

/// Everything that is queued for a layer is drawn, from its own page: instance `i` of a page of batch
/// `b` is among the instances of the frame, a call draws its background, and a later call draws its
/// glyph from that page. Here the instances of the layer begin at `start`.
pub proof fn queued_text_is_drawn(
    batches: Seq<Seq<Seq<TextInstance>>>,
    start: int,
    b: int,
    page: int,
    i: int,
)
    requires
        0 <= start,
        0 <= b < batches.len(),
        0 <= page < batches[b].len() <= usize::MAX,
        0 <= i < batches[b][page].len(),
        start + layer_instances(batches, batches.len() as int).len() <= u32::MAX,
    ensures
        exists|k: int|
            {
                &&& 0 <= k < layer_instances(batches, batches.len() as int).len()
                &&& #[trigger] layer_instances(batches, batches.len() as int)[k]
                    == batches[b][page][i]
                &&& is_drawn_by(
                    layer_commands(batches, start, batches.len() as int),
                    page,
                    start + k,
                )
            },
{
    let count = batches.len() as int;
    let groups = batches[b];
    let pages = groups.len() as int;
    let offset = layer_instances(batches, b).len() as int;
    flat_holds(groups, pages, page, i);
    let local = flat(groups, page).len() + i;
    layer_instances_hold(batches, count, b, local);
    layer_instances_hold(batches, count, b, batch_instances(groups).len() - 1);
    let k = offset + local;
    let own_start = start + offset;
    let own = batch_commands(groups, own_start);
    let all = layer_commands(batches, start, count);
    let at = layer_commands_hold(batches, start, count, b);
    let g = glyph_command_of(groups, own_start, pages, page);
    flat_grows(groups, page + 1, pages);
    assert(own[0] == all[at]);
    assert(own[g + 1] == all[at + (g + 1)]);
    assert(flat(groups, page + 1).len() == flat(groups, page).len() + groups[page].len());
    assert(draws_background_of(all[at], start + k));
    assert(draws_glyph_of(all[at + (g + 1)], page, start + k));
    assert(layer_instances(batches, count)[k] == batches[b][page][i]);
}

/// Both layers of a frame are drawn, each by its own calls: an instance that is queued for a layer is
/// among the instances of the frame, and the calls of that layer draw its background and then its
/// glyph from the page that it is on.
pub proof fn both_layers_are_drawn(
    before: Seq<Seq<Seq<TextInstance>>>,
    after: Seq<Seq<Seq<TextInstance>>>,
    instances: Seq<TextInstance>,
    before_commands: Seq<TextDrawCommand>,
    after_commands: Seq<TextDrawCommand>,
    b: int,
    page: int,
    i: int,
)
    requires
        lays_out(before, after, instances, before_commands, after_commands),
        instances.len() <= u32::MAX,
    ensures
        0 <= b < before.len() && 0 <= page < before[b].len() <= usize::MAX && 0 <= i
            < before[b][page].len() ==> exists|k: int|
            0 <= k < instances.len() && #[trigger] instances[k] == before[b][page][i]
                && is_drawn_by(before_commands, page, k),
        0 <= b < after.len() && 0 <= page < after[b].len() <= usize::MAX && 0 <= i
            < after[b][page].len() ==> exists|k: int|
            0 <= k < instances.len() && #[trigger] instances[k] == after[b][page][i]
                && is_drawn_by(after_commands, page, k),
{
    let bottom = layer_instances(before, before.len() as int);
    let top = layer_instances(after, after.len() as int);
    if 0 <= b < before.len() && 0 <= page < before[b].len() <= usize::MAX && 0 <= i
        < before[b][page].len() {
        queued_text_is_drawn(before, 0, b, page, i);
        let k = choose|k: int|
            0 <= k < bottom.len() && #[trigger] bottom[k] == before[b][page][i] && is_drawn_by(
                before_commands,
                page,
                0 + k,
            );
        assert(instances[k] == before[b][page][i]);
    }
    if 0 <= b < after.len() && 0 <= page < after[b].len() <= usize::MAX && 0 <= i
        < after[b][page].len() {
        let start = bottom.len() as int;
        queued_text_is_drawn(after, start, b, page, i);
        let k = choose|k: int|
            0 <= k < top.len() && #[trigger] top[k] == after[b][page][i] && is_drawn_by(
                after_commands,
                page,
                start + k,
            );
        assert(instances[start + k] == after[b][page][i]);
    }
}

/// Every call that draws glyphs draws them from the page that they are on: where a call of a batch
/// draws instance `k`, the instance belongs to the page of the call.
pub proof fn glyphs_come_from_their_page(
    groups: Seq<Seq<TextInstance>>,
    start: int,
    count: int,
    c: int,
    k: int,
)
    requires
        0 <= start,
        0 <= count <= groups.len() <= usize::MAX,
        start + batch_instances(groups).len() <= u32::MAX,
        0 <= c < glyph_commands(groups, start, count).len(),
        glyph_commands(groups, start, count)[c] matches TextDrawCommand::Glyph {
            instance_range,
            ..
        } && instance_range.holds(k),
    ensures
        draws_glyph(glyph_commands(groups, start, count)[c], groups, start, k),
    decreases count,
{
    flat_grows(groups, count - 1, count);
    flat_grows(groups, count, groups.len() as int);
    let earlier = glyph_commands(groups, start, count - 1);
    if groups[count - 1].len() == 0 || c < earlier.len() {
        glyphs_come_from_their_page(groups, start, count - 1, c, k);
    } else {
        let low = start + flat(groups, count - 1).len();
        assert(batch_instances(groups)[k - start] == flat(groups, count)[k - start]);
        assert(flat(groups, count)[k - start] == groups[count - 1][k - low]);
    }
}

} // verus!
