//! What the graphics pipelines are made of: the layout of the instances, the shaders that they go
//! through, and the buffers that hold them.

use crate::platform::Platform;
use vstd::arithmetic::power2::{lemma_pow2_pos, lemma_pow2_strictly_increases, lemma_pow2_unfold, pow2};
use vstd::prelude::*;
use vstd::string::*;

verus! {

broadcast use vstd::string::group_string_axioms;

/// The type of an attribute of an instance.
#[derive(Clone, Copy, Debug, PartialEq, Eq, Structural)]
pub enum VertexFormat {
    Uint16x2,
    Sint16x4,
    Float32x4,
    Uint8x4,
    Unorm8x4,
    Uint32,
    Uint32x2,
    Uint32x4,
    Sint32x4,
    Float32x2,
}

impl VertexFormat {
    /// The bytes that an attribute of the type takes.
    pub open spec fn size(self) -> int {
        match self {
            VertexFormat::Uint16x2 => 4,
            VertexFormat::Sint16x4 => 8,
            VertexFormat::Float32x4 => 16,
            VertexFormat::Uint8x4 => 4,
            VertexFormat::Unorm8x4 => 4,
            VertexFormat::Uint32 => 4,
            VertexFormat::Uint32x2 => 8,
            VertexFormat::Uint32x4 => 16,
            VertexFormat::Sint32x4 => 16,
            VertexFormat::Float32x2 => 8,
        }
    }
}

/// An attribute of an instance.
#[derive(Clone, Copy, Debug, PartialEq, Eq, Structural)]
pub struct VertexAttribute {
    pub format: VertexFormat,
    /// Where it lies in the instance, in bytes.
    pub offset: u64,
    /// The number by which the shader knows it.
    pub location: u32,
}

/// The bytes of a text instance.
pub const TEXT_INSTANCE_SIZE: usize = 36;

/// The bytes of a rectangle instance.
pub const RECT_INSTANCE_SIZE: usize = 36;

/// The bytes of what all instances of a frame share.
pub const FRAME_UNIFORMS_SIZE: usize = 48;

/// Text instances that the buffer has room for at first.
pub const INITIAL_INSTANCE_CAPACITY: usize = 8192;

/// Rectangle instances that the buffer has room for at first.
pub const INITIAL_RECT_INSTANCE_CAPACITY: usize = 1024;

/// Text instances that one call draws at most.
pub const BATCH_MAX: usize = 0x1_0000;

/// Vertices of an instance: two triangles.
pub const VERTICES_PER_INSTANCE: u32 = 6;

/// The attributes follow each other without a gap and fill `stride` bytes, and the shader knows
/// them by their positions.
pub open spec fn tiles(attributes: Seq<VertexAttribute>, stride: int) -> bool {
    &&& attributes.len() > 0
    &&& attributes[0].offset == 0
    &&& forall|i: int|
        0 <= i < attributes.len() - 1 ==> (#[trigger] attributes[i]).offset
            + attributes[i].format.size() == attributes[i + 1].offset
    &&& attributes.last().offset + attributes.last().format.size() == stride
    &&& forall|i: int| 0 <= i < attributes.len() ==> (#[trigger] attributes[i]).location == i
}

/// Whether these are the attributes of a text instance.
pub open spec fn describe_text(attributes: Seq<VertexAttribute>) -> bool {
    &&& attributes.len() == 5
    &&& attributes[0].format == VertexFormat::Uint16x2
    &&& attributes[1].format == VertexFormat::Sint16x4
    &&& attributes[2].format == VertexFormat::Float32x4
    &&& attributes[3].format == VertexFormat::Uint8x4
    &&& attributes[4].format == VertexFormat::Unorm8x4
    &&& tiles(attributes, TEXT_INSTANCE_SIZE as int)
}

/// Whether these are the attributes of a rectangle instance.
pub open spec fn describe_rects(attributes: Seq<VertexAttribute>) -> bool {
    &&& attributes.len() == 3
    &&& attributes[0].format == VertexFormat::Float32x4
    &&& attributes[1].format == VertexFormat::Float32x4
    &&& attributes[2].format == VertexFormat::Uint32
    &&& tiles(attributes, RECT_INSTANCE_SIZE as int)
}

/// The attributes of a text instance: grid position, glyph box, texture area, text color and
/// background color.
pub fn text_instance_layout() -> (attributes: [VertexAttribute; 5])
    ensures
        describe_text(attributes@),
{
    [
        VertexAttribute { format: VertexFormat::Uint16x2, offset: 0, location: 0 },
        VertexAttribute { format: VertexFormat::Sint16x4, offset: 4, location: 1 },
        VertexAttribute { format: VertexFormat::Float32x4, offset: 12, location: 2 },
        VertexAttribute { format: VertexFormat::Uint8x4, offset: 28, location: 3 },
        VertexAttribute { format: VertexFormat::Unorm8x4, offset: 32, location: 4 },
    ]
}

/// The attributes of a rectangle instance: position and size, color, and kind.
pub fn rect_instance_layout() -> (attributes: [VertexAttribute; 3])
    ensures
        describe_rects(attributes@),
{
    [
        VertexAttribute { format: VertexFormat::Float32x4, offset: 0, location: 0 },
        VertexAttribute { format: VertexFormat::Float32x4, offset: 16, location: 1 },
        VertexAttribute { format: VertexFormat::Uint32, offset: 32, location: 2 },
    ]
}

/// How the output of a pipeline is put over what is already drawn.
#[derive(Clone, Copy, Debug, PartialEq, Eq, Structural)]
pub enum Blend {
    /// The colors are already multiplied by their alpha.
    Premultiplied,
    /// The colors are multiplied by their alpha when they are drawn.
    Alpha,
}

/// The pipelines.
#[derive(Clone, Copy, Debug, PartialEq, Eq, Structural)]
pub enum Pipeline {
    TextBackground,
    TextForeground,
    Rect,
}

/// What a pipeline is made of.
#[derive(Debug)]
pub struct PipelineParts {
    pub label: String,
    pub vertex_entry: String,
    pub fragment_entry: String,
    pub blend: Blend,
}

impl PipelineParts {
    /// Whether a pipeline is made of these parts.
    pub open spec fn make_up(self, pipeline: Pipeline) -> bool {
        match pipeline {
            Pipeline::TextBackground => {
                &&& self.label@ == "text_bg_pipeline"@
                &&& self.vertex_entry@ == "vs_bg"@
                &&& self.fragment_entry@ == "fs_bg"@
                &&& self.blend is Premultiplied
            },
            Pipeline::TextForeground => {
                &&& self.label@ == "text_fg_pipeline"@
                &&& self.vertex_entry@ == "vs_text"@
                &&& self.fragment_entry@ == "fs_text"@
                &&& self.blend is Alpha
            },
            Pipeline::Rect => {
                &&& self.label@ == "rect_pipeline"@
                &&& self.vertex_entry@ == "vs_main"@
                &&& self.fragment_entry@ == "fs_main"@
                &&& self.blend is Alpha
            },
        }
    }
}

/// What a pipeline is made of.
pub fn pipeline_parts(pipeline: Pipeline) -> (parts: PipelineParts)
    ensures
        parts.make_up(pipeline),
{
    match pipeline {
        Pipeline::TextBackground => PipelineParts {
            label: "text_bg_pipeline".to_owned(),
            vertex_entry: "vs_bg".to_owned(),
            fragment_entry: "fs_bg".to_owned(),
            blend: Blend::Premultiplied,
        },
        Pipeline::TextForeground => PipelineParts {
            label: "text_fg_pipeline".to_owned(),
            vertex_entry: "vs_text".to_owned(),
            fragment_entry: "fs_text".to_owned(),
            blend: Blend::Alpha,
        },
        Pipeline::Rect => PipelineParts {
            label: "rect_pipeline".to_owned(),
            vertex_entry: "vs_main".to_owned(),
            fragment_entry: "fs_main".to_owned(),
            blend: Blend::Alpha,
        },
    }
}

/// A graphics interface.
#[derive(Clone, Copy, Debug, PartialEq, Eq, Structural)]
pub enum Backend {
    Dx12,
    Metal,
    Vulkan,
}

/// The graphics interface, and whether frames go through a visual of the compositor.
#[derive(Clone, Copy, Debug, PartialEq, Eq, Structural)]
pub struct BackendChoice {
    pub backend: Backend,
    pub from_visual: bool,
}

/// The graphics interface of a platform. On Windows, transparent windows need a visual.
pub open spec fn chosen_backend(platform: Platform, transparent: bool) -> BackendChoice {
    match platform {
        Platform::Windows => BackendChoice { backend: Backend::Dx12, from_visual: transparent },
        Platform::Macos => BackendChoice { backend: Backend::Metal, from_visual: false },
        Platform::OtherUnix => BackendChoice { backend: Backend::Vulkan, from_visual: false },
    }
}

/// The graphics interface of a platform. On Windows, transparent windows need a visual.
pub fn backend_choice(platform: Platform, transparent: bool) -> (choice: BackendChoice)
    ensures
        choice == chosen_backend(platform, transparent),
{
    match platform {
        Platform::Windows => BackendChoice { backend: Backend::Dx12, from_visual: transparent },
        Platform::Macos => BackendChoice { backend: Backend::Metal, from_visual: false },
        Platform::OtherUnix => BackendChoice { backend: Backend::Vulkan, from_visual: false },
    }
}

/// Whether a number is the smallest power of two that is not below another one.
pub open spec fn is_next_power(power: int, number: int) -> bool {
    &&& power >= number
    &&& exists|e: nat| power == #[trigger] pow2(e)
    &&& forall|e: nat| #[trigger] pow2(e) >= number ==> power <= pow2(e)
}

/// The smallest power of two that is not below a number.
pub fn next_power_of_two(number: u64) -> (power: u64)
    requires
        number <= 0x8000_0000_0000_0000,
    ensures
        is_next_power(power as int, number as int),
        number > 1 ==> power < 2 * number - 1,
{
    let mut power: u64 = 1;
    let ghost mut exponent: nat = 0;
    proof {
        vstd::arithmetic::power2::lemma2_to64();
        assert(pow2(0) == 1);
    }
    while power < number
        invariant
            number <= 0x8000_0000_0000_0000,
            power == pow2(exponent),
            exponent > 0 ==> pow2((exponent - 1) as nat) < number,
            exponent == 0 ==> power == 1,
            power > 1 ==> power < 2 * number - 1,
        decreases 2 * number - power,
    {
        proof {
            lemma_pow2_pos(exponent);
            lemma_pow2_unfold((exponent + 1) as nat);
            exponent = exponent + 1;
        }
        power = power * 2;
    }
    proof {
        assert forall|e: nat| #[trigger] pow2(e) >= number implies power <= pow2(e) by {
            lemma_pow2_pos(e);
            if e < exponent {
                if e < (exponent - 1) as nat {
                    lemma_pow2_strictly_increases(e, (exponent - 1) as nat);
                }
            } else if exponent < e {
                lemma_pow2_strictly_increases(exponent, e);
            }
        }
    }
    power
}

/// The instances that a buffer has room for once it holds `required` of them: it grows to a power
/// of two where it is too small.
pub fn instance_capacity(capacity: usize, required: usize) -> (new_capacity: usize)
    requires
        required <= usize::MAX / 2 + 1,
    ensures
        required <= capacity ==> new_capacity == capacity,
        required > capacity ==> is_next_power(new_capacity as int, required as int),
{
    if required <= capacity {
        return capacity;
    }
    let power: u64 = next_power_of_two(required as u64);
    proof {
        if required <= 1 {
            vstd::arithmetic::power2::lemma2_to64();
            assert(pow2(0) >= required);
        }
    }
    power as usize
}

/// The size in bytes that a buffer of rectangles needs, given its size and the rectangles that it
/// is to hold: it grows to a power of two where it is too small.
pub fn rect_buffer_size(size: u64, rects: usize) -> (new_size: u64)
    requires
        rects * RECT_INSTANCE_SIZE <= usize::MAX,
        rects * RECT_INSTANCE_SIZE <= 0x8000_0000_0000_0000,
    ensures
        rects * RECT_INSTANCE_SIZE <= size ==> new_size == size,
        rects * RECT_INSTANCE_SIZE > size ==> is_next_power(
            new_size as int,
            rects * RECT_INSTANCE_SIZE,
        ),
{
    let needed: u64 = (rects * RECT_INSTANCE_SIZE) as u64;
    if needed > size {
        next_power_of_two(needed)
    } else {
        size
    }
}

/// The lengths of the calls that draw instances where one call draws at most [`BATCH_MAX`] of them.
pub open spec fn chunk_lengths(count: nat) -> Seq<usize>
    decreases count,
{
    if count == 0 {
        Seq::empty()
    } else if count <= BATCH_MAX {
        seq![count as usize]
    } else {
        seq![BATCH_MAX] + chunk_lengths((count - BATCH_MAX) as nat)
    }
}

/// Split instances into calls that are not too long.
pub fn chunks(count: usize) -> (lengths: Vec<usize>)
    ensures
        lengths@ == chunk_lengths(count as nat),
{
    let mut lengths: Vec<usize> = Vec::new();
    let mut left: usize = count;
    assert(lengths@ + chunk_lengths(left as nat) =~= chunk_lengths(count as nat));
    while left > 0
        invariant
            lengths@ + chunk_lengths(left as nat) == chunk_lengths(count as nat),
        decreases left,
    {
        let ghost before = lengths@;
        let length: usize = if left > BATCH_MAX {
            BATCH_MAX
        } else {
            left
        };
        lengths.push(length);
        assert(lengths@ + chunk_lengths((left - length) as nat) =~= before + chunk_lengths(
            left as nat,
        ));
        left = left - length;
    }
    assert(lengths@ + Seq::<usize>::empty() =~= lengths@);
    lengths
}

/// The sum of some lengths.
pub open spec fn total(lengths: Seq<usize>) -> int
    decreases lengths.len(),
{
    if lengths.len() == 0 {
        0
    } else {
        lengths[0] + total(lengths.subrange(1, lengths.len() as int))
    }
}

/// Splitting loses no instance, and no call is empty or too long.
pub proof fn chunks_cover_all_instances(count: nat)
    requires
        count <= usize::MAX,
    ensures
        total(chunk_lengths(count)) == count,
        forall|i: int|
            0 <= i < chunk_lengths(count).len() ==> 0 < #[trigger] chunk_lengths(count)[i]
                <= BATCH_MAX,
    decreases count,
{
    if count > BATCH_MAX {
        let rest = chunk_lengths((count - BATCH_MAX) as nat);
        chunks_cover_all_instances((count - BATCH_MAX) as nat);
        assert(chunk_lengths(count).subrange(1, chunk_lengths(count).len() as int) =~= rest);
    } else if count > 0 {
        let lengths = chunk_lengths(count);
        assert(lengths.subrange(1, 1) =~= Seq::<usize>::empty());
        assert(total(lengths.subrange(1, 1)) == 0);
    }
}

/// Frames go through a visual of the compositor where a window on Windows is transparent, and nowhere
/// else. Whether it is transparent changes nothing about the graphics interface.
pub proof fn only_transparent_windows_need_a_visual(platform: Platform, transparent: bool)
    ensures
        chosen_backend(platform, transparent).from_visual <==> platform is Windows && transparent,
        chosen_backend(platform, transparent).backend == chosen_backend(
            platform,
            !transparent,
        ).backend,
        chosen_backend(platform, transparent).backend is Dx12 <==> platform is Windows,
        chosen_backend(platform, transparent).backend is Metal <==> platform is Macos,
{
}

/// The two shaders of a pipeline belong together: they have the same name but for the letter that says
/// which is which. Different pipelines have different shaders, and only backgrounds, whose colors
/// are already multiplied, are put over the rest as they are.
pub proof fn shaders_belong_together(
    pipeline: Pipeline,
    parts: PipelineParts,
    other: Pipeline,
    other_parts: PipelineParts,
)
    requires
        parts.make_up(pipeline),
        other_parts.make_up(other),
    ensures
        parts.vertex_entry@.len() == parts.fragment_entry@.len() >= 3,
        parts.vertex_entry@[0] == 'v',
        parts.fragment_entry@[0] == 'f',
        forall|i: int|
            1 <= i < parts.vertex_entry@.len() ==> (#[trigger] parts.vertex_entry@[i])
                == parts.fragment_entry@[i],
        pipeline != other ==> parts.vertex_entry@ != other_parts.vertex_entry@
            && parts.fragment_entry@ != other_parts.fragment_entry@ && parts.label@
            != other_parts.label@,
        parts.blend is Premultiplied <==> pipeline is TextBackground,
{
    reveal_strlit("text_bg_pipeline");
    reveal_strlit("text_fg_pipeline");
    reveal_strlit("rect_pipeline");
    reveal_strlit("vs_bg");
    reveal_strlit("fs_bg");
    reveal_strlit("vs_text");
    reveal_strlit("fs_text");
    reveal_strlit("vs_main");
    reveal_strlit("fs_main");
    assert("text_bg_pipeline"@[5] == 'b' && "text_fg_pipeline"@[5] == 'f');
    assert("vs_text"@[3] == 't' && "vs_main"@[3] == 'm');
    assert("fs_text"@[3] == 't' && "fs_main"@[3] == 'm');
}

impl VertexFormat {
    /// How many numbers an attribute of the type holds.
    pub open spec fn parts(self) -> int {
        match self {
            VertexFormat::Uint32 => 1,
            VertexFormat::Uint16x2 | VertexFormat::Uint32x2 | VertexFormat::Float32x2 => 2,
            _ => 4,
        }
    }

    /// Whether the shader sees whole numbers.
    pub open spec fn is_whole(self) -> bool {
        match self {
            VertexFormat::Float32x2 | VertexFormat::Float32x4 | VertexFormat::Unorm8x4 => false,
            _ => true,
        }
    }
}

/// The shader gets what an instance holds: the column and the line as two whole numbers of two bytes,
/// the box of the glyph as four, its place in the texture as four numbers of four bytes, the
/// text color with the flags as four whole bytes, and the background color as four shares. No
/// two attributes share a byte, and none is left out.
pub proof fn shader_gets_the_instance(attributes: Seq<VertexAttribute>, i: int, j: int)
    requires
        describe_text(attributes),
        0 <= i < j < attributes.len(),
    ensures
        attributes[0].format.parts() == 2 && attributes[0].format.is_whole()
            && attributes[0].format.size() == 4,
        attributes[1].format.parts() == 4 && attributes[1].format.is_whole()
            && attributes[1].format.size() == 8,
        attributes[2].format.parts() == 4 && !attributes[2].format.is_whole()
            && attributes[2].format.size() == 16,
        attributes[3].format.parts() == 4 && attributes[3].format.is_whole()
            && attributes[3].format.size() == 4,
        attributes[4].format.parts() == 4 && !attributes[4].format.is_whole()
            && attributes[4].format.size() == 4,
        attributes[i].offset + attributes[i].format.size() <= attributes[j].offset,
        attributes[4].offset + 4 == 36,
        attributes[i].location == i,
{
    attributes_are_in_order(attributes, TEXT_INSTANCE_SIZE as int, i, j);
}

proof fn attributes_are_in_order(attributes: Seq<VertexAttribute>, stride: int, i: int, j: int)
    requires
        tiles(attributes, stride),
        0 <= i < j < attributes.len(),
    ensures
        attributes[i].offset + attributes[i].format.size() <= attributes[j].offset,
    decreases j - i,
{
    if i + 1 < j {
        assert(attributes[i].offset + attributes[i].format.size() == attributes[i + 1].offset);
        attributes_are_in_order(attributes, stride, i + 1, j);
    }
}

/// The shader gets what a rectangle holds: its position and size, its color, and a whole number for its
/// kind, one behind the other.
pub proof fn shader_gets_the_rectangle(attributes: Seq<VertexAttribute>, i: int, j: int)
    requires
        describe_rects(attributes),
        0 <= i < j < attributes.len(),
    ensures
        attributes[0].format.parts() == 4 && !attributes[0].format.is_whole()
            && attributes[0].format.size() == 16,
        attributes[1].format.parts() == 4 && !attributes[1].format.is_whole()
            && attributes[1].format.size() == 16,
        attributes[2].format.parts() == 1 && attributes[2].format.is_whole()
            && attributes[2].format.size() == 4,
        attributes[i].offset + attributes[i].format.size() <= attributes[j].offset,
        attributes[2].offset + 4 == 36,
        attributes[i].location == i,
{
    attributes_are_in_order(attributes, RECT_INSTANCE_SIZE as int, i, j);
}

/// An attribute takes as many bytes as its numbers do: one for each share or small number, two for each
/// of middle size, and four for each large one.
pub proof fn attributes_take_the_bytes_of_their_numbers(format: VertexFormat)
    ensures
        format is Uint8x4 || format is Unorm8x4 ==> format.size() == format.parts(),
        format is Uint16x2 || format is Sint16x4 ==> format.size() == 2 * format.parts(),
        !(format is Uint8x4 || format is Unorm8x4 || format is Uint16x2 || format is Sint16x4)
            ==> format.size() == 4 * format.parts(),
{
}

} // verus!
