//! The per-frame transform buffer.
//!
//! Every object that is drawn reads its transform from one dynamic uniform
//! buffer, at an offset that the device's alignment rounds up. Transforms are
//! collected from the whole command list first and bound again, in the same
//! order, while the list is executed.
use crate::bitmaps::{all_bound, command_bound, BitmapBinding};
use crate::commands::{
    ColorTransform, Command, CommandList, LineRectExtent, PixelSnapping, RenderMatrix,
};
use crate::geometry::{Color, Ratio, Size, TwipsPoint, HALF_PX};
use crate::blend::TrivialBlend;
use crate::render::{
    addressable, command_transforms, lemma_addressable, run_list, run_list_state, transform_count,
    RenderContext, RunState,
};
use std::collections::HashMap;
use vstd::prelude::*;

verus! {

/// Bytes that one transform takes on the GPU: a 4x4 matrix and two colors.
pub const TRANSFORMS_SIZE: u32 = 96;

/// Transforms that the buffer has room for.
pub const MAX_TRANSFORMS: u32 = 4096;

/// Rounds a value up to a multiple of the given alignment.
pub open spec fn spec_align_to(value: int, alignment: int) -> int {
    (value + alignment - 1) / alignment * alignment
}

/// Rounding up gives a multiple of the alignment that is less than one
/// alignment above the value.
pub proof fn align_to_is_multiple(value: int, alignment: int)
    requires
        0 <= value,
        0 < alignment,
    ensures
        spec_align_to(value, alignment) % alignment == 0,
        value <= spec_align_to(value, alignment) < value + alignment,
{
    let q = (value + alignment - 1) / alignment;
    vstd::arithmetic::div_mod::lemma_fundamental_div_mod(value + alignment - 1, alignment);
    vstd::arithmetic::mul::lemma_mul_is_commutative(q, alignment);
    vstd::arithmetic::div_mod::lemma_mod_multiples_basic(q, alignment);
}

/// No smaller multiple of the alignment has room for the value.
pub proof fn align_to_is_least(value: int, alignment: int, multiple: int)
    requires
        0 <= value <= multiple,
        0 < alignment,
        multiple % alignment == 0,
    ensures
        spec_align_to(value, alignment) <= multiple,
{
    let q = (value + alignment - 1) / alignment;
    let k = multiple / alignment;
    vstd::arithmetic::div_mod::lemma_fundamental_div_mod(value + alignment - 1, alignment);
    vstd::arithmetic::div_mod::lemma_fundamental_div_mod(multiple, alignment);
    vstd::arithmetic::mul::lemma_mul_is_commutative(q, alignment);
    vstd::arithmetic::mul::lemma_mul_is_commutative(k, alignment);
    assert(q <= k) by (nonlinear_arith)
        requires
            q * alignment < k * alignment + alignment,
            0 < alignment,
    ;
    assert(q * alignment <= k * alignment) by (nonlinear_arith)
        requires
            q <= k,
            0 < alignment,
    ;
}

/// Align a value to the given alignment.
pub fn align_to(value: u32, alignment: u32) -> (r: u32)
    requires
        alignment > 0,
        spec_align_to(value as int, alignment as int) <= u32::MAX,
    ensures
        r == spec_align_to(value as int, alignment as int),
        r % alignment == 0,
        value <= r < value + alignment,
{
    proof {
        align_to_is_multiple(value as int, alignment as int);
    }
    let rounded: u64 = (value as u64 + alignment as u64 - 1) / alignment as u64;
    (rounded * alignment as u64) as u32
}

/// The multiplier, in 8.8 fixed point, that takes a white channel to a color
/// channel: `channel / 255`, rounded down.
pub open spec fn multiplier(channel: u8) -> int {
    256 * channel / 255
}

/// The color transform that maps white to a color.
pub open spec fn spec_color_to_color_transform(color: Color) -> ColorTransform {
    ColorTransform {
        r_multiply: multiplier(color.r) as i16,
        g_multiply: multiplier(color.g) as i16,
        b_multiply: multiplier(color.b) as i16,
        a_multiply: multiplier(color.a) as i16,
        r_add: 0,
        g_add: 0,
        b_add: 0,
        a_add: 0,
    }
}

/// The multiplier of one color channel.
fn channel_multiplier(channel: u8) -> (r: i16)
    ensures
        r == multiplier(channel),
{
    (256 * channel as i32 / 255) as i16
}

/// Convert a color to a color transform that maps white to that color.
/// Used for DrawRect/DrawLine/DrawLineRect where the vertex color is white
/// and the actual color is applied via the color transform.
pub fn color_to_color_transform(color: Color) -> (r: ColorTransform)
    ensures
        r == spec_color_to_color_transform(color),
{
    ColorTransform {
        r_multiply: channel_multiplier(color.r),
        g_multiply: channel_multiplier(color.g),
        b_multiply: channel_multiplier(color.b),
        a_multiply: channel_multiplier(color.a),
        r_add: 0,
        g_add: 0,
        b_add: 0,
        a_add: 0,
    }
}

/// White maps to the color: what is left of a white channel after the multiplier
/// is less than 1/256 below the color's channel, and exactly it at both ends of
/// the range.
pub proof fn white_maps_to_color(channel: u8)
    ensures
        0 <= 256 * channel - 255 * multiplier(channel) < 255,
        channel == 0 ==> multiplier(channel) == 0,
        channel == 255 ==> multiplier(channel) == 256,
{
}

/// A one-pixel-thick line from `start` to a point `dx`, `dy` twips away.
#[derive(Clone, Copy, PartialEq, Eq, Structural, Debug)]
pub struct LineSegment {
    pub start: TwipsPoint,
    pub dx: i32,
    pub dy: i32,
}

impl LineSegment {
    /// Whether the line has no length. Such a line is drawn with a matrix of size
    /// zero, since it has no direction.
    pub open spec fn spec_is_degenerate(self) -> bool {
        self.dx == 0 && self.dy == 0
    }

    /// Whether the line has no length.
    pub fn is_degenerate(&self) -> (r: bool)
        ensures
            r == self.spec_is_degenerate(),
    {
        self.dx == 0 && self.dy == 0
    }
}

/// The object-to-world matrix of one draw.
#[derive(Clone, Copy, PartialEq, Eq, Structural, Debug)]
pub enum WorldMatrix {
    /// The matrix as it is.
    Matrix(RenderMatrix),
    /// The matrix after pixel snapping, scaled by a texture's size where the
    /// texture is known.
    Bitmap { matrix: RenderMatrix, pixel_snapping: PixelSnapping, scale: Option<Size> },
    /// The matrix that maps the unit quad to a one-pixel-thick line.
    Line(LineSegment),
}

/// Transform uniforms for one draw call.
#[derive(Clone, Copy, PartialEq, Eq, Structural, Debug)]
pub struct Transforms {
    pub world: WorldMatrix,
    pub color: ColorTransform,
}

/// Whether a value fits in a twips coordinate.
pub open spec fn fits_twips(v: int) -> bool {
    i32::MIN <= v <= i32::MAX
}

/// A position and a displacement, both in twips, without a limit.
pub open spec fn corner(matrix: RenderMatrix, extent: TwipsPoint) -> (int, int) {
    (matrix.tx + HALF_PX + extent.x, matrix.ty + HALF_PX + extent.y)
}

/// The corners of an outlined rectangle, in order.
pub open spec fn line_rect_corners(matrix: RenderMatrix, extent: LineRectExtent) -> Seq<
    (int, int),
> {
    seq![
        corner(matrix, TwipsPoint { x: 0, y: 0 }),
        corner(matrix, extent.first),
        corner(matrix, extent.both),
        corner(matrix, extent.second),
    ]
}

/// The line from one corner to another.
pub open spec fn edge(a: (int, int), b: (int, int)) -> LineSegment {
    LineSegment {
        start: TwipsPoint { x: a.0 as i32, y: a.1 as i32 },
        dx: (b.0 - a.0) as i32,
        dy: (b.1 - a.1) as i32,
    }
}

/// The outline of a rectangle: four lines, each starting where the one before
/// ends.
pub open spec fn line_rect_edges(matrix: RenderMatrix, extent: LineRectExtent) -> Seq<LineSegment> {
    let c = line_rect_corners(matrix, extent);
    seq![edge(c[0], c[1]), edge(c[1], c[2]), edge(c[2], c[3]), edge(c[3], c[0])]
}

/// Whether all coordinates on the way to an outlined rectangle fit.
pub open spec fn line_rect_fits(matrix: RenderMatrix, extent: LineRectExtent) -> bool {
    let c = line_rect_corners(matrix, extent);
    &&& forall|i: int| 0 <= i < 4 ==> fits_twips((#[trigger] c[i]).0) && fits_twips(c[i].1)
    &&& forall|i: int|
        0 <= i < 4 ==> fits_twips((#[trigger] c[(i + 1) % 4]).0 - c[i].0) && fits_twips(
            c[(i + 1) % 4].1 - c[i].1,
        )
}

/// Whether all coordinates that a list moves by half a pixel still fit.
pub open spec fn twips_ok(cmds: Seq<Command>) -> bool
    decreases cmds,
{
    cmds.len() == 0 || (twips_ok(cmds.drop_last()) && command_twips_ok(cmds.last()))
}

/// Whether all coordinates that a command moves by half a pixel still fit.
pub open spec fn command_twips_ok(cmd: Command) -> bool
    decreases cmd,
{
    match cmd {
        Command::DrawLine { matrix, .. } => fits_twips(matrix.tx + HALF_PX) && fits_twips(
            matrix.ty + HALF_PX,
        ),
        Command::DrawLineRect { matrix, extent, .. } => line_rect_fits(matrix, extent),
        Command::Blend(sub, _) => twips_ok(sub.commands@),
        Command::RenderAlphaMask { maskee_commands, mask_commands } => twips_ok(
            mask_commands.commands@,
        ) && twips_ok(maskee_commands.commands@),
        _ => true,
    }
}

/// The transforms that a list needs, in the order in which it is executed.
pub open spec fn collected(cmds: Seq<Command>, bitmaps: Map<usize, BitmapBinding>) -> Seq<
    Transforms,
>
    decreases cmds,
{
    if cmds.len() == 0 {
        seq![]
    } else {
        collected(cmds.drop_last(), bitmaps) + collected_from(cmds.last(), bitmaps)
    }
}

/// The transforms that a command needs.
pub open spec fn collected_from(cmd: Command, bitmaps: Map<usize, BitmapBinding>) -> Seq<Transforms>
    decreases cmd,
{
    match cmd {
        Command::RenderBitmap { bitmap, transform, pixel_snapping, .. } => seq![
            Transforms {
                world: WorldMatrix::Bitmap {
                    matrix: transform.matrix,
                    pixel_snapping,
                    scale: if bitmaps.contains_key(bitmap.key) {
                        Some(
                            Size {
                                width: bitmaps[bitmap.key].width,
                                height: bitmaps[bitmap.key].height,
                            },
                        )
                    } else {
                        None
                    },
                },
                color: transform.color_transform,
            },
        ],
        Command::RenderShape { transform, .. } | Command::RenderStage3D { transform } => seq![
            Transforms {
                world: WorldMatrix::Matrix(transform.matrix),
                color: transform.color_transform,
            },
        ],
        Command::DrawRect { color, matrix } => seq![
            Transforms {
                world: WorldMatrix::Matrix(matrix),
                color: spec_color_to_color_transform(color),
            },
        ],
        Command::DrawLine { color, matrix } => seq![
            Transforms {
                world: WorldMatrix::Matrix(
                    RenderMatrix {
                        tx: (matrix.tx + HALF_PX) as i32,
                        ty: (matrix.ty + HALF_PX) as i32,
                        ..matrix
                    },
                ),
                color: spec_color_to_color_transform(color),
            },
        ],
        Command::DrawLineRect { color, matrix, extent } => line_rect_edges(matrix, extent).map_values(
            |l: LineSegment|
                Transforms {
                    world: WorldMatrix::Line(l),
                    color: spec_color_to_color_transform(color),
                },
        ),
        Command::Blend(sub, _) => collected(sub.commands@, bitmaps),
        Command::RenderAlphaMask { maskee_commands, mask_commands } => collected(
            mask_commands.commands@,
            bitmaps,
        ) + collected(maskee_commands.commands@, bitmaps),
        _ => seq![],
    }
}

/// As many transforms are collected from a list as its execution uses up.
pub proof fn collected_len(cmds: Seq<Command>, bitmaps: Map<usize, BitmapBinding>)
    ensures
        collected(cmds, bitmaps).len() == transform_count(cmds),
    decreases cmds,
{
    if cmds.len() > 0 {
        collected_len(cmds.drop_last(), bitmaps);
        collected_from_len(cmds.last(), bitmaps);
    }
}

/// As many transforms are collected from a command as its execution uses up.
pub proof fn collected_from_len(cmd: Command, bitmaps: Map<usize, BitmapBinding>)
    ensures
        collected_from(cmd, bitmaps).len() == command_transforms(cmd),
    decreases cmd,
{
    match cmd {
        Command::Blend(sub, _) => {
            collected_len(sub.commands@, bitmaps);
        },
        Command::RenderAlphaMask { maskee_commands, mask_commands } => {
            collected_len(mask_commands.commands@, bitmaps);
            collected_len(maskee_commands.commands@, bitmaps);
        },
        _ => {},
    }
}

/// The transforms of the frame being drawn, as they go into the buffer.
#[derive(Debug)]
pub struct TransformQueue {
    /// Bytes from one transform to the next.
    pub aligned_size: u32,
    pub data: Vec<Transforms>,
}

impl TransformQueue {
    /// Transforms do not overlap, and each has a 32-bit offset.
    pub open spec fn wf(self) -> bool {
        &&& self.aligned_size >= TRANSFORMS_SIZE
        &&& self.data@.len() <= addressable(self.aligned_size as int)
    }

    /// An empty queue for a device with the given uniform buffer alignment.
    pub fn new(min_uniform_buffer_offset_alignment: u32) -> (r: TransformQueue)
        requires
            min_uniform_buffer_offset_alignment > 0,
            spec_align_to(
                TRANSFORMS_SIZE as int,
                min_uniform_buffer_offset_alignment as int,
            ) <= u32::MAX,
        ensures
            r.wf(),
            r.data@.len() == 0,
            r.aligned_size == spec_align_to(
                TRANSFORMS_SIZE as int,
                min_uniform_buffer_offset_alignment as int,
            ),
    {
        let aligned_size: u32 = align_to(TRANSFORMS_SIZE, min_uniform_buffer_offset_alignment);
        proof {
            vstd::arithmetic::div_mod::lemma_div_pos_is_pos(u32::MAX as int, aligned_size as int);
        }
        TransformQueue { aligned_size, data: Vec::new() }
    }

    /// The size of the buffer, in bytes.
    pub fn buffer_size(&self) -> (r: u32)
        requires
            MAX_TRANSFORMS * self.aligned_size <= u32::MAX,
        ensures
            r == MAX_TRANSFORMS * self.aligned_size,
    {
        MAX_TRANSFORMS * self.aligned_size
    }

    /// Forgets all transforms.
    pub fn clear(&mut self)
        requires
            old(self).wf(),
        ensures
            final(self).wf(),
            final(self).data@.len() == 0,
            final(self).aligned_size == old(self).aligned_size,
    {
        self.data.clear();
    }

    /// Appends a transform and returns its offset in the buffer.
    pub fn push_transform(&mut self, transforms: Transforms) -> (offset: u32)
        requires
            old(self).wf(),
            old(self).data@.len() < addressable(old(self).aligned_size as int),
        ensures
            final(self).wf(),
            final(self).aligned_size == old(self).aligned_size,
            final(self).data@ == old(self).data@.push(transforms),
            offset == old(self).data@.len() * old(self).aligned_size,
    {
        proof {
            lemma_addressable(self.aligned_size as int);
            lemma_offset_fits(self.data@.len() as int, self.aligned_size as int);
        }
        let offset: u32 = self.data.len() as u32 * self.aligned_size;
        self.data.push(transforms);
        offset
    }

    /// The offsets at which the transforms are written to the buffer, in order.
    pub fn upload_offsets(&self) -> (r: Vec<u64>)
        requires
            self.wf(),
        ensures
            r@.len() == self.data@.len(),
            forall|i: int| 0 <= i < r@.len() ==> #[trigger] r@[i] == i * self.aligned_size,
    {
        let mut r: Vec<u64> = Vec::new();
        let mut i: usize = 0;
        while i < self.data.len()
            invariant
                self.wf(),
                i <= self.data@.len(),
                r@.len() == i,
                forall|j: int| 0 <= j < i ==> #[trigger] r@[j] == j * self.aligned_size,
            decreases self.data.len() - i,
        {
            proof {
                lemma_offset_fits(i as int, self.aligned_size as int);
            }
            r.push(i as u64 * self.aligned_size as u64);
            i += 1;
        }
        r
    }
}

/// The offset of an addressable transform fits in 32 bits.
proof fn lemma_offset_fits(index: int, aligned_size: int)
    requires
        0 <= index < addressable(aligned_size),
        0 < aligned_size,
    ensures
        0 <= index * aligned_size <= u32::MAX,
{
    let q = u32::MAX as int / aligned_size;
    vstd::arithmetic::div_mod::lemma_fundamental_div_mod(u32::MAX as int, aligned_size);
    assert(0 <= index * aligned_size <= aligned_size * q) by (nonlinear_arith)
        requires
            0 <= index <= q,
            aligned_size > 0,
    ;
}

/// Transforms are written at multiples of the device's alignment, do not
/// overlap, and stay inside a buffer for [`MAX_TRANSFORMS`] of them.
pub proof fn transforms_fit_the_buffer(alignment: int, i: int, j: int)
    requires
        0 < alignment,
        0 <= i < j < MAX_TRANSFORMS,
    ensures
        ({
            let size = spec_align_to(TRANSFORMS_SIZE as int, alignment);
            &&& (i * size) % alignment == 0
            &&& i * size + TRANSFORMS_SIZE <= j * size
            &&& j * size + TRANSFORMS_SIZE <= MAX_TRANSFORMS * size
        }),
{
    let size = spec_align_to(TRANSFORMS_SIZE as int, alignment);
    align_to_is_multiple(TRANSFORMS_SIZE as int, alignment);
    vstd::arithmetic::div_mod::lemma_fundamental_div_mod(size, alignment);
    let k = size / alignment;
    assert(i * size == (i * k) * alignment) by (nonlinear_arith)
        requires
            size == alignment * k,
    ;
    vstd::arithmetic::div_mod::lemma_mod_multiples_basic(i * k, alignment);
    assert(i * size + size <= j * size) by (nonlinear_arith)
        requires
            i + 1 <= j,
            size > 0,
    ;
    assert(j * size + size <= 4096 * size) by (nonlinear_arith)
        requires
            j + 1 <= 4096,
            size > 0,
    ;
}

/// The line between two points.
fn line_segment(a: TwipsPoint, b: TwipsPoint) -> (r: LineSegment)
    requires
        fits_twips(b.x - a.x),
        fits_twips(b.y - a.y),
    ensures
        r == edge((a.x as int, a.y as int), (b.x as int, b.y as int)),
{
    LineSegment { start: a, dx: b.x - a.x, dy: b.y - a.y }
}

/// A corner of an outlined rectangle.
fn line_rect_corner(matrix: &RenderMatrix, extent: TwipsPoint) -> (r: TwipsPoint)
    requires
        fits_twips(corner(*matrix, TwipsPoint { x: 0, y: 0 }).0),
        fits_twips(corner(*matrix, TwipsPoint { x: 0, y: 0 }).1),
        fits_twips(corner(*matrix, extent).0),
        fits_twips(corner(*matrix, extent).1),
    ensures
        r.x == corner(*matrix, extent).0,
        r.y == corner(*matrix, extent).1,
{
    TwipsPoint { x: matrix.tx + HALF_PX + extent.x, y: matrix.ty + HALF_PX + extent.y }
}

/// Appends the four edges of an outlined rectangle.
fn push_line_rect(
    color: Color,
    matrix: &RenderMatrix,
    extent: &LineRectExtent,
    queue: &mut TransformQueue,
)
    requires
        line_rect_fits(*matrix, *extent),
        old(queue).wf(),
        old(queue).data@.len() + 4 <= addressable(old(queue).aligned_size as int),
    ensures
        final(queue).wf(),
        final(queue).aligned_size == old(queue).aligned_size,
        final(queue).data@ == old(queue).data@ + line_rect_edges(*matrix, *extent).map_values(
            |l: LineSegment|
                Transforms {
                    world: WorldMatrix::Line(l),
                    color: spec_color_to_color_transform(color),
                },
        ),
{
    proof {
        let c = line_rect_corners(*matrix, *extent);
        assert(fits_twips(c[0].0) && fits_twips(c[1].0) && fits_twips(c[2].0) && fits_twips(
            c[3].0,
        ));
        assert(fits_twips(c[(0int + 1) % 4].0 - c[0].0));
        assert(fits_twips(c[(1int + 1) % 4].0 - c[1].0));
        assert(fits_twips(c[(2int + 1) % 4].0 - c[2].0));
        assert(fits_twips(c[(3int + 1) % 4].0 - c[3].0));
    }
    let a = line_rect_corner(matrix, TwipsPoint { x: 0, y: 0 });
    let b = line_rect_corner(matrix, extent.first);
    let c = line_rect_corner(matrix, extent.both);
    let d = line_rect_corner(matrix, extent.second);
    let ct = color_to_color_transform(color);
    queue.push_transform(Transforms { world: WorldMatrix::Line(line_segment(a, b)), color: ct });
    queue.push_transform(Transforms { world: WorldMatrix::Line(line_segment(b, c)), color: ct });
    queue.push_transform(Transforms { world: WorldMatrix::Line(line_segment(c, d)), color: ct });
    queue.push_transform(Transforms { world: WorldMatrix::Line(line_segment(d, a)), color: ct });
}

/// Pre-collect transforms from a command list (recursive for blends).
pub fn collect_transforms(
    commands: &CommandList,
    bitmaps: &HashMap<usize, BitmapBinding>,
    queue: &mut TransformQueue,
)
    requires
        twips_ok(commands.commands@),
        old(queue).wf(),
        old(queue).data@.len() + transform_count(commands.commands@) <= addressable(
            old(queue).aligned_size as int,
        ),
    ensures
        final(queue).wf(),
        final(queue).aligned_size == old(queue).aligned_size,
        final(queue).data@ == old(queue).data@ + collected(commands.commands@, bitmaps@),
    decreases commands,
{
    let ghost cmds = commands.commands@;
    let ghost before = queue.data@;
    let mut i: usize = 0;
    while i < commands.commands.len()
        invariant
            cmds == commands.commands@,
            i <= commands.commands.len(),
            twips_ok(cmds),
            queue.wf(),
            queue.aligned_size == old(queue).aligned_size,
            before.len() + transform_count(cmds) <= addressable(queue.aligned_size as int),
            queue.data@ == before + collected(cmds.take(i as int), bitmaps@),
        decreases commands.commands.len() - i,
    {
        proof {
            assert(cmds.take(i + 1).drop_last() == cmds.take(i as int));
            lemma_prefix_twips(cmds, i + 1);
            crate::render::lemma_prefix(cmds, i + 1, 0);
            collected_len(cmds.take(i as int), bitmaps@);
        }
        collect_transforms_from(&commands.commands[i], bitmaps, queue);
        i += 1;
    }
    assert(cmds.take(i as int) == cmds);
}

/// Collects the transforms of one command.
fn collect_transforms_from(
    cmd: &Command,
    bitmaps: &HashMap<usize, BitmapBinding>,
    queue: &mut TransformQueue,
)
    requires
        command_twips_ok(*cmd),
        old(queue).wf(),
        old(queue).data@.len() + command_transforms(*cmd) <= addressable(
            old(queue).aligned_size as int,
        ),
    ensures
        final(queue).wf(),
        final(queue).aligned_size == old(queue).aligned_size,
        final(queue).data@ == old(queue).data@ + collected_from(*cmd, bitmaps@),
    decreases cmd,
{
    match cmd {
        Command::RenderBitmap { bitmap, transform, pixel_snapping, .. } => {
            // The matrix is scaled by the texture's dimensions.
            let scale = match bitmaps.get(&bitmap.key) {
                Some(binding) => Some(Size { width: binding.width, height: binding.height }),
                None => None,
            };
            queue.push_transform(
                Transforms {
                    world: WorldMatrix::Bitmap {
                        matrix: transform.matrix,
                        pixel_snapping: *pixel_snapping,
                        scale,
                    },
                    color: transform.color_transform,
                },
            );
        },
        Command::RenderShape { transform, .. } => {
            queue.push_transform(
                Transforms {
                    world: WorldMatrix::Matrix(transform.matrix),
                    color: transform.color_transform,
                },
            );
        },
        Command::RenderStage3D { transform } => {
            queue.push_transform(
                Transforms {
                    world: WorldMatrix::Matrix(transform.matrix),
                    color: transform.color_transform,
                },
            );
        },
        Command::DrawRect { color, matrix } => {
            // The color is baked into the color transform.
            queue.push_transform(
                Transforms {
                    world: WorldMatrix::Matrix(*matrix),
                    color: color_to_color_transform(*color),
                },
            );
        },
        Command::DrawLine { color, matrix } => {
            // The matrix already encodes length and direction. A half-pixel offset
            // gives crisp lines.
            let mut m = *matrix;
            m.tx = m.tx + HALF_PX;
            m.ty = m.ty + HALF_PX;
            queue.push_transform(
                Transforms { world: WorldMatrix::Matrix(m), color: color_to_color_transform(*color) },
            );
        },
        Command::DrawLineRect { color, matrix, extent } => {
            push_line_rect(*color, matrix, extent, queue);
        },
        Command::Blend(sub_commands, _) => {
            collect_transforms(sub_commands, bitmaps, queue);
        },
        Command::RenderAlphaMask { maskee_commands, mask_commands } => {
            proof {
                collected_len(mask_commands.commands@, bitmaps@);
            }
            collect_transforms(mask_commands, bitmaps, queue);
            collect_transforms(maskee_commands, bitmaps, queue);
        },
        Command::PushMask => {},
        Command::ActivateMask => {},
        Command::DeactivateMask => {},
        Command::PopMask => {},
    }
}

/// A part of a list from its start is as free of overflows as the list.
proof fn lemma_prefix_twips(cmds: Seq<Command>, i: int)
    requires
        0 <= i <= cmds.len(),
    ensures
        twips_ok(cmds) ==> twips_ok(cmds.take(i)),
    decreases cmds.len() - i,
{
    if i < cmds.len() {
        lemma_prefix_twips(cmds, i + 1);
        assert(cmds.take(i + 1).drop_last() == cmds.take(i));
    } else {
        assert(cmds.take(i) == cmds);
    }
}

/// Whether all coordinates that a list moves by half a pixel still fit.
pub fn check_twips(commands: &CommandList) -> (r: bool)
    ensures
        r == twips_ok(commands.commands@),
    decreases commands,
{
    let ghost cmds = commands.commands@;
    let mut i: usize = 0;
    while i < commands.commands.len()
        invariant
            cmds == commands.commands@,
            i <= commands.commands.len(),
            twips_ok(cmds.take(i as int)),
        decreases commands.commands.len() - i,
    {
        assert(cmds.take(i + 1).drop_last() == cmds.take(i as int));
        if !check_command_twips(&commands.commands[i]) {
            proof {
                lemma_prefix_twips(cmds, i + 1);
            }
            return false;
        }
        i += 1;
    }
    assert(cmds.take(i as int) == cmds);
    true
}

/// Whether all coordinates that a command moves by half a pixel still fit.
fn check_command_twips(cmd: &Command) -> (r: bool)
    ensures
        r == command_twips_ok(*cmd),
    decreases cmd,
{
    match cmd {
        Command::DrawLine { matrix, .. } => {
            matrix.tx.checked_add(HALF_PX).is_some() && matrix.ty.checked_add(HALF_PX).is_some()
        },
        Command::DrawLineRect { matrix, extent, .. } => check_line_rect(matrix, extent),
        Command::Blend(sub_commands, _) => check_twips(sub_commands),
        Command::RenderAlphaMask { maskee_commands, mask_commands } => {
            check_twips(mask_commands) && check_twips(maskee_commands)
        },
        _ => true,
    }
}

/// Whether a value fits in a twips coordinate.
fn check_fits(v: i64) -> (r: bool)
    ensures
        r == fits_twips(v as int),
{
    i32::MIN as i64 <= v && v <= i32::MAX as i64
}

/// Whether one coordinate of all corners, and of all edges, fits.
fn check_axis(origin: i32, first: i32, both: i32, second: i32) -> (r: bool)
    ensures
        r == ({
            &&& fits_twips(origin + HALF_PX)
            &&& fits_twips(origin + HALF_PX + first)
            &&& fits_twips(origin + HALF_PX + both)
            &&& fits_twips(origin + HALF_PX + second)
            &&& fits_twips(first as int)
            &&& fits_twips(both - first)
            &&& fits_twips(second - both)
            &&& fits_twips(-second)
        }),
{
    let o: i64 = origin as i64 + HALF_PX as i64;
    let (a, b, c): (i64, i64, i64) = (first as i64, both as i64, second as i64);
    check_fits(o) && check_fits(o + a) && check_fits(o + b) && check_fits(o + c) && check_fits(
        b - a,
    ) && check_fits(c - b) && check_fits(-c)
}

/// Whether all coordinates on the way to an outlined rectangle fit.
fn check_line_rect(matrix: &RenderMatrix, extent: &LineRectExtent) -> (r: bool)
    ensures
        r == line_rect_fits(*matrix, *extent),
{
    proof {
        let c = line_rect_corners(*matrix, *extent);
        if line_rect_fits(*matrix, *extent) {
            assert(fits_twips(c[0].0) && fits_twips(c[1].0) && fits_twips(c[2].0) && fits_twips(
                c[3].0,
            ));
            assert(fits_twips(c[(0int + 1) % 4].0 - c[0].0));
            assert(fits_twips(c[(1int + 1) % 4].0 - c[1].0));
            assert(fits_twips(c[(2int + 1) % 4].0 - c[2].0));
            assert(fits_twips(c[(3int + 1) % 4].0 - c[3].0));
        }
    }
    check_axis(matrix.tx, extent.first.x, extent.both.x, extent.second.x) && check_axis(
        matrix.ty,
        extent.first.y,
        extent.both.y,
        extent.second.y,
    )
}

/// Each command of a frame finds its own transforms: those collected from the
/// command at position `i` of a list stand in the buffer exactly where execution
/// has arrived when it comes to that command.
pub proof fn commands_find_their_transforms(
    ctx: RenderContext,
    cmds: Seq<Command>,
    i: int,
    st: RunState,
    blend: Option<TrivialBlend>,
)
    requires
        0 <= i < cmds.len(),
        st.index == 0,
    ensures
        ({
            let here = run_list(ctx, cmds.take(i), st, blend).1.index;
            let all = collected(cmds, ctx.bitmaps@);
            &&& here + command_transforms(cmds[i]) <= all.len()
            &&& all.subrange(here, here + command_transforms(cmds[i])) == collected_from(
                cmds[i],
                ctx.bitmaps@,
            )
        }),
{
    let m = ctx.bitmaps@;
    run_list_state(ctx, cmds.take(i), st, blend);
    collected_len(cmds.take(i), m);
    collected_from_len(cmds[i], m);
    assert(cmds.take(i + 1).drop_last() == cmds.take(i));
    lemma_collected_prefix(cmds, i + 1, m);
    let all = collected(cmds, m);
    let part = collected(cmds.take(i + 1), m);
    let here = collected(cmds.take(i), m).len() as int;
    let there = part.len() as int;
    assert(all.subrange(here, there) == part.subrange(here, there)) by {
        assert(part == all.take(there));
    }
    assert(part.subrange(here, there) == collected_from(cmds[i], m));
}

/// What is collected from a part of a list from its start is the start of what is
/// collected from the list.
proof fn lemma_collected_prefix(cmds: Seq<Command>, i: int, bitmaps: Map<usize, BitmapBinding>)
    requires
        0 <= i <= cmds.len(),
    ensures
        collected(cmds.take(i), bitmaps).len() <= collected(cmds, bitmaps).len(),
        collected(cmds.take(i), bitmaps) == collected(cmds, bitmaps).take(
            collected(cmds.take(i), bitmaps).len() as int,
        ),
    decreases cmds.len() - i,
{
    if i < cmds.len() {
        lemma_collected_prefix(cmds, i + 1, bitmaps);
        assert(cmds.take(i + 1).drop_last() == cmds.take(i));
        let short = collected(cmds.take(i), bitmaps);
        let long = collected(cmds.take(i + 1), bitmaps);
        assert(short == long.take(short.len() as int));
    } else {
        assert(cmds.take(i) == cmds);
    }
}

/// The outline of a rectangle is closed: each edge ends where the next begins.
pub proof fn line_rect_is_closed(matrix: RenderMatrix, extent: LineRectExtent, i: int)
    requires
        line_rect_fits(matrix, extent),
        0 <= i < 4,
    ensures
        ({
            let edges = line_rect_edges(matrix, extent);
            &&& edges.len() == 4
            &&& edges[i].start.x + edges[i].dx == edges[(i + 1) % 4].start.x
            &&& edges[i].start.y + edges[i].dy == edges[(i + 1) % 4].start.y
        }),
{
    let c = line_rect_corners(matrix, extent);
    assert(fits_twips(c[0].0) && fits_twips(c[1].0) && fits_twips(c[2].0) && fits_twips(c[3].0));
    assert(fits_twips(c[(0int + 1) % 4].0 - c[0].0));
    assert(fits_twips(c[(1int + 1) % 4].0 - c[1].0));
    assert(fits_twips(c[(2int + 1) % 4].0 - c[2].0));
    assert(fits_twips(c[(3int + 1) % 4].0 - c[3].0));
}

/// An entry of a world matrix.
#[derive(Clone, Copy, PartialEq, Eq, Structural, Debug)]
pub enum Coefficient {
    /// An IEEE-754 single precision bit pattern.
    Bits(u32),
    /// An exact number.
    Exact(Ratio),
}

/// A whole number.
pub open spec fn whole_coefficient(n: int) -> Coefficient {
    Coefficient::Exact(Ratio { num: n as i128, den: 1 })
}

/// A number of pixels, given in twips.
pub open spec fn pixels(twips: i32) -> Coefficient {
    Coefficient::Exact(Ratio { num: twips as i128, den: 20 })
}

/// Whether a matrix, by columns, takes the axes of an object where another one does, leaves the
/// third axis alone, and moves by the same translation, of which 20 twips are a pixel.
pub open spec fn is_world_matrix(w: [[Coefficient; 4]; 4], matrix: RenderMatrix) -> bool {
    let is = |c: Coefficient, num: int, den: int|
        c matches Coefficient::Exact(r) && r.den > 0 && r.num * den == num * r.den;
    &&& w@[0]@[0] == Coefficient::Bits(matrix.a) && w@[0]@[1] == Coefficient::Bits(matrix.b)
    &&& w@[1]@[0] == Coefficient::Bits(matrix.c) && w@[1]@[1] == Coefficient::Bits(matrix.d)
    &&& is(w@[0]@[2], 0, 1) && is(w@[0]@[3], 0, 1) && is(w@[1]@[2], 0, 1) && is(w@[1]@[3], 0, 1)
    &&& is(w@[2]@[0], 0, 1) && is(w@[2]@[1], 0, 1) && is(w@[2]@[2], 1, 1) && is(w@[2]@[3], 0, 1)
    &&& is(w@[3]@[0], matrix.tx as int, 20) && is(w@[3]@[1], matrix.ty as int, 20)
    &&& is(w@[3]@[2], 0, 1) && is(w@[3]@[3], 1, 1)
}

/// The world matrix of a display object, by columns: its two axes, the third axis
/// untouched, and its translation in pixels.
pub fn world_matrix(matrix: &RenderMatrix) -> (r: [[Coefficient; 4]; 4])
    ensures
        r == [
            [
                Coefficient::Bits(matrix.a),
                Coefficient::Bits(matrix.b),
                whole_coefficient(0),
                whole_coefficient(0),
            ],
            [
                Coefficient::Bits(matrix.c),
                Coefficient::Bits(matrix.d),
                whole_coefficient(0),
                whole_coefficient(0),
            ],
            [
                whole_coefficient(0),
                whole_coefficient(0),
                whole_coefficient(1),
                whole_coefficient(0),
            ],
            [pixels(matrix.tx), pixels(matrix.ty), whole_coefficient(0), whole_coefficient(1)],
        ],
        is_world_matrix(r, *matrix),
{
    let zero = Coefficient::Exact(Ratio { num: 0, den: 1 });
    let one = Coefficient::Exact(Ratio { num: 1, den: 1 });
    let tx = Coefficient::Exact(Ratio { num: matrix.tx as i128, den: 20 });
    let ty = Coefficient::Exact(Ratio { num: matrix.ty as i128, den: 20 });
    [
        [Coefficient::Bits(matrix.a), Coefficient::Bits(matrix.b), zero, zero],
        [Coefficient::Bits(matrix.c), Coefficient::Bits(matrix.d), zero, zero],
        [zero, zero, one, zero],
        [tx, ty, zero, one],
    ]
}

/// Whether every bitmap among transforms is scaled to its texture.
pub open spec fn all_scaled(transforms: Seq<Transforms>) -> bool {
    forall|i: int|
        0 <= i < transforms.len() ==> ((#[trigger] transforms[i]).world matches
            WorldMatrix::Bitmap { scale, .. } ==> scale is Some)
}

/// Where all bitmaps of a list are bound, every bitmap that it draws is scaled to
/// its texture.
pub proof fn bound_bitmaps_are_scaled(cmds: Seq<Command>, bitmaps: Map<usize, BitmapBinding>)
    requires
        all_bound(cmds, bitmaps),
    ensures
        all_scaled(collected(cmds, bitmaps)),
    decreases cmds,
{
    if cmds.len() > 0 {
        bound_bitmaps_are_scaled(cmds.drop_last(), bitmaps);
        lemma_command_scaled(cmds.last(), bitmaps);
    }
}

proof fn lemma_command_scaled(cmd: Command, bitmaps: Map<usize, BitmapBinding>)
    requires
        command_bound(cmd, bitmaps),
    ensures
        all_scaled(collected_from(cmd, bitmaps)),
    decreases cmd,
{
    match cmd {
        Command::Blend(sub, _) => {
            bound_bitmaps_are_scaled(sub.commands@, bitmaps);
        },
        Command::RenderAlphaMask { maskee_commands, mask_commands } => {
            bound_bitmaps_are_scaled(mask_commands.commands@, bitmaps);
            bound_bitmaps_are_scaled(maskee_commands.commands@, bitmaps);
        },
        _ => {},
    }
}

// ---- What transforms are collected ----

/// Whether a color transform takes white to a color: each channel is multiplied by its
/// own channel of the color, out of 255, in steps of 1/256 rounded down, and nothing is
/// added.
pub open spec fn takes_white_to(t: ColorTransform, color: Color) -> bool {
    &&& 255 * t.r_multiply <= 256 * color.r < 255 * (t.r_multiply + 1)
    &&& 255 * t.g_multiply <= 256 * color.g < 255 * (t.g_multiply + 1)
    &&& 255 * t.b_multiply <= 256 * color.b < 255 * (t.b_multiply + 1)
    &&& 255 * t.a_multiply <= 256 * color.a < 255 * (t.a_multiply + 1)
    &&& t.r_add == 0 && t.g_add == 0 && t.b_add == 0 && t.a_add == 0
}

/// Whether a transform draws with all six entries of a matrix, moved by so many twips along
/// both axes.
pub open spec fn draws_with(t: Transforms, m: RenderMatrix, moved: int) -> bool {
    t.world matches WorldMatrix::Matrix(w) && {
        &&& w.a == m.a && w.b == m.b && w.c == m.c && w.d == m.d
        &&& w.tx == m.tx + moved && w.ty == m.ty + moved
    }
}

/// Whether all eight entries of two color transforms are the same.
pub open spec fn same_color_transform(a: ColorTransform, b: ColorTransform) -> bool {
    &&& a.r_multiply == b.r_multiply && a.r_add == b.r_add
    &&& a.g_multiply == b.g_multiply && a.g_add == b.g_add
    &&& a.b_multiply == b.b_multiply && a.b_add == b.b_add
    &&& a.a_multiply == b.a_multiply && a.a_add == b.a_add
}

/// Whether a line leads from one position to another, given in twips.
pub open spec fn leads(l: LineSegment, from: (int, int), to: (int, int)) -> bool {
    &&& l.start.x == from.0 && l.start.y == from.1
    &&& l.start.x + l.dx == to.0 && l.start.y + l.dy == to.1
}

/// The color transform that a color is drawn with takes white to it.
pub proof fn colors_are_drawn_as_themselves(color: Color)
    ensures
        takes_white_to(spec_color_to_color_transform(color), color),
{
}

/// Display objects are drawn where and in what color they say. A shape, a bitmap and a
/// stage have the matrix and the color transform of their command, translation and addends
/// included; a bitmap also its pixel snapping and the size of its own binding. A rectangle
/// has the matrix of its command, a line that matrix moved by half a pixel, and an outline
/// leads around the four corners of its rectangle, all moved by half a pixel; they are
/// drawn in the color of their command. Masks need no transform.
pub proof fn objects_are_drawn_as_their_commands_say(
    cmd: Command,
    bitmaps: Map<usize, BitmapBinding>,
)
    requires
        command_twips_ok(cmd),
    ensures
        ({
            let all = collected_from(cmd, bitmaps);
            match cmd {
                Command::RenderShape { transform, .. } | Command::RenderStage3D { transform } => {
                    &&& all.len() == 1
                    &&& draws_with(all[0], transform.matrix, 0)
                    &&& same_color_transform(all[0].color, transform.color_transform)
                },
                Command::RenderBitmap { bitmap, transform, pixel_snapping, .. } => {
                    &&& all.len() == 1
                    &&& same_color_transform(all[0].color, transform.color_transform)
                    &&& all[0].world matches WorldMatrix::Bitmap {
                        matrix: m,
                        pixel_snapping: snapping,
                        scale,
                    } && {
                        &&& draws_with(
                            Transforms { world: WorldMatrix::Matrix(m), ..all[0] },
                            transform.matrix,
                            0,
                        )
                        &&& snapping == pixel_snapping
                        &&& scale is Some == bitmaps.contains_key(bitmap.key)
                        &&& scale matches Some(size) ==> size.width == bitmaps[bitmap.key].width
                            && size.height == bitmaps[bitmap.key].height
                    }
                },
                Command::DrawRect { color, matrix } => {
                    &&& all.len() == 1
                    &&& draws_with(all[0], matrix, 0)
                    &&& takes_white_to(all[0].color, color)
                },
                Command::DrawLine { color, matrix } => {
                    &&& all.len() == 1
                    &&& draws_with(all[0], matrix, 10)
                    &&& takes_white_to(all[0].color, color)
                },
                Command::DrawLineRect { color, matrix, extent } => {
                    let (x, y) = (matrix.tx + 10, matrix.ty + 10);
                    let first = (x + extent.first.x, y + extent.first.y);
                    let both = (x + extent.both.x, y + extent.both.y);
                    let second = (x + extent.second.x, y + extent.second.y);
                    &&& all.len() == 4
                    &&& all[0].world matches WorldMatrix::Line(l) && leads(l, (x, y), first)
                    &&& all[1].world matches WorldMatrix::Line(l) && leads(l, first, both)
                    &&& all[2].world matches WorldMatrix::Line(l) && leads(l, both, second)
                    &&& all[3].world matches WorldMatrix::Line(l) && leads(l, second, (x, y))
                    &&& forall|i: int|
                        0 <= i < 4 ==> takes_white_to((#[trigger] all[i]).color, color)
                },
                Command::PushMask
                | Command::ActivateMask
                | Command::DeactivateMask
                | Command::PopMask => all.len() == 0,
                Command::Blend(sub, _) => all == collected(sub.commands@, bitmaps),
                Command::RenderAlphaMask { maskee_commands, mask_commands } => all == collected(
                    mask_commands.commands@,
                    bitmaps,
                ) + collected(maskee_commands.commands@, bitmaps),
            }
        }),
{
    if let Command::DrawLineRect { matrix, extent, .. } = cmd {
        let c = line_rect_corners(matrix, extent);
        assert(fits_twips(c[0].0) && fits_twips(c[1].0) && fits_twips(c[2].0) && fits_twips(
            c[3].0,
        ));
        assert(fits_twips(c[(0int + 1) % 4].0 - c[0].0));
        assert(fits_twips(c[(1int + 1) % 4].0 - c[1].0));
        assert(fits_twips(c[(2int + 1) % 4].0 - c[2].0));
        assert(fits_twips(c[(3int + 1) % 4].0 - c[3].0));
    }
}

/// The transforms of a list are those of its commands, one after the other: what is
/// collected from two lists in a row is what is collected from both.
pub proof fn transforms_are_collected_in_order(
    a: Seq<Command>,
    b: Seq<Command>,
    bitmaps: Map<usize, BitmapBinding>,
)
    ensures
        collected(a + b, bitmaps) == collected(a, bitmaps) + collected(b, bitmaps),
        b.len() == 1 ==> collected(b, bitmaps) == collected_from(b[0], bitmaps),
        b.len() == 0 ==> collected(b, bitmaps).len() == 0,
    decreases b.len(),
{
    if b.len() == 0 {
        assert(a + b == a);
        assert(collected(a, bitmaps) + collected(b, bitmaps) =~= collected(a, bitmaps));
    } else {
        let init = b.drop_last();
        transforms_are_collected_in_order(a, init, bitmaps);
        assert((a + b).drop_last() == a + init);
        assert(collected(a, bitmaps) + collected(b, bitmaps) =~= collected(a, bitmaps) + collected(
            init,
            bitmaps,
        ) + collected_from(b.last(), bitmaps));
        if b.len() == 1 {
            assert(init == Seq::<Command>::empty());
            reveal_with_fuel(collected, 2);
            assert(collected(init, bitmaps) =~= Seq::<Transforms>::empty());
            assert(collected(b, bitmaps) =~= collected_from(b[0], bitmaps));
        }
    }
}

/// Coordinates fit where half a pixel can be added to them, and for an outline where its corners
/// and the ways between them can be counted in 32 bits. Other commands add nothing.
pub proof fn coordinates_fit_where_they_can_be_counted(cmd: Command)
    ensures
        match cmd {
            Command::DrawLine { matrix, .. } => command_twips_ok(cmd) <==> matrix.tx <= 0x7fff_ffff
                - 10 && matrix.ty <= 0x7fff_ffff - 10,
            Command::DrawLineRect { matrix, extent, .. } => command_twips_ok(cmd) <==> {
                let fits = |v: int| -0x8000_0000 <= v <= 0x7fff_ffff;
                let (x, y) = (matrix.tx + 10, matrix.ty + 10);
                let (a, b, c) = (extent.first, extent.both, extent.second);
                &&& fits(x) && fits(x + a.x) && fits(x + b.x) && fits(x + c.x)
                &&& fits(y) && fits(y + a.y) && fits(y + b.y) && fits(y + c.y)
                &&& fits(b.x - a.x) && fits(c.x - b.x) && fits(-c.x)
                &&& fits(b.y - a.y) && fits(c.y - b.y) && fits(-c.y)
            },
            Command::Blend(sub, _) => command_twips_ok(cmd) <==> twips_ok(sub.commands@),
            Command::RenderAlphaMask { maskee_commands, mask_commands } => command_twips_ok(cmd)
                <==> twips_ok(mask_commands.commands@) && twips_ok(maskee_commands.commands@),
            _ => command_twips_ok(cmd),
        },
{
    if let Command::DrawLineRect { matrix, extent, .. } = cmd {
        let c = line_rect_corners(matrix, extent);
        if line_rect_fits(matrix, extent) {
            assert(fits_twips(c[0].0) && fits_twips(c[1].0) && fits_twips(c[2].0) && fits_twips(
                c[3].0,
            ));
            assert(fits_twips(c[(0int + 1) % 4].0 - c[0].0));
            assert(fits_twips(c[(1int + 1) % 4].0 - c[1].0));
            assert(fits_twips(c[(2int + 1) % 4].0 - c[2].0));
            assert(fits_twips(c[(3int + 1) % 4].0 - c[3].0));
        }
    }
}

} // verus!
