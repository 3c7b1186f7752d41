//! The Bézier render backend: what is set up, kept between frames and planned for
//! each frame.
use crate::bitmaps::{bind_list, BitmapBindCache, BitmapBinding};
use crate::commands::{contains_complex_blend, BitmapHandle, CommandList, ShapeHandle};
use crate::fill::interior;
use crate::filters::{
    is_plan, output_size, warned_after, Filter, FilterPlan, FilterSource, Filters, WarnedFilters,
};
use crate::frame::{
    check_toplevel_masks, execute_toplevel, has_complex_blends, pass_views, toplevel_masks_ok,
    toplevel_passes, LoadOp, Pass,
};
use crate::geometry::{Color, Point, Ratio, Size};
use crate::gradient::whole;
use crate::mesh::{are_draws, build_mesh, shape_fits, BezierMesh, DistilledShape};
use crate::render::{
    addressable, count_transforms, transform_count, ExecState, PipelineSets, RenderContext,
    RunState,
};
use crate::target::{RenderTarget, TextureDescriptor, TextureFormat, TextureUsages};
use crate::transforms::{
    check_twips, collect_transforms, collected, spec_align_to, twips_ok, TransformQueue,
    MAX_TRANSFORMS, TRANSFORMS_SIZE,
};
use crate::vertex::{
    BezierTexVertex, BezierVertex, GlobalsUniform, MaskState, Matrix4, Offset, Position, Uv,
};
use std::collections::HashMap;
use std::sync::Arc;
use vstd::prelude::*;

verus! {

/// One pixel, in units of 1/8192 twip.
pub const PIXEL: i64 = 163840;

/// Opaque white.
pub open spec fn white() -> Color {
    Color { r: 255, g: 255, b: 255, a: 255 }
}

/// Unit geometry for DrawRect, DrawLine, DrawLineRect, and RenderBitmap.
#[derive(Debug)]
pub struct UnitQuad {
    /// Unit quad vertices [0,0]-[1,0]-[1,1]-[0,1] with white color.
    pub color_vertices: Vec<BezierVertex>,
    /// Unit quad vertices [0,0]-[1,0]-[1,1]-[0,1].
    pub tex_vertices: Vec<BezierTexVertex>,
    /// Triangle indices for the unit quad: [0,1,2, 0,2,3].
    pub indices: Vec<u32>,
}

/// The corners of the unit quad.
pub open spec fn unit_quad_vertices() -> Seq<BezierTexVertex> {
    seq![
        interior(Point { x: 0, y: 0 }),
        interior(Point { x: PIXEL, y: 0 }),
        interior(Point { x: PIXEL, y: PIXEL }),
        interior(Point { x: 0, y: PIXEL }),
    ]
}

/// A corner of the unit quad.
fn unit_corner(x: i64, y: i64) -> (r: BezierTexVertex)
    ensures
        r == interior(Point { x, y }),
{
    BezierTexVertex {
        position: Position { point: Point { x, y }, offset: Offset::Zero },
        uv: Uv { u_halves: 0, v_halves: 0 },
        fill_type: 0,
    }
}

impl UnitQuad {
    /// The unit quad. Its actual color comes from the color transform.
    pub fn new() -> (r: UnitQuad)
        ensures
            r.tex_vertices@ == unit_quad_vertices(),
            r.color_vertices@ == unit_quad_vertices().map_values(
                |v: BezierTexVertex| v.spec_with_color(white()),
            ),
            r.indices@ == seq![0u32, 1, 2, 0, 2, 3],
    {
        let tex_vertices: Vec<BezierTexVertex> = vec![
            unit_corner(0, 0),
            unit_corner(PIXEL, 0),
            unit_corner(PIXEL, PIXEL),
            unit_corner(0, PIXEL),
        ];
        assert(tex_vertices@ == unit_quad_vertices());
        let color_vertices = crate::fill::color_vertices(
            &tex_vertices,
            Color { r: 255, g: 255, b: 255, a: 255 },
        );
        let indices: Vec<u32> = vec![0, 1, 2, 0, 2, 3];
        assert(indices@ == seq![0u32, 1, 2, 0, 2, 3]);
        UnitQuad { color_vertices, tex_vertices, indices }
    }
}

/// The orthographic projection for a viewport.
pub open spec fn view_matrix(size: Size) -> Matrix4 {
    [
        [Ratio { num: 2, den: size.width as i128 }, whole(0), whole(0), whole(0)],
        [whole(0), Ratio { num: (-2) as i128, den: size.height as i128 }, whole(0), whole(0)],
        [whole(0), whole(0), whole(1), whole(0)],
        [whole(-1), whole(1), whole(0), whole(1)],
    ]
}

/// Build an orthographic projection view matrix for the given viewport size.
///
/// Maps pixel coordinates [0, width] x [0, height] to NDC [-1, 1] x [-1, 1].
/// Display objects use a top-left origin with Y increasing downward, which maps to
/// standard GPU NDC with Y flipped.
pub fn build_view_matrix(width: u32, height: u32) -> (r: Matrix4)
    ensures
        r == view_matrix(Size { width, height }),
{
    let zero = Ratio { num: 0, den: 1 };
    let one = Ratio { num: 1, den: 1 };
    [
        [Ratio { num: 2, den: width as i128 }, zero, zero, zero],
        [zero, Ratio { num: -2, den: height as i128 }, zero, zero],
        [zero, zero, one, zero],
        [Ratio { num: -1, den: 1 }, one, zero, one],
    ]
}

/// The view matrix takes the viewport to normalized device coordinates, top down:
/// `x` to `2x / width - 1` and `y` to `1 - 2y / height`. So the top left corner is
/// at (-1, 1) and the bottom right corner at (1, -1).
pub proof fn view_matrix_maps_the_viewport(size: Size, x: int, y: int)
    ensures
        ({
            let m = view_matrix(size);
            let (sx, sy) = (m@[0]@[0], m@[1]@[1]);
            let (tx, ty) = (m@[3]@[0], m@[3]@[1]);
            &&& sx.den == size.width && sy.den == size.height && tx.den == 1 && ty.den == 1
            &&& sx.num * x + tx.num * sx.den == 2 * x - size.width
            &&& sy.num * y + ty.num * sy.den == size.height - 2 * y
            &&& x == 0 ==> sx.num * x + tx.num * sx.den == -sx.den
            &&& x == size.width ==> sx.num * x + tx.num * sx.den == sx.den
            &&& y == 0 ==> sy.num * y + ty.num * sy.den == sy.den
            &&& y == size.height ==> sy.num * y + ty.num * sy.den == -sy.den
        }),
{
    let m = view_matrix(size);
    let (sx, sy) = (m@[0]@[0], m@[1]@[1]);
    let (tx, ty) = (m@[3]@[0], m@[3]@[1]);
    assert(sx.num * x == 2 * x) by (nonlinear_arith)
        requires
            sx.num == 2,
    ;
    assert(sy.num * y == -(2 * y)) by (nonlinear_arith)
        requires
            sy.num == -2,
    ;
    assert(tx.num * sx.den == -sx.den) by (nonlinear_arith)
        requires
            tx.num == -1,
    ;
    assert(ty.num * sy.den == sy.den) by (nonlinear_arith)
        requires
            ty.num == 1,
    ;
}

/// A size with at least one pixel each way.
pub fn at_least_one(size: Size) -> (r: Size)
    ensures
        r == output_size(size),
{
    crate::filters::filter_texture_size(size)
}

/// A texture that is only drawn to.
pub open spec fn attachment(size: Size, sample_count: u32, format: TextureFormat) -> TextureDescriptor {
    TextureDescriptor {
        size: output_size(size),
        sample_count,
        format,
        usage: TextureUsages {
            render_attachment: true,
            texture_binding: false,
            copy_src: false,
            copy_dst: false,
        },
    }
}

/// A texture that is only drawn to.
fn make_attachment(size: Size, sample_count: u32, format: TextureFormat) -> (r: TextureDescriptor)
    ensures
        r == attachment(size, sample_count, format),
{
    TextureDescriptor {
        size: at_least_one(size),
        sample_count,
        format,
        usage: TextureUsages {
            render_attachment: true,
            texture_binding: false,
            copy_src: false,
            copy_dst: false,
        },
    }
}

/// A single-sampled texture at viewport size.
pub open spec fn viewport_texture(
    size: Size,
    format: TextureFormat,
    usage: TextureUsages,
) -> TextureDescriptor {
    TextureDescriptor { size: output_size(size), sample_count: 1, format, usage }
}

/// What the offscreen framebuffer is used for: it is drawn to, blitted from and
/// copied for blending.
pub open spec fn offscreen_usage() -> TextureUsages {
    TextureUsages {
        render_attachment: true,
        texture_binding: true,
        copy_src: true,
        copy_dst: false,
    }
}

/// What the blend buffer is used for: the framebuffer is copied to it, and it is
/// read while compositing.
pub open spec fn blend_usage() -> TextureUsages {
    TextureUsages {
        render_attachment: false,
        texture_binding: true,
        copy_src: false,
        copy_dst: true,
    }
}

/// The sample counts that are tried.
pub open spec fn is_sample_count(n: int) -> bool {
    n == 16 || n == 8 || n == 4 || n == 2 || n == 1
}

/// Determine the highest supported sample count up to the desired count. One sample
/// is always supported.
pub fn supported_sample_count(desired: u32, supported: &Vec<u32>) -> (r: u32)
    ensures
        is_sample_count(r as int),
        r == 1 || supported@.contains(r),
        desired >= 1 ==> r <= desired,
        desired == 0 ==> r == 1,
        forall|n: u32| #[trigger]
            supported@.contains(n) && is_sample_count(n as int) && n <= desired ==> n <= r,
{
    let mut best: u32 = 1;
    let mut i: usize = 0;
    while i < supported.len()
        invariant
            i <= supported@.len(),
            is_sample_count(best as int),
            best == 1 || (supported@.contains(best) && best <= desired),
            forall|j: int|
                0 <= j < i && is_sample_count((#[trigger] supported@[j]) as int) && supported@[j]
                    <= desired ==> supported@[j] <= best,
        decreases supported.len() - i,
    {
        let n: u32 = supported[i];
        if (n == 16 || n == 8 || n == 4 || n == 2) && n <= desired && n > best {
            assert(supported@[i as int] == n);
            best = n;
        }
        i += 1;
    }
    best
}

/// A texture of a pass.
#[derive(Clone, Copy, PartialEq, Eq, Structural, Debug)]
pub enum AttachmentView {
    Target,
    Msaa,
}

/// What becomes of an attachment when a pass ends.
#[derive(Clone, Copy, PartialEq, Eq, Structural, Debug)]
pub enum StoreOp {
    Store,
    Discard,
}

/// The color attachment of a pass.
#[derive(Clone, Copy, PartialEq, Eq, Structural, Debug)]
pub struct ColorAttachment {
    pub view: AttachmentView,
    pub resolve_target: Option<AttachmentView>,
    pub load: LoadOp,
    pub store: StoreOp,
    /// The slice of a three-dimensional texture.
    pub depth_slice: Option<u32>,
}

/// Build a color attachment for a render pass, handling MSAA resolve.
/// With an MSAA texture, render to it and resolve to the target.
/// Otherwise render directly to the target.
pub fn make_color_attachment(has_msaa: bool, load: LoadOp) -> (r: ColorAttachment)
    ensures
        r.load == load,
        r.store == StoreOp::Store,
        r.depth_slice is None,
        has_msaa ==> r.view == AttachmentView::Msaa && r.resolve_target == Some(
            AttachmentView::Target,
        ),
        !has_msaa ==> r.view == AttachmentView::Target && r.resolve_target is None,
{
    if has_msaa {
        ColorAttachment {
            view: AttachmentView::Msaa,
            resolve_target: Some(AttachmentView::Target),
            load,
            store: StoreOp::Store,
            depth_slice: None,
        }
    } else {
        ColorAttachment {
            view: AttachmentView::Target,
            resolve_target: None,
            load,
            store: StoreOp::Store,
            depth_slice: None,
        }
    }
}

/// The textures that a complex blend's content is drawn with.
#[derive(Clone, Copy, PartialEq, Eq, Structural, Debug)]
pub struct BlendTextures {
    pub intermediate: TextureDescriptor,
    pub msaa: Option<TextureDescriptor>,
    pub depth_stencil: TextureDescriptor,
}

/// The size of the viewport, and its scale factor as an IEEE-754 double precision
/// bit pattern.
#[derive(Clone, Copy, PartialEq, Eq, Structural, Debug)]
pub struct ViewportDimensions {
    pub width: u32,
    pub height: u32,
    pub scale_factor: u64,
}

/// What has to be updated when the viewport changes.
#[derive(Debug)]
pub struct ViewportUpdate {
    pub globals: GlobalsUniform,
    pub depth_stencil: TextureDescriptor,
    pub msaa: Option<TextureDescriptor>,
}

/// What has to be updated when the number of samples changes.
#[derive(Clone, Copy, PartialEq, Eq, Structural, Debug)]
pub struct QualityUpdate {
    pub sample_count: u32,
    pub depth_stencil: TextureDescriptor,
    pub msaa: Option<TextureDescriptor>,
}

/// How a frame is drawn.
#[derive(Debug)]
pub struct FramePlan {
    /// Where the transforms are written to the transform buffer.
    pub upload_offsets: Vec<u64>,
    /// Draw to the offscreen framebuffer and blit it to the target at the end.
    pub needs_offscreen: bool,
    /// The offscreen framebuffer, where it has to be created.
    pub create_offscreen: Option<TextureDescriptor>,
    /// The blend buffer, where it has to be created.
    pub create_blend: Option<TextureDescriptor>,
    pub passes: Vec<Pass>,
}

/// The Bézier render backend.
#[derive(Debug)]
pub struct BezierRenderBackend<T: RenderTarget> {
    pub target: T,
    /// Samples per pixel.
    pub sample_count: u32,
    pub surface_format: TextureFormat,
    pub viewport: ViewportDimensions,
    /// Registered shapes.
    pub meshes: Vec<Arc<BezierMesh>>,
    /// Per-frame transforms.
    pub transforms: TransformQueue,
    /// Bitmap bind groups of the frame.
    pub bitmaps: BitmapBindCache,
    pub pipelines: PipelineSets,
    /// Whether fills and round strokes are evaluated analytically.
    pub analytic: bool,
    /// The size of the offscreen framebuffer, if there is one.
    pub offscreen_buffer: Option<Size>,
    /// The size of the blend buffer, if there is one.
    pub blend_buffer: Option<Size>,
}

/// One in IEEE-754 double precision.
pub const SCALE_ONE: u64 = 0x3ff0_0000_0000_0000;

/// The size of a viewport.
pub open spec fn viewport_size(v: ViewportDimensions) -> Size {
    Size { width: v.width, height: v.height }
}

/// The MSAA framebuffer, where there is one.
pub open spec fn msaa_texture(
    size: Size,
    sample_count: u32,
    format: TextureFormat,
) -> Option<TextureDescriptor> {
    if sample_count > 1 {
        Some(attachment(size, sample_count, format))
    } else {
        None
    }
}

/// The MSAA framebuffer, where there is one.
fn make_msaa_texture(size: Size, sample_count: u32, format: TextureFormat) -> (r: Option<
    TextureDescriptor,
>)
    ensures
        r == msaa_texture(size, sample_count, format),
{
    if sample_count > 1 {
        Some(make_attachment(size, sample_count, format))
    } else {
        None
    }
}

/// The textures that a complex blend's content is drawn with, on a target of a given
/// size. The intermediate texture is always single-sampled; MSAA resolves into it.
pub open spec fn blend_textures_of(
    size: Size,
    sample_count: u32,
    format: TextureFormat,
) -> BlendTextures {
    BlendTextures {
        intermediate: viewport_texture(
            size,
            format,
            TextureUsages {
                render_attachment: true,
                texture_binding: true,
                copy_src: false,
                copy_dst: false,
            },
        ),
        msaa: msaa_texture(size, sample_count, format),
        depth_stencil: attachment(size, sample_count, TextureFormat::Depth24PlusStencil8),
    }
}

/// The textures that a complex blend's content is drawn with.
fn make_blend_textures(size: Size, sample_count: u32, format: TextureFormat) -> (r: BlendTextures)
    ensures
        r == blend_textures_of(size, sample_count, format),
{
    BlendTextures {
        intermediate: TextureDescriptor {
            size: at_least_one(size),
            sample_count: 1,
            format,
            usage: TextureUsages {
                render_attachment: true,
                texture_binding: true,
                copy_src: false,
                copy_dst: false,
            },
        },
        msaa: make_msaa_texture(size, sample_count, format),
        depth_stencil: make_attachment(size, sample_count, TextureFormat::Depth24PlusStencil8),
    }
}

/// The offscreen framebuffer for a target of a given size.
fn make_offscreen(size: Size, format: TextureFormat) -> (r: TextureDescriptor)
    ensures
        r == viewport_texture(size, format, offscreen_usage()),
{
    TextureDescriptor {
        size: at_least_one(size),
        sample_count: 1,
        format,
        usage: TextureUsages {
            render_attachment: true,
            texture_binding: true,
            copy_src: true,
            copy_dst: false,
        },
    }
}

/// The blend buffer for a target of a given size.
fn make_blend_buffer(size: Size, format: TextureFormat) -> (r: TextureDescriptor)
    ensures
        r == viewport_texture(size, format, blend_usage()),
{
    TextureDescriptor {
        size: at_least_one(size),
        sample_count: 1,
        format,
        usage: TextureUsages {
            render_attachment: false,
            texture_binding: true,
            copy_src: false,
            copy_dst: true,
        },
    }
}

/// A buffer has to be created where there is none of the viewport's size.
pub open spec fn needs_recreate(buffer: Option<Size>, size: Size) -> bool {
    buffer != Some(output_size(size))
}

/// Where transforms are written to the transform buffer: one after the other.
pub open spec fn offsets_of(transforms: TransformQueue) -> Seq<u64> {
    Seq::new(transforms.data@.len(), |i: int| (i * transforms.aligned_size) as u64)
}

/// Where execution stands at the start of a frame.
pub open spec fn frame_start() -> RunState {
    RunState { index: 0, mask_state: MaskState::NoMask, num_masks: 0 }
}

/// Whether a frame can be drawn: its masks are balanced, its coordinates and
/// transforms can be counted.
pub open spec fn can_draw(commands: CommandList, aligned_size: u32) -> bool {
    &&& toplevel_masks_ok(commands.commands@, 0)
    &&& twips_ok(commands.commands@)
    &&& transform_count(commands.commands@) <= addressable(aligned_size as int)
}

impl<T: RenderTarget> BezierRenderBackend<T> {
    /// Each mesh knows its position, and the per-frame state is well-formed.
    pub open spec fn wf(self) -> bool {
        &&& self.transforms.wf()
        &&& forall|i: int| 0 <= i < self.meshes@.len() ==> (#[trigger] self.meshes@[i]).id == i
    }

    /// What the commands of the frame are executed against.
    pub open spec fn context(&self) -> RenderContext<'_> {
        RenderContext {
            aligned_size: self.transforms.aligned_size,
            pipelines: self.pipelines,
            bitmaps: &self.bitmaps.bindings,
        }
    }

    /// Create a new Bézier render backend with the given render target, for a
    /// device with the given uniform buffer alignment.
    pub fn new(
        target: T,
        min_uniform_buffer_offset_alignment: u32,
        pipelines: PipelineSets,
        analytic: bool,
    ) -> (r: BezierRenderBackend<T>)
        requires
            min_uniform_buffer_offset_alignment > 0,
            MAX_TRANSFORMS * spec_align_to(
                TRANSFORMS_SIZE as int,
                min_uniform_buffer_offset_alignment as int,
            ) <= u32::MAX,
        ensures
            r.wf(),
            r.target == target,
            r.sample_count == 1,
            r.surface_format == target.spec_format(),
            r.viewport == (ViewportDimensions {
                width: target.spec_size().width,
                height: target.spec_size().height,
                scale_factor: SCALE_ONE,
            }),
            r.meshes@.len() == 0,
            r.transforms.data@.len() == 0,
            r.transforms.aligned_size == spec_align_to(
                TRANSFORMS_SIZE as int,
                min_uniform_buffer_offset_alignment as int,
            ),
            r.bitmaps@ == Map::<usize, BitmapBinding>::empty(),
            r.pipelines == pipelines,
            r.analytic == analytic,
            r.offscreen_buffer is None,
            r.blend_buffer is None,
    {
        let surface_format = target.format();
        let (width, height): (u32, u32) = (target.width(), target.height());
        BezierRenderBackend {
            target,
            sample_count: 1,
            surface_format,
            viewport: ViewportDimensions { width, height, scale_factor: SCALE_ONE },
            meshes: Vec::new(),
            transforms: TransformQueue::new(min_uniform_buffer_offset_alignment),
            bitmaps: BitmapBindCache::new(),
            pipelines,
            analytic,
            offscreen_buffer: None,
            blend_buffer: None,
        }
    }

    /// Get a reference to the render target.
    pub fn target(&self) -> (r: &T)
        ensures
            *r == self.target,
    {
        &self.target
    }

    /// The global uniforms: the view matrix of the viewport.
    pub fn globals(&self) -> (r: GlobalsUniform)
        ensures
            r.view_matrix == view_matrix(viewport_size(self.viewport)),
    {
        GlobalsUniform {
            view_matrix: build_view_matrix(self.viewport.width, self.viewport.height),
        }
    }

    /// The depth/stencil buffer for masking support.
    pub fn depth_stencil(&self) -> (r: TextureDescriptor)
        ensures
            r == attachment(
                viewport_size(self.viewport),
                self.sample_count,
                TextureFormat::Depth24PlusStencil8,
            ),
    {
        make_attachment(
            Size { width: self.viewport.width, height: self.viewport.height },
            self.sample_count,
            TextureFormat::Depth24PlusStencil8,
        )
    }

    /// The MSAA framebuffer texture if there is more than one sample per pixel.
    pub fn msaa_framebuffer(&self) -> (r: Option<TextureDescriptor>)
        ensures
            r == msaa_texture(
                viewport_size(self.viewport),
                self.sample_count,
                self.surface_format,
            ),
    {
        make_msaa_texture(
            Size { width: self.viewport.width, height: self.viewport.height },
            self.sample_count,
            self.surface_format,
        )
    }

    /// The textures that a complex blend's content is drawn with. The intermediate
    /// texture is always single-sampled; MSAA resolves into it.
    pub fn blend_textures(&self) -> (r: BlendTextures)
        ensures
            r == blend_textures_of(
                viewport_size(self.viewport),
                self.sample_count,
                self.surface_format,
            ),
    {
        make_blend_textures(
            Size { width: self.viewport.width, height: self.viewport.height },
            self.sample_count,
            self.surface_format,
        )
    }

    /// Sets the size of the viewport, at least one pixel each way.
    pub fn set_viewport_dimensions(&mut self, dimensions: ViewportDimensions) -> (r:
        ViewportUpdate)
        requires
            old(self).wf(),
            old(self).target.allows(output_size(viewport_size(dimensions))),
        ensures
            final(self).wf(),
            viewport_size(final(self).viewport) == output_size(viewport_size(dimensions)),
            final(self).viewport.scale_factor == dimensions.scale_factor,
            final(self).target.spec_size() == output_size(viewport_size(dimensions)),
            final(self).target.spec_format() == old(self).target.spec_format(),
            forall|size: Size| #[trigger]
                final(self).target.allows(size) == old(self).target.allows(size),
            final(self).sample_count == old(self).sample_count,
            final(self).surface_format == old(self).surface_format,
            final(self).meshes == old(self).meshes,
            final(self).transforms == old(self).transforms,
            final(self).bitmaps == old(self).bitmaps,
            final(self).pipelines == old(self).pipelines,
            final(self).analytic == old(self).analytic,
            final(self).offscreen_buffer == old(self).offscreen_buffer,
            final(self).blend_buffer == old(self).blend_buffer,
            r.globals.view_matrix == view_matrix(output_size(viewport_size(dimensions))),
            r.depth_stencil == attachment(
                viewport_size(dimensions),
                old(self).sample_count,
                TextureFormat::Depth24PlusStencil8,
            ),
            r.msaa == msaa_texture(
                viewport_size(dimensions),
                old(self).sample_count,
                old(self).surface_format,
            ),
    {
        let size = at_least_one(Size { width: dimensions.width, height: dimensions.height });
        self.viewport = ViewportDimensions {
            width: size.width,
            height: size.height,
            scale_factor: dimensions.scale_factor,
        };
        self.target.resize(size.width, size.height);
        ViewportUpdate {
            globals: self.globals(),
            depth_stencil: self.depth_stencil(),
            msaa: self.msaa_framebuffer(),
        }
    }

    /// The size of the viewport.
    pub fn viewport_dimensions(&self) -> (r: ViewportDimensions)
        ensures
            r == self.viewport,
    {
        self.viewport
    }

    /// Sets the number of samples per pixel to the highest supported count up to
    /// the desired one. None where that changes nothing.
    pub fn set_quality(&mut self, desired: u32, supported: &Vec<u32>) -> (r: Option<
        QualityUpdate,
    >)
        requires
            old(self).wf(),
        ensures
            final(self).wf(),
            is_sample_count(final(self).sample_count as int),
            final(self).sample_count == 1 || supported@.contains(final(self).sample_count),
            desired >= 1 ==> final(self).sample_count <= desired,
            desired == 0 ==> final(self).sample_count == 1,
            forall|n: u32| #[trigger]
                supported@.contains(n) && is_sample_count(n as int) && n <= desired ==> n
                    <= final(self).sample_count,
            *final(self) == (BezierRenderBackend {
                sample_count: final(self).sample_count,
                ..*old(self)
            }),
            r is None <==> final(self).sample_count == old(self).sample_count,
            r matches Some(update) ==> update == (QualityUpdate {
                sample_count: final(self).sample_count,
                depth_stencil: attachment(
                    viewport_size(old(self).viewport),
                    final(self).sample_count,
                    TextureFormat::Depth24PlusStencil8,
                ),
                msaa: msaa_texture(
                    viewport_size(old(self).viewport),
                    final(self).sample_count,
                    old(self).surface_format,
                ),
            }),
    {
        let sample_count: u32 = supported_sample_count(desired, supported);
        if sample_count == self.sample_count {
            return None;
        }
        self.sample_count = sample_count;
        Some(
            QualityUpdate {
                sample_count,
                depth_stencil: self.depth_stencil(),
                msaa: self.msaa_framebuffer(),
            },
        )
    }

    /// Builds the mesh of a shape and keeps it. The bitmaps that the shape is
    /// painted with are given by their ids.
    pub fn register_shape(
        &mut self,
        shape: &DistilledShape,
        bitmap_handles: &HashMap<u16, BitmapHandle>,
    ) -> (r: ShapeHandle)
        requires
            old(self).wf(),
            shape_fits(shape.paths@, old(self).analytic),
        ensures
            final(self).wf(),
            r.0.id == old(self).meshes@.len(),
            are_draws(r.0.draws@, shape.paths@, bitmap_handles@, old(self).analytic),
            final(self).meshes@ == old(self).meshes@.push(r.0),
            *final(self) == (BezierRenderBackend { meshes: final(self).meshes, ..*old(self) }),
    {
        let mesh = build_mesh(self.meshes.len(), shape, bitmap_handles, self.analytic);
        let arc = Arc::new(mesh);
        self.meshes.push(arc.clone());
        ShapeHandle(arc)
    }

    /// Whether a frame can be drawn: see [`can_draw`].
    pub fn can_submit(&self, commands: &CommandList) -> (r: bool)
        requires
            self.wf(),
        ensures
            r == can_draw(*commands, self.transforms.aligned_size),
    {
        let aligned: u32 = self.transforms.aligned_size;
        let count: u32 = match count_transforms(commands) {
            Some(count) => count,
            None => {
                proof {
                    crate::render::lemma_addressable(aligned as int);
                }
                return false;
            },
        };
        check_toplevel_masks(commands, 0).is_some() && check_twips(commands) && count as u64
            <= u32::MAX as u64 / aligned as u64 + 1
    }

    /// Notes that a buffer of the viewport's size exists. Returns whether it has to
    /// be created.
    fn ensure_buffer(buffer: &mut Option<Size>, size: Size) -> (r: bool)
        ensures
            r == needs_recreate(*old(buffer), size),
            *final(buffer) == Some(output_size(size)),
    {
        let size = at_least_one(size);
        let recreate = match buffer {
            Some(existing) => existing.width != size.width || existing.height != size.height,
            None => true,
        };
        *buffer = Some(size);
        recreate
    }

    /// Resets the per-frame state and plans a frame. Where the target has no
    /// texture to draw to (`frame_available` is false), that is all.
    pub fn submit_frame(
        &mut self,
        clear: Color,
        commands: &CommandList,
        frame_available: bool,
    ) -> (r: Option<FramePlan>)
        requires
            old(self).wf(),
            frame_available ==> can_draw(*commands, old(self).transforms.aligned_size),
        ensures
            final(self).wf(),
            r is Some == frame_available,
            final(self).target == old(self).target,
            final(self).sample_count == old(self).sample_count,
            final(self).surface_format == old(self).surface_format,
            final(self).viewport == old(self).viewport,
            final(self).meshes == old(self).meshes,
            final(self).pipelines == old(self).pipelines,
            final(self).analytic == old(self).analytic,
            final(self).transforms.aligned_size == old(self).transforms.aligned_size,
            !frame_available ==> {
                &&& final(self).transforms.data@.len() == 0
                &&& final(self).bitmaps@ == Map::<usize, BitmapBinding>::empty()
                &&& final(self).offscreen_buffer == old(self).offscreen_buffer
                &&& final(self).blend_buffer == old(self).blend_buffer
            },
            r matches Some(plan) ==> {
                let cmds = commands.commands@;
                let size = viewport_size(old(self).viewport);
                let offscreen = contains_complex_blend(cmds);
                &&& final(self).bitmaps@ == bind_list(
                    cmds,
                    Map::<usize, BitmapBinding>::empty(),
                )
                &&& final(self).transforms.data@ == collected(cmds, final(self).bitmaps@)
                &&& plan.upload_offsets@ == offsets_of(final(self).transforms)
                &&& plan.needs_offscreen == offscreen
                &&& plan.create_offscreen == if offscreen && needs_recreate(
                    old(self).offscreen_buffer,
                    size,
                ) {
                    Some(viewport_texture(size, old(self).surface_format, offscreen_usage()))
                } else {
                    None
                }
                &&& plan.create_blend == if offscreen && needs_recreate(
                    old(self).blend_buffer,
                    size,
                ) {
                    Some(viewport_texture(size, old(self).surface_format, blend_usage()))
                } else {
                    None
                }
                &&& final(self).offscreen_buffer == if offscreen {
                    Some(output_size(size))
                } else {
                    old(self).offscreen_buffer
                }
                &&& final(self).blend_buffer == if offscreen {
                    Some(output_size(size))
                } else {
                    old(self).blend_buffer
                }
                &&& pass_views(plan.passes@) == toplevel_passes(
                    final(self).context(),
                    cmds,
                    frame_start(),
                    None,
                    Some(clear),
                ).0
            },
    {
        // Reset per-frame state.
        self.transforms.clear();
        self.bitmaps.clear();
        if !frame_available {
            return None;
        }
        self.bitmaps.collect_bitmap_bind_groups(commands);
        collect_transforms(commands, &self.bitmaps.bindings, &mut self.transforms);
        let upload_offsets = self.transforms.upload_offsets();
        assert(self.transforms.data@ == collected(commands.commands@, self.bitmaps@));
        assert(upload_offsets@ =~= offsets_of(self.transforms));

        // Check if we need an offscreen buffer for complex blend compositing.
        let size = Size { width: self.viewport.width, height: self.viewport.height };
        let needs_offscreen = has_complex_blends(commands);
        let mut create_offscreen: Option<TextureDescriptor> = None;
        let mut create_blend: Option<TextureDescriptor> = None;
        if needs_offscreen {
            if Self::ensure_buffer(&mut self.offscreen_buffer, size) {
                create_offscreen = Some(make_offscreen(size, self.surface_format));
            }
            if Self::ensure_buffer(&mut self.blend_buffer, size) {
                create_blend = Some(make_blend_buffer(size, self.surface_format));
            }
        }
        let ctx = RenderContext {
            aligned_size: self.transforms.aligned_size,
            pipelines: self.pipelines,
            bitmaps: &self.bitmaps.bindings,
        };
        let mut state = ExecState {
            transform_index: 0,
            mask_state: MaskState::NoMask,
            num_masks: 0,
        };
        let passes = execute_toplevel(&ctx, Some(clear), commands, &mut state, None);
        Some(
            FramePlan { upload_offsets, needs_offscreen, create_offscreen, create_blend, passes },
        )
    }
}

/// Registered shapes keep their positions: registering another changes none.
pub proof fn shape_ids_are_stable<T: RenderTarget>(
    before: BezierRenderBackend<T>,
    after: BezierRenderBackend<T>,
    handle: ShapeHandle,
    i: int,
)
    requires
        before.wf(),
        after.meshes@ == before.meshes@.push(handle.0),
        handle.0.id == before.meshes@.len(),
        0 <= i < before.meshes@.len(),
    ensures
        after.meshes@[i] == before.meshes@[i],
        after.meshes@[handle.0.id as int] == handle.0,
        handle.0.id != before.meshes@[i].id,
{
}

// ---- Filters on textures ----

/// A region of a texture.
#[derive(Clone, Copy, PartialEq, Eq, Structural, Debug)]
pub struct CopyRegion {
    pub x: u32,
    pub y: u32,
    pub width: u32,
    pub height: u32,
}

/// How much of a length fits behind a position.
pub open spec fn clipped(length: u32, available: u32, at: int) -> int {
    if at >= available {
        0
    } else if length < available - at {
        length as int
    } else {
        available - at
    }
}

/// A position, not before the start.
pub open spec fn not_negative(v: i32) -> int {
    if v < 0 {
        0
    } else {
        v as int
    }
}

/// How much of a length fits behind a position.
fn clip(length: u32, available: u32, at: u32) -> (r: u32)
    ensures
        r == clipped(length, available, at as int),
{
    let room: u32 = if at >= available {
        0
    } else {
        available - at
    };
    if length < room {
        length
    } else {
        room
    }
}

/// The part of a destination texture that a filtered texture is copied to, at a
/// point that may lie outside. None where nothing is left of it.
pub fn copy_region(result: Size, destination: Size, dest_x: i32, dest_y: i32) -> (r: Option<
    CopyRegion,
>)
    ensures
        r == copy_region_of(result, destination, dest_x, dest_y),
{
    let x: u32 = if dest_x < 0 {
        0
    } else {
        dest_x as u32
    };
    let y: u32 = if dest_y < 0 {
        0
    } else {
        dest_y as u32
    };
    let width: u32 = clip(result.width, destination.width, x);
    let height: u32 = clip(result.height, destination.height, y);
    if width > 0 && height > 0 {
        Some(CopyRegion { x, y, width, height })
    } else {
        None
    }
}

/// What is copied lies within both textures.
pub proof fn copies_stay_inside(length: u32, available: u32, at: int)
    requires
        0 <= at,
    ensures
        0 <= clipped(length, available, at) <= length,
        clipped(length, available, at) > 0 ==> at + clipped(length, available, at) <= available,
{
}

/// One filter of a chain.
#[derive(Debug)]
pub struct FilterStep {
    pub source: FilterSource,
    pub plan: FilterPlan,
    /// Warn that the filter is not supported.
    pub warn: bool,
}

/// A display object that is cached as a bitmap: the size of its texture, how it is
/// drawn on which background, and its filters.
#[derive(Debug)]
pub struct BitmapCacheEntry {
    pub texture: Size,
    pub commands: CommandList,
    pub clear: Color,
    pub filters: Vec<Filter>,
}

/// How a display object is drawn to its cached texture: like a frame, to a
/// framebuffer of its own, which is then copied to the texture.
#[derive(Debug)]
pub struct CacheDrawing {
    /// The view matrix of the texture.
    pub globals: GlobalsUniform,
    pub framebuffer: TextureDescriptor,
    pub msaa: Option<TextureDescriptor>,
    pub depth_stencil: TextureDescriptor,
    /// The blend buffer, where there are complex blends.
    pub blend_buffer: Option<TextureDescriptor>,
    /// What the content of complex blends is drawn with.
    pub blend_textures: BlendTextures,
    /// Bitmap bind groups of the drawing.
    pub bitmaps: BitmapBindCache,
    pub transforms: TransformQueue,
    /// Where the transforms are written to the transform buffer.
    pub upload_offsets: Vec<u64>,
    pub passes: Vec<Pass>,
    /// Where in the cached texture the framebuffer is copied to.
    pub copy: Option<CopyRegion>,
}

/// How a cached bitmap is made: it is drawn, then its filters are applied in order,
/// and so much of the last result is copied back to the top left corner of the cached
/// texture.
#[derive(Debug)]
pub struct CachePlan {
    pub drawing: CacheDrawing,
    pub steps: Vec<FilterStep>,
    pub copy: Option<CopyRegion>,
}

/// How a filter is applied to a bitmap.
#[derive(Debug)]
pub struct FilterApplication {
    pub plan: FilterPlan,
    /// Warn that the filter is not supported.
    pub warn: bool,
    /// Where in the destination the result is copied to.
    pub copy: Option<CopyRegion>,
}

/// The region that a result is copied to.
pub open spec fn copy_region_of(result: Size, destination: Size, dest_x: i32, dest_y: i32) -> Option<
    CopyRegion,
> {
    let (x, y) = (not_negative(dest_x), not_negative(dest_y));
    let w = clipped(result.width, destination.width, x);
    let h = clipped(result.height, destination.height, y);
    if w > 0 && h > 0 {
        Some(CopyRegion { x: x as u32, y: y as u32, width: w as u32, height: h as u32 })
    } else {
        None
    }
}

/// The size of the texture that the filter at a position of a chain reads.
pub open spec fn chain_size(texture: Size, i: int) -> Size {
    if i <= 0 {
        texture
    } else {
        output_size(texture)
    }
}

/// The warnings given after the first `n` filters of a chain.
pub open spec fn warned_after_all(warned: WarnedFilters, filters: Seq<Filter>, n: int) -> WarnedFilters
    decreases n,
{
    if n <= 0 {
        warned
    } else {
        warned_after(warned_after_all(warned, filters, n - 1), filters[n - 1])
    }
}

/// Whether a step is the one for a filter: it reads the whole of a texture.
pub open spec fn is_step(
    step: FilterStep,
    filter: Filter,
    size: Size,
    warned: WarnedFilters,
) -> bool {
    &&& step.source == (FilterSource { texture: size, x: 0, y: 0, size })
    &&& is_plan(step.plan, filter, step.source)
    &&& step.warn == (warned_after(warned, filter) != warned)
}

/// Whether steps are those for a chain of filters: each is applied to the whole of
/// what the one before it gave, the first to the whole cached texture.
pub open spec fn are_steps(
    steps: Seq<FilterStep>,
    filters: Seq<Filter>,
    texture: Size,
    warned: WarnedFilters,
) -> bool {
    &&& steps.len() == filters.len()
    &&& forall|i: int|
        0 <= i < steps.len() ==> is_step(
            #[trigger] steps[i],
            filters[i],
            chain_size(texture, i),
            warned_after_all(warned, filters, i),
        )
}

/// Whether a drawing is the one for a cached bitmap: the passes of its commands, on a
/// framebuffer of the texture's size and format that is cleared first, and a copy of
/// that to the texture.
pub open spec fn is_cache_drawing(
    drawing: CacheDrawing,
    entry: BitmapCacheEntry,
    aligned_size: u32,
    pipelines: PipelineSets,
    sample_count: u32,
) -> bool {
    let cmds = entry.commands.commands@;
    let size = entry.texture;
    let format = TextureFormat::Rgba8Unorm;
    &&& drawing.globals.view_matrix == view_matrix(output_size(size))
    &&& drawing.framebuffer == viewport_texture(size, format, offscreen_usage())
    &&& drawing.msaa == msaa_texture(size, sample_count, format)
    &&& drawing.depth_stencil == attachment(
        size,
        sample_count,
        TextureFormat::Depth24PlusStencil8,
    )
    &&& drawing.blend_buffer == if contains_complex_blend(cmds) {
        Some(viewport_texture(size, format, blend_usage()))
    } else {
        None
    }
    &&& drawing.blend_textures == blend_textures_of(size, sample_count, format)
    &&& drawing.bitmaps@ == bind_list(cmds, Map::<usize, BitmapBinding>::empty())
    &&& drawing.transforms.wf()
    &&& drawing.transforms.aligned_size == aligned_size
    &&& drawing.transforms.data@ == collected(cmds, drawing.bitmaps@)
    &&& drawing.upload_offsets@ == offsets_of(drawing.transforms)
    &&& pass_views(drawing.passes@) == toplevel_passes(
        RenderContext { aligned_size, pipelines, bitmaps: &drawing.bitmaps.bindings },
        cmds,
        frame_start(),
        None,
        Some(entry.clear),
    ).0
    &&& drawing.copy == copy_region_of(output_size(size), size, 0, 0)
}

/// Whether a plan is the one for a cached bitmap: the display object is drawn to the
/// texture, and the filters are applied to what has been drawn. Without filters there
/// is nothing to copy back.
pub open spec fn is_cache_plan(
    plan: CachePlan,
    entry: BitmapCacheEntry,
    aligned_size: u32,
    pipelines: PipelineSets,
    sample_count: u32,
    warned: WarnedFilters,
) -> bool {
    &&& is_cache_drawing(plan.drawing, entry, aligned_size, pipelines, sample_count)
    &&& are_steps(plan.steps@, entry.filters@, entry.texture, warned)
    &&& plan.copy == if entry.filters@.len() == 0 {
        None
    } else {
        copy_region_of(output_size(entry.texture), entry.texture, 0, 0)
    }
}

/// The warnings given after the first `n` cached bitmaps.
pub open spec fn warned_after_entries(
    warned: WarnedFilters,
    entries: Seq<BitmapCacheEntry>,
    n: int,
) -> WarnedFilters
    decreases n,
{
    if n <= 0 {
        warned
    } else {
        let filters = entries[n - 1].filters@;
        warned_after_all(
            warned_after_entries(warned, entries, n - 1),
            filters,
            filters.len() as int,
        )
    }
}

/// Applies a chain of filters.
fn process_filters(texture: Size, filters: &Vec<Filter>, implementation: &mut Filters) -> (r: Vec<
    FilterStep,
>)
    ensures
        are_steps(r@, filters@, texture, old(implementation).warned),
        final(implementation).warned == warned_after_all(
            old(implementation).warned,
            filters@,
            filters@.len() as int,
        ),
{
    let ghost warned = implementation.warned;
    let mut steps: Vec<FilterStep> = Vec::new();
    let mut size = texture;
    let mut i: usize = 0;
    while i < filters.len()
        invariant
            i <= filters@.len(),
            warned == old(implementation).warned,
            steps@.len() == i,
            size == chain_size(texture, i as int),
            implementation.warned == warned_after_all(warned, filters@, i as int),
            forall|j: int|
                0 <= j < steps@.len() ==> is_step(
                    #[trigger] steps@[j],
                    filters@[j],
                    chain_size(texture, j),
                    warned_after_all(warned, filters@, j),
                ),
        decreases filters.len() - i,
    {
        let source = FilterSource::for_entire_texture(size);
        let (plan, warn) = implementation.apply(&filters[i], &source);
        steps.push(FilterStep { source, plan, warn });
        size = at_least_one(size);
        i += 1;
    }
    steps
}

impl<T: RenderTarget> BezierRenderBackend<T> {
    /// Draws a cached display object.
    fn draw_cached(&self, entry: &BitmapCacheEntry) -> (r: CacheDrawing)
        requires
            self.wf(),
            can_draw(entry.commands, self.transforms.aligned_size),
        ensures
            is_cache_drawing(
                r,
                *entry,
                self.transforms.aligned_size,
                self.pipelines,
                self.sample_count,
            ),
    {
        let size = at_least_one(entry.texture);
        let format = TextureFormat::Rgba8Unorm;
        let mut bitmaps = BitmapBindCache::new();
        bitmaps.collect_bitmap_bind_groups(&entry.commands);
        let mut transforms = TransformQueue {
            aligned_size: self.transforms.aligned_size,
            data: Vec::new(),
        };
        proof {
            crate::render::lemma_addressable(transforms.aligned_size as int);
        }
        collect_transforms(&entry.commands, &bitmaps.bindings, &mut transforms);
        assert(transforms.data@ == collected(entry.commands.commands@, bitmaps@));
        let upload_offsets = transforms.upload_offsets();
        assert(upload_offsets@ =~= offsets_of(transforms));
        let ctx = RenderContext {
            aligned_size: self.transforms.aligned_size,
            pipelines: self.pipelines,
            bitmaps: &bitmaps.bindings,
        };
        let mut state = ExecState {
            transform_index: 0,
            mask_state: MaskState::NoMask,
            num_masks: 0,
        };
        let passes = execute_toplevel(
            &ctx,
            Some(entry.clear),
            &entry.commands,
            &mut state,
            None,
        );
        CacheDrawing {
            globals: GlobalsUniform { view_matrix: build_view_matrix(size.width, size.height) },
            framebuffer: make_offscreen(entry.texture, format),
            msaa: make_msaa_texture(entry.texture, self.sample_count, format),
            depth_stencil: make_attachment(
                entry.texture,
                self.sample_count,
                TextureFormat::Depth24PlusStencil8,
            ),
            blend_buffer: if has_complex_blends(&entry.commands) {
                Some(make_blend_buffer(entry.texture, format))
            } else {
                None
            },
            blend_textures: make_blend_textures(entry.texture, self.sample_count, format),
            bitmaps,
            transforms,
            upload_offsets,
            passes,
            copy: copy_region(size, entry.texture, 0, 0),
        }
    }

    /// Process bitmap cache entries: render cached display objects and apply filters.
    pub fn process_cache_entries(
        &self,
        entries: &Vec<BitmapCacheEntry>,
        filters: &mut Filters,
    ) -> (r: Vec<CachePlan>)
        requires
            self.wf(),
            forall|i: int|
                0 <= i < entries@.len() ==> can_draw(
                    (#[trigger] entries@[i]).commands,
                    self.transforms.aligned_size,
                ),
        ensures
            final(filters).warned == warned_after_entries(
                old(filters).warned,
                entries@,
                entries@.len() as int,
            ),
            r@.len() == entries@.len(),
            forall|i: int|
                0 <= i < r@.len() ==> is_cache_plan(
                    #[trigger] r@[i],
                    entries@[i],
                    self.transforms.aligned_size,
                    self.pipelines,
                    self.sample_count,
                    warned_after_entries(old(filters).warned, entries@, i),
                ),
    {
        let ghost warned = filters.warned;
        let mut plans: Vec<CachePlan> = Vec::new();
        let mut i: usize = 0;
        while i < entries.len()
            invariant
                self.wf(),
                forall|j: int|
                    0 <= j < entries@.len() ==> can_draw(
                        (#[trigger] entries@[j]).commands,
                        self.transforms.aligned_size,
                    ),
                i <= entries@.len(),
                plans@.len() == i,
                warned == old(filters).warned,
                filters.warned == warned_after_entries(warned, entries@, i as int),
                forall|j: int|
                    0 <= j < plans@.len() ==> is_cache_plan(
                        #[trigger] plans@[j],
                        entries@[j],
                        self.transforms.aligned_size,
                        self.pipelines,
                        self.sample_count,
                        warned_after_entries(warned, entries@, j),
                    ),
            decreases entries.len() - i,
        {
            let entry = &entries[i];
            // Render commands into the cache texture first, then apply filters.
            let drawing = self.draw_cached(entry);
            let steps = process_filters(entry.texture, &entry.filters, filters);
            // Copy the final filtered result back to the original texture.
            let copy = if entry.filters.len() == 0 {
                None
            } else {
                copy_region(at_least_one(entry.texture), entry.texture, 0, 0)
            };
            plans.push(CachePlan { drawing, steps, copy });
            i += 1;
        }
        plans
    }

    /// Applies a filter to a region of a bitmap and copies the result to another
    /// bitmap, at a point that may lie outside of it.
    pub fn apply_filter(
        &self,
        filters: &mut Filters,
        source: &FilterSource,
        filter: &Filter,
        destination: Size,
        dest_x: i32,
        dest_y: i32,
    ) -> (r: FilterApplication)
        ensures
            final(filters).warned == warned_after(old(filters).warned, *filter),
            is_plan(r.plan, *filter, *source),
            r.warn == (final(filters).warned != old(filters).warned),
            r.copy == copy_region_of(output_size(source.size), destination, dest_x, dest_y),
    {
        let (plan, warn) = filters.apply(filter, source);
        let copy = copy_region(at_least_one(source.size), destination, dest_x, dest_y);
        FilterApplication { plan, warn, copy }
    }
}

/// A cached bitmap is replaced as a whole: what is drawn covers all of its texture, each
/// filter reads all of what is there, and what the last one makes of it covers the
/// texture again.
pub proof fn cached_bitmaps_are_replaced(
    plan: CachePlan,
    entry: BitmapCacheEntry,
    aligned_size: u32,
    pipelines: PipelineSets,
    sample_count: u32,
    warned: WarnedFilters,
)
    requires
        is_cache_plan(plan, entry, aligned_size, pipelines, sample_count, warned),
        entry.texture.width > 0,
        entry.texture.height > 0,
    ensures
        ({
            let whole = CopyRegion {
                x: 0,
                y: 0,
                width: entry.texture.width,
                height: entry.texture.height,
            };
            &&& plan.drawing.framebuffer.size == entry.texture
            &&& plan.drawing.copy == Some(whole)
            &&& forall|i: int|
                0 <= i < plan.steps@.len() ==> (#[trigger] plan.steps@[i]).source == (
                FilterSource { texture: entry.texture, x: 0, y: 0, size: entry.texture })
            &&& entry.filters@.len() > 0 ==> plan.copy == Some(whole)
        }),
{
}

// ---- Texture data ----

/// Bytes per row when texture data is read back: rows are aligned to 256 bytes.
pub fn readback_bytes_per_row(width: u32) -> (r: u32)
    requires
        4 * width + 255 <= u32::MAX,
    ensures
        r == spec_align_to(4 * width, 256),
{
    let n: u32 = width * 4 + 255;
    proof {
        assert(n & !255u32 == (n / 256) * 256) by (bit_vector);
    }
    n & !255u32
}

/// The bytes of a buffer that texture data is read back to.
pub fn readback_size(width: u32, height: u32) -> (r: u64)
    requires
        4 * width + 255 <= u32::MAX,
        spec_align_to(4 * width, 256) * height <= u32::MAX,
    ensures
        r == spec_align_to(4 * width, 256) * height,
{
    (readback_bytes_per_row(width) * height) as u64
}

/// Bytes per row when texture data is uploaded: four per pixel.
pub fn upload_bytes_per_row(width: u32) -> (r: u32)
    requires
        4 * width <= u32::MAX,
    ensures
        r == 4 * width,
{
    width * 4
}

/// The texture of a bitmap.
pub fn bitmap_texture(size: Size) -> (r: TextureDescriptor)
    ensures
        is_used_for(r, false, true, false, true),
        r == (TextureDescriptor {
            size,
            sample_count: 1,
            format: TextureFormat::Rgba8Unorm,
            usage: TextureUsages {
                render_attachment: false,
                texture_binding: true,
                copy_src: false,
                copy_dst: true,
            },
        }),
{
    TextureDescriptor {
        size,
        sample_count: 1,
        format: TextureFormat::Rgba8Unorm,
        usage: TextureUsages {
            render_attachment: false,
            texture_binding: true,
            copy_src: false,
            copy_dst: true,
        },
    }
}

/// What the renderer says of itself.
pub fn debug_info() -> (r: &'static str)
    ensures
        r@ == "Renderer: wgpu-bezier (Loop-Blinn quadratic Bézier)"@,
{
    "Renderer: wgpu-bezier (Loop-Blinn quadratic Bézier)"
}

/// The name of the renderer.
pub fn name() -> (r: &'static str)
    ensures
        r@ == "wgpu-bezier"@,
{
    "wgpu-bezier"
}

// ---- What is set up ----

/// Whether a texture can be drawn to, read by shaders, copied from and copied to.
pub open spec fn is_used_for(
    t: TextureDescriptor,
    drawn: bool,
    read: bool,
    copied_from: bool,
    copied_to: bool,
) -> bool {
    &&& t.usage.render_attachment == drawn
    &&& t.usage.texture_binding == read
    &&& t.usage.copy_src == copied_from
    &&& t.usage.copy_dst == copied_to
}

/// Textures have the size that is asked for, but never an empty one, and serve what they are for.
/// Attachments are drawn to, with as many samples as asked for. The offscreen framebuffer is drawn
/// to, blitted and copied; the blend buffer is copied to and read; both have one sample.
pub proof fn textures_serve_their_purpose(size: Size, sample_count: u32, format: TextureFormat)
    ensures
        ({
            let a = attachment(size, sample_count, format);
            let o = viewport_texture(size, format, offscreen_usage());
            let b = viewport_texture(size, format, blend_usage());
            let fits = |s: Size|
                s.width >= 1 && s.height >= 1 && (size.width >= 1 ==> s.width == size.width) && (
                size.height >= 1 ==> s.height == size.height);
            &&& fits(a.size) && fits(o.size) && fits(b.size)
            &&& a.format == format && o.format == format && b.format == format
            &&& a.sample_count == sample_count && o.sample_count == 1 && b.sample_count == 1
            &&& is_used_for(a, true, false, false, false)
            &&& is_used_for(o, true, true, true, false)
            &&& is_used_for(b, false, true, false, true)
            &&& o.size == b.size && a.size == o.size
        }),
{
}

/// There is a multisampled framebuffer exactly where there is more than one sample per pixel. The
/// textures of a blend's content match it: as many samples where it is drawn, and one where it is
/// read.
pub proof fn samples_match(size: Size, sample_count: u32, format: TextureFormat)
    ensures
        ({
            let b = blend_textures_of(size, sample_count, format);
            let m = msaa_texture(size, sample_count, format);
            &&& m is Some <==> sample_count > 1
            &&& m matches Some(t) ==> t.sample_count == sample_count && t.format == format && t.size
                == b.intermediate.size && is_used_for(t, true, false, false, false)
            &&& b.msaa == m
            &&& b.intermediate.sample_count == 1 && b.intermediate.format == format
            &&& is_used_for(b.intermediate, true, true, false, false)
            &&& b.depth_stencil.sample_count == sample_count
            &&& b.depth_stencil.format == TextureFormat::Depth24PlusStencil8
            &&& b.depth_stencil.size == b.intermediate.size
            &&& is_used_for(b.depth_stencil, true, false, false, false)
        }),
{
}

/// A buffer is created where there is none, and where there is one of another size.
pub proof fn buffers_are_created_once(size: Size)
    ensures
        needs_recreate(None, size),
        !needs_recreate(Some(output_size(size)), size),
        forall|other: Size| #[trigger]
            needs_recreate(Some(other), size) <==> other.width != output_size(size).width
                || other.height != output_size(size).height,
{
}

/// The unit quad is one pixel square, with its corners in a row around it, and its two triangles
/// share two opposite corners.
pub proof fn the_unit_quad_is_a_pixel(i: int)
    requires
        0 <= i < 4,
    ensures
        ({
            let v = unit_quad_vertices();
            let pixel = 20 * 8192;
            &&& v.len() == 4
            &&& v[i].position.point.x == if i == 1 || i == 2 {
                pixel
            } else {
                0
            }
            &&& v[i].position.point.y == if i == 2 || i == 3 {
                pixel
            } else {
                0
            }
            &&& v[i].position.offset is Zero && v[i].fill_type == 0
            &&& white() == (Color { r: 255, g: 255, b: 255, a: 255 })
        }),
{
}

/// What is copied to a destination lies inside of it, at the point that is asked for or the nearest
/// one that is not before its edge, and reaches as far as the result or the destination does.
/// Nothing is copied only where that leaves nothing.
pub proof fn copies_reach_as_far_as_they_can(
    result: Size,
    destination: Size,
    dest_x: i32,
    dest_y: i32,
)
    ensures
        ({
            let x = if dest_x < 0 {
                0
            } else {
                dest_x as int
            };
            let y = if dest_y < 0 {
                0
            } else {
                dest_y as int
            };
            match copy_region_of(result, destination, dest_x, dest_y) {
                Some(r) => {
                    &&& r.x == x && r.y == y
                    &&& r.width > 0 && r.height > 0
                    &&& r.width <= result.width && x + r.width <= destination.width
                    &&& r.height <= result.height && y + r.height <= destination.height
                    &&& r.width == result.width || x + r.width == destination.width
                    &&& r.height == result.height || y + r.height == destination.height
                },
                None => result.width == 0 || result.height == 0 || x >= destination.width || y
                    >= destination.height,
            }
        }),
{
}

/// Transforms are written one after the other, each as far into the buffer as those before it take.
pub proof fn transforms_are_written_in_order(transforms: TransformQueue, i: int)
    requires
        transforms.wf(),
        0 <= i < transforms.data@.len(),
    ensures
        offsets_of(transforms).len() == transforms.data@.len(),
        offsets_of(transforms)[i] == i * transforms.aligned_size,
{
    let size = transforms.aligned_size as int;
    let q = u32::MAX as int / size;
    vstd::arithmetic::div_mod::lemma_fundamental_div_mod(u32::MAX as int, size);
    assert(0 <= i * size <= size * q) by (nonlinear_arith)
        requires
            0 <= i <= q,
            size > 0,
    ;
}

/// A frame begins with its first transform, without masks.
pub proof fn frames_begin_unmasked()
    ensures
        frame_start().index == 0,
        frame_start().num_masks == 0,
        frame_start().mask_state is NoMask,
{
}

/// The filters of a cached bitmap are applied in order, each by its own plan: the first to the
/// texture, and each later one to what the one before it gave, which is never empty. A filter is
/// warned about where it is the first of its kind that is not supported.
pub proof fn filters_of_a_chain_are_applied_in_order(
    steps: Seq<FilterStep>,
    filters: Seq<Filter>,
    texture: Size,
    warned: WarnedFilters,
    i: int,
)
    requires
        are_steps(steps, filters, texture, warned),
        0 <= i < filters.len(),
    ensures
        steps.len() == filters.len(),
        steps[i].source.x == 0 && steps[i].source.y == 0,
        steps[i].source.size == steps[i].source.texture,
        i == 0 ==> steps[i].source.texture == texture,
        i > 0 ==> steps[i].source.texture == output_size(texture),
        is_plan(steps[i].plan, filters[i], steps[i].source),
        ({
            let before = warned_after_all(warned, filters, i);
            let after = warned_after_all(warned, filters, i + 1);
            &&& i == 0 ==> before == warned
            &&& after == warned_after(before, filters[i])
            &&& steps[i].warn <==> after != before
        }),
{
    assert(is_step(
        steps[i],
        filters[i],
        chain_size(texture, i),
        warned_after_all(warned, filters, i),
    ));
    assert(warned_after_all(warned, filters, 0) == warned);
}

/// A cached object is drawn like a frame of its own, from its own commands onto its own background:
/// on a framebuffer of its texture's size and format, with the view of that size, with as many
/// samples as the stage has, and with a blend buffer where it needs one.
pub proof fn cached_objects_are_drawn_like_frames(
    drawing: CacheDrawing,
    entry: BitmapCacheEntry,
    aligned_size: u32,
    pipelines: PipelineSets,
    sample_count: u32,
)
    requires
        is_cache_drawing(drawing, entry, aligned_size, pipelines, sample_count),
    ensures
        ({
            let size = output_size(entry.texture);
            let none = Map::<usize, BitmapBinding>::empty();
            let cmds = entry.commands.commands@;
            &&& drawing.framebuffer.size == size
            &&& drawing.framebuffer.format == TextureFormat::Rgba8Unorm
            &&& is_used_for(drawing.framebuffer, true, true, true, false)
            &&& drawing.globals.view_matrix == view_matrix(size)
            &&& drawing.depth_stencil.size == size && drawing.depth_stencil.sample_count
                == sample_count
            &&& drawing.msaa is Some <==> sample_count > 1
            &&& drawing.blend_buffer is Some <==> contains_complex_blend(cmds)
            &&& drawing.bitmaps@ == bind_list(cmds, none)
            &&& drawing.transforms.data@ == collected(cmds, drawing.bitmaps@)
            &&& pass_views(drawing.passes@) == toplevel_passes(
                RenderContext { aligned_size, pipelines, bitmaps: &drawing.bitmaps.bindings },
                cmds,
                RunState { index: 0, mask_state: MaskState::NoMask, num_masks: 0 },
                None,
                Some(entry.clear),
            ).0
        }),
{
}

/// The view matrix only scales and moves: it neither turns nor slants, leaves depth alone, and
/// divides by nothing but the size of the viewport.
pub proof fn the_view_matrix_only_scales_and_moves(size: Size, i: int, j: int)
    requires
        0 <= i < 4,
        0 <= j < 4,
    ensures
        ({
            let e = view_matrix(size)@[i]@[j];
            &&& i != j && i != 3 ==> e.num == 0 && e.den == 1
            &&& i == 2 && j == 2 ==> e.num == 1 && e.den == 1
            &&& i == 3 && j == 2 ==> e.num == 0 && e.den == 1
            &&& i == 3 && j == 3 ==> e.num == 1 && e.den == 1
        }),
{
    assert(i == 0 || i == 1 || i == 2 || i == 3);
    assert(j == 0 || j == 1 || j == 2 || j == 3);
}

/// While a frame is drawn, every transform is bound where it was written: the offset that a command
/// binds for the transform with a number is the one at which that transform went into the buffer.
/// Bitmaps and pipelines are the backend's own.
pub proof fn transforms_are_bound_where_they_were_written<T: RenderTarget>(
    backend: BezierRenderBackend<T>,
    i: int,
)
    requires
        backend.wf(),
        0 <= i < backend.transforms.data@.len(),
    ensures
        backend.context().offset_of(i) == offsets_of(backend.transforms)[i],
        backend.context().bitmaps@ == backend.bitmaps@,
        backend.context().pipelines == backend.pipelines,
        backend.context().wf(),
{
    transforms_are_written_in_order(backend.transforms, i);
    crate::render::transforms_start_one_after_the_other(backend.context(), i);
}

/// A frame can be drawn exactly where its masks can be counted, its coordinates fit, and the
/// transform buffer can address a transform for everything in it.
pub proof fn frames_can_be_drawn_where_they_can_be_counted(commands: CommandList, aligned_size: u32)
    requires
        aligned_size >= TRANSFORMS_SIZE,
    ensures
        can_draw(commands, aligned_size) <==> toplevel_masks_ok(commands.commands@, 0) && twips_ok(
            commands.commands@,
        ) && (transform_count(commands.commands@) - 1) * aligned_size <= u32::MAX,
{
    let (n, size) = (transform_count(commands.commands@) as int, aligned_size as int);
    let q = u32::MAX as int / size;
    vstd::arithmetic::div_mod::lemma_fundamental_div_mod(u32::MAX as int, size);
    vstd::arithmetic::div_mod::lemma_mod_bound(u32::MAX as int, size);
    assert(n - 1 <= q <==> (n - 1) * size <= u32::MAX as int) by (nonlinear_arith)
        requires
            u32::MAX as int == size * q + u32::MAX as int % size,
            0 <= u32::MAX as int % size < size,
            size > 0,
    ;
}

/// Warnings are carried from one cached bitmap to the next, and from one filter to the next.
pub proof fn warnings_are_carried_on(
    warned: WarnedFilters,
    entries: Seq<BitmapCacheEntry>,
    i: int,
)
    requires
        0 <= i < entries.len(),
    ensures
        ({
            let filters = entries[i].filters@;
            let before = warned_after_entries(warned, entries, i);
            &&& warned_after_entries(warned, entries, 0) == warned
            &&& warned_after_entries(warned, entries, i + 1) == warned_after_all(
                before,
                filters,
                filters.len() as int,
            )
            &&& filters.len() == 0 ==> warned_after_entries(warned, entries, i + 1) == before
        }),
{
}

} // verus!
