//! Render pipeline definitions.
//!
//! Three main pipelines correspond to the three fill types:
//! - **Color pipeline**: position, texture coordinates, fill type and color.
//! - **Gradient pipeline**: position, texture coordinates and fill type.
//! - **Bitmap pipeline**: position, texture coordinates and fill type.
use crate::blend::{over, BlendState, TrivialBlend};
use crate::commands::Command;
use crate::mesh::{Draw, DrawType};
use crate::render::{
    bound_at, draw_ops, draws_are_painted_with_their_paint, pipeline_at, run_command,
    writes_stencil, BindGroup, Pipeline, PipelineSet, RenderContext, RenderOp, RunState,
};
use crate::shaders::Shader;
use crate::target::TextureFormat;
use crate::transforms::TRANSFORMS_SIZE;
use crate::vertex::MaskState;
use vstd::prelude::*;

verus! {

/// The bytes of a 4x4 matrix of single precision numbers.
pub const MATRIX_SIZE: u64 = 64;

/// The bytes of the gradient uniforms.
pub const GRADIENT_UNIFORMS_SIZE: u64 = 16;

/// What is bound at a binding.
#[derive(Clone, Copy, PartialEq, Eq, Structural, Debug)]
pub enum BindingType {
    /// A uniform buffer of at least so many bytes.
    Uniform { has_dynamic_offset: bool, min_size: u64 },
    /// A filterable two-dimensional texture.
    Texture,
    /// A filtering sampler.
    Sampler,
}

/// One binding of a bind group.
#[derive(Clone, Copy, PartialEq, Eq, Structural, Debug)]
pub struct LayoutEntry {
    pub binding: u32,
    pub vertex: bool,
    pub fragment: bool,
    pub ty: BindingType,
}

/// The bind group layouts.
#[derive(Clone, Copy, PartialEq, Eq, Structural, Debug)]
pub enum BindLayout {
    /// Group 0: Global uniforms (view matrix).
    Globals,
    /// Group 1: Per-object transforms (world matrix + color transform). Dynamic offset.
    Transforms,
    /// Group 2: Gradient fill resources (texture transforms + gradient uniform + texture + sampler).
    Gradient,
    /// Group 2: Bitmap fill resources (texture transforms + texture + sampler).
    Bitmap,
}

/// A uniform buffer at a binding.
pub open spec fn uniform_entry(
    binding: u32,
    vertex: bool,
    fragment: bool,
    has_dynamic_offset: bool,
    min_size: u64,
) -> LayoutEntry {
    LayoutEntry {
        binding,
        vertex,
        fragment,
        ty: BindingType::Uniform { has_dynamic_offset, min_size },
    }
}

/// A texture or sampler at a binding.
pub open spec fn fragment_entry(binding: u32, ty: BindingType) -> LayoutEntry {
    LayoutEntry { binding, vertex: false, fragment: true, ty }
}

/// The bindings of a layout.
pub open spec fn layout_entries(layout: BindLayout) -> Seq<LayoutEntry> {
    match layout {
        BindLayout::Globals => seq![uniform_entry(0, true, false, false, MATRIX_SIZE)],
        BindLayout::Transforms => seq![
            uniform_entry(0, true, true, true, TRANSFORMS_SIZE as u64),
        ],
        BindLayout::Gradient => seq![
            uniform_entry(0, true, false, false, MATRIX_SIZE),
            uniform_entry(1, false, true, false, GRADIENT_UNIFORMS_SIZE),
            fragment_entry(2, BindingType::Texture),
            fragment_entry(3, BindingType::Sampler),
        ],
        BindLayout::Bitmap => seq![
            uniform_entry(0, true, false, false, MATRIX_SIZE),
            fragment_entry(1, BindingType::Texture),
            fragment_entry(2, BindingType::Sampler),
        ],
    }
}

/// A uniform buffer at a binding.
fn uniform(
    binding: u32,
    vertex: bool,
    fragment: bool,
    has_dynamic_offset: bool,
    min_size: u64,
) -> (r: LayoutEntry)
    ensures
        r == uniform_entry(binding, vertex, fragment, has_dynamic_offset, min_size),
{
    LayoutEntry {
        binding,
        vertex,
        fragment,
        ty: BindingType::Uniform { has_dynamic_offset, min_size },
    }
}

/// A texture or sampler at a binding.
fn for_fragments(binding: u32, ty: BindingType) -> (r: LayoutEntry)
    ensures
        r == fragment_entry(binding, ty),
{
    LayoutEntry { binding, vertex: false, fragment: true, ty }
}

impl BindLayout {
    /// The bindings of this layout.
    pub fn entries(&self) -> (r: Vec<LayoutEntry>)
        ensures
            r@ == layout_entries(*self),
    {
        let entries: Vec<LayoutEntry> = match self {
            BindLayout::Globals => vec![uniform(0, true, false, false, MATRIX_SIZE)],
            BindLayout::Transforms => vec![uniform(0, true, true, true, TRANSFORMS_SIZE as u64)],
            BindLayout::Gradient => vec![
                // Texture transforms
                uniform(0, true, false, false, MATRIX_SIZE),
                // Gradient uniforms
                uniform(1, false, true, false, GRADIENT_UNIFORMS_SIZE),
                // Gradient LUT texture
                for_fragments(2, BindingType::Texture),
                // Sampler
                for_fragments(3, BindingType::Sampler),
            ],
            BindLayout::Bitmap => vec![
                // Texture transforms
                uniform(0, true, false, false, MATRIX_SIZE),
                // Bitmap texture
                for_fragments(1, BindingType::Texture),
                // Sampler
                for_fragments(2, BindingType::Sampler),
            ],
        };
        assert(entries@ == layout_entries(*self));
        entries
    }
}

/// The bindings of all layouts.
#[derive(Debug)]
pub struct BindLayouts {
    pub globals: Vec<LayoutEntry>,
    pub transforms: Vec<LayoutEntry>,
    pub gradient: Vec<LayoutEntry>,
    pub bitmap: Vec<LayoutEntry>,
}

impl BindLayouts {
    /// The bindings of all layouts.
    pub fn new() -> (r: BindLayouts)
        ensures
            r.globals@ == layout_entries(BindLayout::Globals),
            r.transforms@ == layout_entries(BindLayout::Transforms),
            r.gradient@ == layout_entries(BindLayout::Gradient),
            r.bitmap@ == layout_entries(BindLayout::Bitmap),
    {
        BindLayouts {
            globals: BindLayout::Globals.entries(),
            transforms: BindLayout::Transforms.entries(),
            gradient: BindLayout::Gradient.entries(),
            bitmap: BindLayout::Bitmap.entries(),
        }
    }
}

/// The format of a vertex attribute.
#[derive(Clone, Copy, PartialEq, Eq, Structural, Debug)]
pub enum VertexFormat {
    Float32x2,
    Float32x4,
    Sint32,
}

/// An attribute of a vertex.
#[derive(Clone, Copy, PartialEq, Eq, Structural, Debug)]
pub struct VertexAttribute {
    pub format: VertexFormat,
    pub offset: u64,
    pub shader_location: u32,
}

/// A vertex buffer layout.
#[derive(Clone, Copy, PartialEq, Eq, Structural, Debug)]
pub enum VertexLayout {
    /// Vertices with a color of their own.
    Color,
    /// Vertices without.
    Tex,
}

/// The bytes of an attribute.
pub open spec fn format_size(format: VertexFormat) -> int {
    match format {
        VertexFormat::Float32x2 => 8,
        VertexFormat::Float32x4 => 16,
        VertexFormat::Sint32 => 4,
    }
}

/// Position, texture coordinates and fill type.
pub open spec fn common_attributes() -> Seq<VertexAttribute> {
    seq![
        VertexAttribute { format: VertexFormat::Float32x2, offset: 0, shader_location: 0 },
        VertexAttribute { format: VertexFormat::Float32x2, offset: 8, shader_location: 1 },
        VertexAttribute { format: VertexFormat::Sint32, offset: 16, shader_location: 2 },
    ]
}

/// The attributes of a vertex.
pub open spec fn vertex_attributes(layout: VertexLayout) -> Seq<VertexAttribute> {
    match layout {
        VertexLayout::Color => common_attributes().push(
            VertexAttribute { format: VertexFormat::Float32x4, offset: 20, shader_location: 3 },
        ),
        VertexLayout::Tex => common_attributes(),
    }
}

/// The bytes from one vertex to the next. Each vertex ends in four bytes of
/// padding.
pub open spec fn vertex_stride(layout: VertexLayout) -> u64 {
    match layout {
        VertexLayout::Color => 40,
        VertexLayout::Tex => 24,
    }
}

impl VertexLayout {
    /// The attributes of a vertex.
    pub fn attributes(&self) -> (r: Vec<VertexAttribute>)
        ensures
            r@ == vertex_attributes(*self),
    {
        let mut attributes: Vec<VertexAttribute> = vec![
            // position
            VertexAttribute { format: VertexFormat::Float32x2, offset: 0, shader_location: 0 },
            // uv
            VertexAttribute { format: VertexFormat::Float32x2, offset: 8, shader_location: 1 },
            // fill_type
            VertexAttribute { format: VertexFormat::Sint32, offset: 16, shader_location: 2 },
        ];
        assert(attributes@ == common_attributes());
        if matches!(self, VertexLayout::Color) {
            // color
            attributes.push(
                VertexAttribute { format: VertexFormat::Float32x4, offset: 20, shader_location: 3 },
            );
        }
        attributes
    }

    /// The bytes from one vertex to the next.
    pub fn stride(&self) -> (r: u64)
        ensures
            r == vertex_stride(*self),
    {
        match self {
            VertexLayout::Color => 40,
            VertexLayout::Tex => 24,
        }
    }
}

/// When a test passes.
#[derive(Clone, Copy, PartialEq, Eq, Structural, Debug)]
pub enum CompareFunction {
    Always,
    Equal,
}

/// What happens to the stencil where a draw passes or fails.
#[derive(Clone, Copy, PartialEq, Eq, Structural, Debug)]
pub enum StencilOperation {
    Keep,
    IncrementClamp,
    DecrementClamp,
}

/// How triangles test and change the stencil.
#[derive(Clone, Copy, PartialEq, Eq, Structural, Debug)]
pub struct StencilFaceState {
    pub compare: CompareFunction,
    pub fail_op: StencilOperation,
    pub depth_fail_op: StencilOperation,
    pub pass_op: StencilOperation,
}

/// The depth/stencil state of a pipeline, the same for triangles of either
/// orientation.
#[derive(Clone, Copy, PartialEq, Eq, Structural, Debug)]
pub struct DepthStencilState {
    pub format: TextureFormat,
    pub depth_write_enabled: bool,
    pub depth_compare: CompareFunction,
    pub stencil: StencilFaceState,
    pub read_mask: u32,
    pub write_mask: u32,
}

/// The orientation of a triangle.
#[derive(Clone, Copy, PartialEq, Eq, Structural, Debug)]
pub enum Face {
    Front,
    Back,
}

/// A pipeline that fills triangles.
#[derive(Debug)]
pub struct PipelineDescriptor {
    pub shader: Shader,
    pub layouts: Vec<BindLayout>,
    pub vertex: VertexLayout,
    /// The format of the color target.
    pub format: TextureFormat,
    pub blend: BlendState,
    /// Triangles of this orientation are not drawn.
    pub cull_mode: Option<Face>,
    pub depth_stencil: DepthStencilState,
    pub sample_count: u32,
}

/// A stencil that everything passes and nothing changes.
pub open spec fn passive_stencil() -> StencilFaceState {
    StencilFaceState {
        compare: CompareFunction::Always,
        fail_op: StencilOperation::Keep,
        depth_fail_op: StencilOperation::Keep,
        pass_op: StencilOperation::Keep,
    }
}

/// The kinds of fill that have a pipeline of their own.
#[derive(Clone, Copy, PartialEq, Eq, Structural, Debug)]
pub enum FillKind {
    Color,
    Gradient,
    Bitmap,
}

/// The bind groups of a fill pipeline, in order.
pub open spec fn fill_layouts(kind: FillKind) -> Seq<BindLayout> {
    match kind {
        FillKind::Color => seq![BindLayout::Globals, BindLayout::Transforms],
        FillKind::Gradient => seq![
            BindLayout::Globals,
            BindLayout::Transforms,
            BindLayout::Gradient,
        ],
        FillKind::Bitmap => seq![BindLayout::Globals, BindLayout::Transforms, BindLayout::Bitmap],
    }
}

/// Whether a pipeline is the one for a kind of fill: it draws triangles of either
/// orientation with premultiplied alpha, and neither tests nor writes depth and
/// stencil.
pub open spec fn is_fill_pipeline(
    p: PipelineDescriptor,
    kind: FillKind,
    format: TextureFormat,
    sample_count: u32,
) -> bool {
    &&& p.shader == match kind {
        FillKind::Color => Shader::BezierFill,
        FillKind::Gradient => Shader::BezierGradient,
        FillKind::Bitmap => Shader::BezierBitmap,
    }
    &&& p.layouts@ == fill_layouts(kind)
    &&& p.vertex == match kind {
        FillKind::Color => VertexLayout::Color,
        _ => VertexLayout::Tex,
    }
    &&& p.format == format
    &&& p.blend == (BlendState { color: over(), alpha: over() })
    &&& p.cull_mode is None
    &&& p.depth_stencil == (DepthStencilState {
        format: TextureFormat::Depth24PlusStencil8,
        depth_write_enabled: false,
        depth_compare: CompareFunction::Always,
        stencil: passive_stencil(),
        read_mask: 0xff,
        write_mask: 0xff,
    })
    &&& p.sample_count == sample_count
}

/// The pipeline for a kind of fill.
fn fill_pipeline(kind: FillKind, format: TextureFormat, sample_count: u32) -> (r:
    PipelineDescriptor)
    ensures
        is_fill_pipeline(r, kind, format, sample_count),
{
    let (shader, vertex) = match kind {
        FillKind::Color => (Shader::BezierFill, VertexLayout::Color),
        FillKind::Gradient => (Shader::BezierGradient, VertexLayout::Tex),
        FillKind::Bitmap => (Shader::BezierBitmap, VertexLayout::Tex),
    };
    let mut layouts: Vec<BindLayout> = vec![BindLayout::Globals, BindLayout::Transforms];
    match kind {
        FillKind::Color => {},
        FillKind::Gradient => {
            layouts.push(BindLayout::Gradient);
        },
        FillKind::Bitmap => {
            layouts.push(BindLayout::Bitmap);
        },
    }
    assert(layouts@ == fill_layouts(kind));
    PipelineDescriptor {
        shader,
        layouts,
        vertex,
        format,
        blend: TrivialBlend::Normal.blend_state(),
        // Both sides of triangles may be visible.
        cull_mode: None,
        depth_stencil: DepthStencilState {
            format: TextureFormat::Depth24PlusStencil8,
            depth_write_enabled: false,
            depth_compare: CompareFunction::Always,
            stencil: StencilFaceState {
                compare: CompareFunction::Always,
                fail_op: StencilOperation::Keep,
                depth_fail_op: StencilOperation::Keep,
                pass_op: StencilOperation::Keep,
            },
            read_mask: 0xff,
            write_mask: 0xff,
        },
        sample_count,
    }
}

/// All fill pipelines.
#[derive(Debug)]
pub struct Pipelines {
    /// Solid color fill pipeline (per-vertex color + Loop-Blinn).
    pub color_fill: PipelineDescriptor,
    /// Gradient fill pipeline (gradient texture + Loop-Blinn).
    pub gradient_fill: PipelineDescriptor,
    /// Bitmap fill pipeline (bitmap texture + Loop-Blinn).
    pub bitmap_fill: PipelineDescriptor,
}

impl Pipelines {
    /// The fill pipelines for targets with a format and a number of samples per
    /// pixel.
    pub fn new(format: TextureFormat, sample_count: u32) -> (r: Pipelines)
        ensures
            is_fill_pipeline(r.color_fill, FillKind::Color, format, sample_count),
            is_fill_pipeline(r.gradient_fill, FillKind::Gradient, format, sample_count),
            is_fill_pipeline(r.bitmap_fill, FillKind::Bitmap, format, sample_count),
    {
        Pipelines {
            color_fill: fill_pipeline(FillKind::Color, format, sample_count),
            gradient_fill: fill_pipeline(FillKind::Gradient, format, sample_count),
            bitmap_fill: fill_pipeline(FillKind::Bitmap, format, sample_count),
        }
    }
}

/// The bindings of a layout are numbered in order, from zero.
pub proof fn bindings_are_numbered(layout: BindLayout, i: int)
    requires
        0 <= i < layout_entries(layout).len(),
    ensures
        layout_entries(layout)[i].binding == i,
{
}

/// The attributes of a vertex are numbered in order, follow one another without
/// gaps, and end four bytes before the next vertex.
pub proof fn attributes_are_packed(layout: VertexLayout, i: int)
    requires
        0 <= i < vertex_attributes(layout).len(),
    ensures
        ({
            let all = vertex_attributes(layout);
            let end = all[i].offset + format_size(all[i].format);
            &&& all[i].shader_location == i
            &&& i == 0 ==> all[i].offset == 0
            &&& i + 1 < all.len() ==> end == all[i + 1].offset
            &&& i + 1 == all.len() ==> end + 4 == vertex_stride(layout)
        }),
{
}

/// The kind of fill of a draw.
pub open spec fn fill_kind(draw_type: DrawType) -> FillKind {
    match draw_type {
        DrawType::Color => FillKind::Color,
        DrawType::Gradient { .. } => FillKind::Gradient,
        DrawType::Bitmap { .. } => FillKind::Bitmap,
    }
}

/// A draw that is not evaluated analytically binds every group that its pipeline
/// has beyond the globals, and no other: the transforms, and a third group exactly
/// where the pipeline has one.
pub proof fn draws_bind_what_pipelines_expect(
    ctx: RenderContext,
    set: PipelineSet,
    mask_state: MaskState,
    mesh: usize,
    index: int,
    draw: Draw,
    offset: u32,
    group: u32,
)
    requires
        draw.analytic_params is None,
        draw_ops(ctx, set, mask_state, mesh, index, draw, offset).len() > 0,
    ensures
        1 <= group < fill_layouts(fill_kind(draw.draw_type)).len() <==> exists|i: int, bg: BindGroup|
            0 <= i < draw_ops(ctx, set, mask_state, mesh, index, draw, offset).len()
                && #[trigger] draw_ops(ctx, set, mask_state, mesh, index, draw, offset)[i] == (
            #[trigger] binds(group, bg)),
{
    let ops = draw_ops(ctx, set, mask_state, mesh, index, draw, offset);
    let fill = BindGroup::Fill { mesh, draw: index as usize };
    let transforms = BindGroup::Transforms { offset };
    if draw.draw_type is Color {
        assert(ops[1] == binds(1, transforms));
    } else {
        assert(ops[1] == binds(2, fill));
        assert(ops[2] == binds(1, transforms));
    }
}

/// The operation that binds a group.
pub open spec fn binds(group: u32, bind_group: BindGroup) -> RenderOp {
    RenderOp::SetBindGroup { group, bind_group }
}

// ---- Masks ----

/// How the pipelines of a mask state use the stencil.
#[derive(Clone, Copy, PartialEq, Eq, Structural, Debug)]
pub struct MaskStencil {
    /// Draw only where the stencil equals the reference.
    pub tests_reference: bool,
    pub pass_op: StencilOperation,
    /// Mask geometry writes to the stencil, not color.
    pub writes_color: bool,
}

/// How the pipelines of a mask state use the stencil: mask geometry increments it,
/// masked content is drawn where it passes, and the mask geometry decrements it
/// again.
pub open spec fn mask_stencil(mask_state: MaskState) -> MaskStencil {
    match mask_state {
        MaskState::NoMask => MaskStencil {
            tests_reference: false,
            pass_op: StencilOperation::Keep,
            writes_color: true,
        },
        MaskState::DrawMaskStencil => MaskStencil {
            tests_reference: true,
            pass_op: StencilOperation::IncrementClamp,
            writes_color: false,
        },
        MaskState::DrawMaskedContent => MaskStencil {
            tests_reference: true,
            pass_op: StencilOperation::Keep,
            writes_color: true,
        },
        MaskState::ClearMaskStencil => MaskStencil {
            tests_reference: true,
            pass_op: StencilOperation::DecrementClamp,
            writes_color: false,
        },
    }
}

impl MaskStencil {
    /// How the pipelines of a mask state use the stencil.
    pub fn for_mask_state(mask_state: MaskState) -> (r: MaskStencil)
        ensures
            r == mask_stencil(mask_state),
    {
        match mask_state {
            MaskState::NoMask => MaskStencil {
                tests_reference: false,
                pass_op: StencilOperation::Keep,
                writes_color: true,
            },
            MaskState::DrawMaskStencil => MaskStencil {
                tests_reference: true,
                pass_op: StencilOperation::IncrementClamp,
                writes_color: false,
            },
            MaskState::DrawMaskedContent => MaskStencil {
                tests_reference: true,
                pass_op: StencilOperation::Keep,
                writes_color: true,
            },
            MaskState::ClearMaskStencil => MaskStencil {
                tests_reference: true,
                pass_op: StencilOperation::DecrementClamp,
                writes_color: false,
            },
        }
    }

    /// Whether a draw passes at a pixel with a stencil value.
    pub open spec fn passes(self, reference: int, value: int) -> bool {
        self.tests_reference ==> value == reference
    }

    /// The stencil of a pixel after a draw over it. It has eight bits.
    pub open spec fn after(self, reference: int, value: int) -> int {
        if !self.passes(reference, value) {
            value
        } else {
            match self.pass_op {
                StencilOperation::Keep => value,
                StencilOperation::IncrementClamp => if value < 255 {
                    value + 1
                } else {
                    255
                },
                StencilOperation::DecrementClamp => if value > 0 {
                    value - 1
                } else {
                    0
                },
            }
        }
    }
}

/// The stencil of a pixel after a number of draws over it.
pub open spec fn drawn_over(mask_state: MaskState, reference: int, value: int, times: nat) -> int
    decreases times,
{
    if times == 0 {
        value
    } else {
        mask_stencil(mask_state).after(
            reference,
            drawn_over(mask_state, reference, value, (times - 1) as nat),
        )
    }
}

/// The reference that a command sets.
pub open spec fn reference_of(ops: Seq<RenderOp>) -> int {
    match ops.last() {
        RenderOp::SetStencilReference(reference) => reference as int,
        _ => 0,
    }
}

/// A mask is drawn once, however often its geometry covers a pixel.
proof fn lemma_drawn_over(mask_state: MaskState, reference: int, value: int, times: nat)
    requires
        writes_stencil(mask_state),
        0 <= value <= 255,
        mask_state is DrawMaskStencil ==> reference < 255,
        mask_state is ClearMaskStencil ==> reference > 0,
    ensures
        drawn_over(mask_state, reference, value, times) == if times == 0 {
            value
        } else {
            mask_stencil(mask_state).after(reference, value)
        },
    decreases times,
{
    if times > 0 {
        lemma_drawn_over(mask_state, reference, value, (times - 1) as nat);
    }
}

/// Masked content shows at a pixel exactly where the mask covers it and all masks
/// pushed before it do, however often the mask's triangles overlap there. Once the
/// mask has been drawn again to clear it, the stencil is what it was before the
/// mask was pushed. Meanwhile the mask itself does not show. The stencil has room
/// for 255 masks.
pub proof fn masks_show_what_they_cover(
    ctx: RenderContext,
    st: RunState,
    blend: Option<TrivialBlend>,
    value: int,
    drawn: nat,
    cleared: nat,
)
    requires
        0 <= value <= st.num_masks < 255,
        drawn > 0 <==> cleared > 0,
    ensures
        ({
            let push = run_command(ctx, Command::PushMask, st, blend);
            let activate = run_command(ctx, Command::ActivateMask, push.1, blend);
            let deactivate = run_command(ctx, Command::DeactivateMask, activate.1, blend);
            let masked = drawn_over(push.1.mask_state, reference_of(push.0), value, drawn);
            &&& mask_stencil(activate.1.mask_state).passes(reference_of(activate.0), masked)
                <==> value == st.num_masks && drawn > 0
            &&& drawn_over(
                deactivate.1.mask_state,
                reference_of(deactivate.0),
                masked,
                cleared,
            ) == value
            &&& mask_stencil(activate.1.mask_state).writes_color
            &&& !mask_stencil(push.1.mask_state).writes_color
            &&& !mask_stencil(deactivate.1.mask_state).writes_color
        }),
{
    let push = run_command(ctx, Command::PushMask, st, blend);
    let activate = run_command(ctx, Command::ActivateMask, push.1, blend);
    let deactivate = run_command(ctx, Command::DeactivateMask, activate.1, blend);
    let masked = drawn_over(push.1.mask_state, reference_of(push.0), value, drawn);
    lemma_drawn_over(push.1.mask_state, reference_of(push.0), value, drawn);
    lemma_drawn_over(deactivate.1.mask_state, reference_of(deactivate.0), masked, cleared);
}

// ---- What pipelines are made of ----

/// A fill pipeline fits its paint: it runs the shader for it, reads colored vertices exactly
/// where the color is that of the vertices, and has the globals, the transforms and whatever
/// its paint needs, in this order. It draws premultiplied colors over what is there, on
/// targets of the format and number of samples that are asked for, whichever way a triangle
/// turns, and leaves depth and stencil alone.
pub proof fn fill_pipelines_fit_their_paint(
    p: PipelineDescriptor,
    kind: FillKind,
    format: TextureFormat,
    sample_count: u32,
    src: int,
    src_alpha: int,
    dst: int,
)
    requires
        is_fill_pipeline(p, kind, format, sample_count),
    ensures
        p.shader == Shader::BezierFill <==> kind is Color,
        p.shader == Shader::BezierGradient <==> kind is Gradient,
        p.shader == Shader::BezierBitmap <==> kind is Bitmap,
        p.vertex is Color <==> kind is Color,
        p.layouts@.len() == if kind is Color {
            2int
        } else {
            3
        },
        p.layouts@[0] is Globals && p.layouts@[1] is Transforms,
        kind is Gradient ==> p.layouts@[2] is Gradient,
        kind is Bitmap ==> p.layouts@[2] is Bitmap,
        p.format == format && p.sample_count == sample_count,
        p.blend.color.eval(src, src_alpha, dst) == 255 * src + (255 - src_alpha) * dst,
        p.blend.alpha.eval(src, src_alpha, dst) == 255 * src + (255 - src_alpha) * dst,
        p.cull_mode is None,
        p.depth_stencil.format is Depth24PlusStencil8,
        !p.depth_stencil.depth_write_enabled && p.depth_stencil.depth_compare is Always,
        p.depth_stencil.stencil.compare is Always,
        p.depth_stencil.stencil.pass_op is Keep && p.depth_stencil.stencil.fail_op is Keep
            && p.depth_stencil.stencil.depth_fail_op is Keep,
        p.depth_stencil.read_mask == 255 && p.depth_stencil.write_mask == 255,
{
    crate::blend::hardware_blends_compute(src, src_alpha, dst);
}

/// Whether a bind group holds what a layout has.
pub open spec fn fits_layout(group: BindGroup, layout: BindLayout) -> bool {
    match layout {
        BindLayout::Globals => group is Globals,
        BindLayout::Transforms => group is Transforms,
        BindLayout::Gradient | BindLayout::Bitmap => group is Fill,
    }
}

/// The kind of fill of a pipeline that does not evaluate segments.
pub open spec fn pipeline_kind(pipeline: Pipeline) -> Option<FillKind> {
    match pipeline {
        Pipeline::ColorFill => Some(FillKind::Color),
        Pipeline::GradientFill => Some(FillKind::Gradient),
        Pipeline::BitmapFill => Some(FillKind::Bitmap),
        _ => None,
    }
}

/// The pipeline that a draw is drawn with, where it evaluates no segments, finds in each of
/// its groups beyond the globals what its layout has: it is the pipeline for the draw's own
/// paint.
pub proof fn pipelines_find_their_groups(
    ctx: RenderContext,
    set: PipelineSet,
    mask_state: MaskState,
    mesh: usize,
    index: usize,
    draw: Draw,
    offset: u32,
    group: u32,
)
    requires
        draw.analytic_params is None,
        draw_ops(ctx, set, mask_state, mesh, index as int, draw, offset).len() > 0,
    ensures
        ({
            let ops = draw_ops(ctx, set, mask_state, mesh, index as int, draw, offset);
            let end = ops.len() - 1;
            pipeline_at(ops, end) matches Some((s, pipeline)) && pipeline_kind(pipeline) matches Some(
                kind,
            ) && {
                &&& s == set
                &&& kind is Color <==> draw.draw_type is Color
                &&& kind is Gradient <==> draw.draw_type is Gradient
                &&& kind is Bitmap <==> draw.draw_type is Bitmap
                &&& 1 <= group < fill_layouts(kind).len() ==> (bound_at(ops, group, end) matches Some(
                    bound,
                ) && fits_layout(bound, fill_layouts(kind)[group as int]))
                &&& group >= fill_layouts(kind).len() ==> bound_at(ops, group, end) is None
            }
        }),
{
    draws_are_painted_with_their_paint(ctx, set, mask_state, mesh, index, draw, offset);
    reveal_with_fuel(bound_at, 8);
}

/// The layouts give the shaders what they read: matrices to the vertices, the transforms to
/// both, since they hold colors too, and textures, samplers and gradient uniforms to the
/// fragments. Buffers have room for what they hold, and only the transforms, which share a
/// buffer, are read at an offset.
pub proof fn layouts_give_shaders_what_they_read(layout: BindLayout, i: int)
    requires
        0 <= i < layout_entries(layout).len(),
    ensures
        ({
            let all = layout_entries(layout);
            let e = all[i];
            &&& all.len() == match layout {
                BindLayout::Globals | BindLayout::Transforms => 1int,
                BindLayout::Gradient => 4,
                BindLayout::Bitmap => 3,
            }
            &&& e.binding == i
            &&& e.vertex <==> i == 0
            &&& e.fragment <==> i > 0 || layout is Transforms
            &&& i == 0 ==> e.ty == BindingType::Uniform {
                has_dynamic_offset: layout is Transforms,
                min_size: if layout is Transforms {
                    96
                } else {
                    64
                },
            }
            &&& layout is Gradient && i == 1 ==> e.ty == BindingType::Uniform {
                has_dynamic_offset: false,
                min_size: 16,
            }
            &&& i > 0 && i == all.len() - 2 ==> e.ty is Texture
            &&& i > 0 && i == all.len() - 1 ==> e.ty is Sampler
        }),
{
}

/// Vertices hold a position and texture coordinates of two numbers each, a fill type of one
/// whole number, and where they have a color of their own four numbers for it.
pub proof fn attributes_have_their_formats(layout: VertexLayout, i: int)
    requires
        0 <= i < vertex_attributes(layout).len(),
    ensures
        ({
            let all = vertex_attributes(layout);
            &&& all.len() == if layout is Color {
                4int
            } else {
                3
            }
            &&& i < 2 ==> all[i].format is Float32x2
            &&& i == 2 ==> all[i].format is Sint32
            &&& i == 3 ==> all[i].format is Float32x4
        }),
{
}

} // verus!
