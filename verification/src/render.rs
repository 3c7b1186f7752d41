//! Command execution inside a render pass.
//!
//! Executing a command list yields the exact sequence of operations to record
//! into the pass. While it runs, three things are tracked: the index of the
//! next transform, the mask state and the number of masks pushed.
use crate::bitmaps::BitmapBinding;
use crate::blend::{classify, BlendMode, BlendType, RenderBlendMode, TrivialBlend};
use crate::commands::{Command, CommandList};
use crate::mesh::{Draw, DrawType};
use crate::vertex::MaskState;
use std::collections::HashMap;
use vstd::prelude::*;

verus! {

/// A family of pipelines that share a blend or stencil state.
#[derive(Clone, Copy, PartialEq, Eq, Structural, Debug)]
pub enum PipelineSet {
    ForMaskState(MaskState),
    ForTrivialBlend(TrivialBlend),
}

/// One pipeline of a family.
#[derive(Clone, Copy, PartialEq, Eq, Structural, Debug)]
pub enum Pipeline {
    ColorFill,
    GradientFill,
    BitmapFill,
    AnalyticColor,
    AnalyticGradient,
    AnalyticBitmap,
    RenderBitmap,
}

/// A vertex or index buffer.
#[derive(Clone, Copy, PartialEq, Eq, Structural, Debug)]
pub enum Buffer {
    /// Corners of the unit square as colored vertices, all white.
    UnitQuadColor,
    /// Corners of the unit square as textured vertices.
    UnitQuadTex,
    /// The two triangles of the unit square.
    UnitQuadIndices,
    /// The vertices of one draw of a mesh.
    DrawVertices { mesh: usize, draw: usize },
    /// The indices of one draw of a mesh.
    DrawIndices { mesh: usize, draw: usize },
}

/// A bind group.
#[derive(Clone, Copy, PartialEq, Eq, Structural, Debug)]
pub enum BindGroup {
    /// The view matrix.
    Globals,
    /// The transform that starts at a byte offset of the transform buffer.
    Transforms { offset: u32 },
    /// The gradient or bitmap of one draw of a mesh.
    Fill { mesh: usize, draw: usize },
    /// The analytic segments of one draw of a mesh.
    Analytic { mesh: usize, draw: usize },
    /// A bitmap that is drawn directly.
    Bitmap { key: usize },
}

/// One operation recorded into a render pass.
#[derive(Clone, Copy, PartialEq, Eq, Structural, Debug)]
pub enum RenderOp {
    SetPipeline { set: PipelineSet, pipeline: Pipeline },
    SetBindGroup { group: u32, bind_group: BindGroup },
    SetVertexBuffer(Buffer),
    SetIndexBuffer(Buffer),
    DrawIndexed { num_indices: u32 },
    SetStencilReference(u32),
}

/// Which analytic pipelines a family has.
#[derive(Clone, Copy, PartialEq, Eq, Structural, Debug)]
pub struct AnalyticPipelines {
    pub color: bool,
    pub gradient: bool,
    pub bitmap: bool,
}

impl AnalyticPipelines {
    /// Whether there is an analytic pipeline for a kind of fill.
    pub open spec fn spec_supports(self, draw_type: DrawType) -> bool {
        match draw_type {
            DrawType::Color => self.color,
            DrawType::Gradient { .. } => self.gradient,
            DrawType::Bitmap { .. } => self.bitmap,
        }
    }

    /// Whether there is an analytic pipeline for a kind of fill.
    pub fn supports(&self, draw_type: &DrawType) -> (r: bool)
        ensures
            r == self.spec_supports(*draw_type),
    {
        match draw_type {
            DrawType::Color => self.color,
            DrawType::Gradient { .. } => self.gradient,
            DrawType::Bitmap { .. } => self.bitmap,
        }
    }
}

/// The analytic pipelines of every family.
#[derive(Clone, Copy, PartialEq, Eq, Structural, Debug)]
pub struct PipelineSets {
    pub no_mask: AnalyticPipelines,
    pub draw_mask_stencil: AnalyticPipelines,
    pub draw_masked_content: AnalyticPipelines,
    pub clear_mask_stencil: AnalyticPipelines,
    pub blend_normal: AnalyticPipelines,
    pub blend_add: AnalyticPipelines,
    pub blend_subtract: AnalyticPipelines,
    pub blend_screen: AnalyticPipelines,
}

impl PipelineSets {
    /// The analytic pipelines of one family.
    pub open spec fn spec_analytic(self, set: PipelineSet) -> AnalyticPipelines {
        match set {
            PipelineSet::ForMaskState(MaskState::NoMask) => self.no_mask,
            PipelineSet::ForMaskState(MaskState::DrawMaskStencil) => self.draw_mask_stencil,
            PipelineSet::ForMaskState(MaskState::DrawMaskedContent) => self.draw_masked_content,
            PipelineSet::ForMaskState(MaskState::ClearMaskStencil) => self.clear_mask_stencil,
            PipelineSet::ForTrivialBlend(TrivialBlend::Normal) => self.blend_normal,
            PipelineSet::ForTrivialBlend(TrivialBlend::Add) => self.blend_add,
            PipelineSet::ForTrivialBlend(TrivialBlend::Subtract) => self.blend_subtract,
            PipelineSet::ForTrivialBlend(TrivialBlend::Screen) => self.blend_screen,
        }
    }

    /// The analytic pipelines of one family.
    pub fn analytic(&self, set: PipelineSet) -> (r: AnalyticPipelines)
        ensures
            r == self.spec_analytic(set),
    {
        match set {
            PipelineSet::ForMaskState(MaskState::NoMask) => self.no_mask,
            PipelineSet::ForMaskState(MaskState::DrawMaskStencil) => self.draw_mask_stencil,
            PipelineSet::ForMaskState(MaskState::DrawMaskedContent) => self.draw_masked_content,
            PipelineSet::ForMaskState(MaskState::ClearMaskStencil) => self.clear_mask_stencil,
            PipelineSet::ForTrivialBlend(TrivialBlend::Normal) => self.blend_normal,
            PipelineSet::ForTrivialBlend(TrivialBlend::Add) => self.blend_add,
            PipelineSet::ForTrivialBlend(TrivialBlend::Subtract) => self.blend_subtract,
            PipelineSet::ForTrivialBlend(TrivialBlend::Screen) => self.blend_screen,
        }
    }
}

/// What commands are executed against.
#[derive(Clone, Copy)]
pub struct RenderContext<'a> {
    /// Bytes from one transform to the next.
    pub aligned_size: u32,
    pub pipelines: PipelineSets,
    /// The bitmaps that have a bind group.
    pub bitmaps: &'a HashMap<usize, BitmapBinding>,
}

/// How many transforms a 32-bit offset can address.
pub open spec fn addressable(aligned_size: int) -> int {
    u32::MAX as int / aligned_size + 1
}

impl<'a> RenderContext<'a> {
    /// Transforms do not overlap and take space.
    pub open spec fn wf(self) -> bool {
        self.aligned_size >= crate::transforms::TRANSFORMS_SIZE
    }

    /// Whether all transforms before `end` can be addressed.
    pub open spec fn can_address(self, end: int) -> bool {
        end <= addressable(self.aligned_size as int)
    }

    /// The byte offset of a transform.
    pub open spec fn offset_of(self, index: int) -> u32 {
        (index * self.aligned_size) as u32
    }

    /// Compute the dynamic uniform offset for a given transform index.
    pub fn transform_offset(&self, index: u32) -> (r: u32)
        requires
            self.wf(),
            self.can_address(index + 1),
        ensures
            r == self.offset_of(index as int),
            r == index * self.aligned_size,
    {
        proof {
            let s = self.aligned_size as int;
            let q = u32::MAX as int / s;
            vstd::arithmetic::div_mod::lemma_fundamental_div_mod(u32::MAX as int, s);
            assert(index * s <= s * q) by (nonlinear_arith)
                requires
                    index <= q,
                    s > 0,
            ;
        }
        index * self.aligned_size
    }
}

/// Where execution stands.
pub struct RunState {
    pub index: int,
    pub mask_state: MaskState,
    pub num_masks: int,
}

/// Where execution stands.
#[derive(Clone, Copy, PartialEq, Eq, Structural, Debug)]
pub struct ExecState {
    /// The transform that the next drawing command uses.
    pub transform_index: u32,
    pub mask_state: MaskState,
    pub num_masks: u32,
}

impl View for ExecState {
    type V = RunState;

    open spec fn view(&self) -> RunState {
        RunState {
            index: self.transform_index as int,
            mask_state: self.mask_state,
            num_masks: self.num_masks as int,
        }
    }
}

/// The family used while a mask state and a blend are in force: a blend counts
/// only where nothing is masked.
pub open spec fn pipeline_set(mask_state: MaskState, blend: Option<TrivialBlend>) -> PipelineSet {
    match blend {
        Some(b) if mask_state is NoMask => PipelineSet::ForTrivialBlend(b),
        _ => PipelineSet::ForMaskState(mask_state),
    }
}

/// The mask state after a mask has been popped and `num_masks` are left.
pub open spec fn state_after_pop(num_masks: int) -> MaskState {
    if num_masks == 0 {
        MaskState::NoMask
    } else {
        MaskState::DrawMaskedContent
    }
}

/// Whether geometry drawn in a mask state only changes the stencil.
pub open spec fn writes_stencil(mask_state: MaskState) -> bool {
    mask_state is DrawMaskStencil || mask_state is ClearMaskStencil
}

/// The pipeline for a draw, analytic or not.
pub open spec fn draw_pipeline(draw_type: DrawType, analytic: bool) -> Pipeline {
    match draw_type {
        DrawType::Color => if analytic {
            Pipeline::AnalyticColor
        } else {
            Pipeline::ColorFill
        },
        DrawType::Gradient { .. } => if analytic {
            Pipeline::AnalyticGradient
        } else {
            Pipeline::GradientFill
        },
        DrawType::Bitmap { .. } => if analytic {
            Pipeline::AnalyticBitmap
        } else {
            Pipeline::BitmapFill
        },
    }
}

/// What one draw of a mesh records. Mask generation and clearing use fill
/// contours only, so a stroke records nothing then.
pub open spec fn draw_ops(
    ctx: RenderContext,
    set: PipelineSet,
    mask_state: MaskState,
    mesh: usize,
    index: int,
    draw: Draw,
    offset: u32,
) -> Seq<RenderOp> {
    let analytic = draw.analytic_params is Some && ctx.pipelines.spec_analytic(set).spec_supports(
        draw.draw_type,
    );
    let textured = !(draw.draw_type is Color);
    let i = index as usize;
    if draw.is_stroke && writes_stencil(mask_state) {
        seq![]
    } else {
        seq![
            RenderOp::SetPipeline { set, pipeline: draw_pipeline(draw.draw_type, analytic) },
        ] + (if textured {
            seq![
                RenderOp::SetBindGroup { group: 2, bind_group: BindGroup::Fill { mesh, draw: i } },
            ]
        } else {
            seq![]
        }) + (if analytic {
            seq![
                RenderOp::SetBindGroup {
                    group: if textured { 3 } else { 2 },
                    bind_group: BindGroup::Analytic { mesh, draw: i },
                },
            ]
        } else {
            seq![]
        }) + seq![
            RenderOp::SetBindGroup { group: 1, bind_group: BindGroup::Transforms { offset } },
            RenderOp::SetVertexBuffer(Buffer::DrawVertices { mesh, draw: i }),
            RenderOp::SetIndexBuffer(Buffer::DrawIndices { mesh, draw: i }),
            RenderOp::DrawIndexed { num_indices: draw.num_indices },
        ]
    }
}

/// What all draws of a mesh record, in order.
pub open spec fn mesh_ops(
    ctx: RenderContext,
    set: PipelineSet,
    mask_state: MaskState,
    mesh: usize,
    draws: Seq<Draw>,
    offset: u32,
) -> Seq<RenderOp>
    decreases draws.len(),
{
    if draws.len() == 0 {
        seq![]
    } else {
        mesh_ops(ctx, set, mask_state, mesh, draws.drop_last(), offset) + draw_ops(
            ctx,
            set,
            mask_state,
            mesh,
            draws.len() - 1,
            draws.last(),
            offset,
        )
    }
}

/// What a unit quad with a solid color records.
pub open spec fn color_quad_ops(set: PipelineSet, offset: u32) -> Seq<RenderOp> {
    seq![
        RenderOp::SetPipeline { set, pipeline: Pipeline::ColorFill },
        RenderOp::SetBindGroup { group: 1, bind_group: BindGroup::Transforms { offset } },
        RenderOp::SetVertexBuffer(Buffer::UnitQuadColor),
        RenderOp::SetIndexBuffer(Buffer::UnitQuadIndices),
        RenderOp::DrawIndexed { num_indices: 6 },
    ]
}

/// What a unit quad with a bitmap records.
pub open spec fn bitmap_quad_ops(set: PipelineSet, key: usize, offset: u32) -> Seq<RenderOp> {
    seq![
        RenderOp::SetPipeline { set, pipeline: Pipeline::RenderBitmap },
        RenderOp::SetBindGroup { group: 1, bind_group: BindGroup::Transforms { offset } },
        RenderOp::SetBindGroup { group: 2, bind_group: BindGroup::Bitmap { key } },
        RenderOp::SetVertexBuffer(Buffer::UnitQuadTex),
        RenderOp::SetIndexBuffer(Buffer::UnitQuadIndices),
        RenderOp::DrawIndexed { num_indices: 6 },
    ]
}

/// What one edge of an outlined rectangle records.
pub open spec fn edge_ops(offset: u32) -> Seq<RenderOp> {
    seq![
        RenderOp::SetBindGroup { group: 1, bind_group: BindGroup::Transforms { offset } },
        RenderOp::DrawIndexed { num_indices: 6 },
    ]
}

/// What an outlined rectangle records: four thin quads.
pub open spec fn line_rect_ops(ctx: RenderContext, set: PipelineSet, index: int) -> Seq<RenderOp> {
    seq![
        RenderOp::SetPipeline { set, pipeline: Pipeline::ColorFill },
        RenderOp::SetVertexBuffer(Buffer::UnitQuadColor),
        RenderOp::SetIndexBuffer(Buffer::UnitQuadIndices),
    ] + edge_ops(ctx.offset_of(index)) + edge_ops(ctx.offset_of(index + 1)) + edge_ops(
        ctx.offset_of(index + 2),
    ) + edge_ops(ctx.offset_of(index + 3))
}

/// The blend in force inside a blend command. Complex blends are composited by
/// the frame; inside a render pass they fall back to Normal, which keeps the
/// blend already in force.
pub open spec fn nested_blend(blend: Option<TrivialBlend>, block: BlendType) -> Option<
    TrivialBlend,
> {
    match block {
        BlendType::Trivial(TrivialBlend::Normal) => blend,
        BlendType::Trivial(trivial) => Some(trivial),
        BlendType::Complex(_) => blend,
    }
}

/// What a list of commands records, and where execution stands after it.
pub open spec fn run_list(
    ctx: RenderContext,
    cmds: Seq<Command>,
    st: RunState,
    blend: Option<TrivialBlend>,
) -> (Seq<RenderOp>, RunState)
    decreases cmds,
{
    if cmds.len() == 0 {
        (seq![], st)
    } else {
        let (ops, mid) = run_list(ctx, cmds.drop_last(), st, blend);
        let (more, end) = run_command(ctx, cmds.last(), mid, blend);
        (ops + more, end)
    }
}

/// What one command records, and where execution stands after it.
pub open spec fn run_command(
    ctx: RenderContext,
    cmd: Command,
    st: RunState,
    blend: Option<TrivialBlend>,
) -> (Seq<RenderOp>, RunState)
    decreases cmd,
{
    let set = pipeline_set(st.mask_state, blend);
    let offset = ctx.offset_of(st.index);
    let next = RunState { index: st.index + 1, ..st };
    match cmd {
        Command::RenderShape { shape, .. } => (
            mesh_ops(ctx, set, st.mask_state, shape.0.id, shape.0.draws@, offset),
            next,
        ),
        Command::RenderBitmap { bitmap, .. } => (
            if ctx.bitmaps@.contains_key(bitmap.key) {
                bitmap_quad_ops(set, bitmap.key, offset)
            } else {
                seq![]
            },
            next,
        ),
        Command::RenderStage3D { .. } => (seq![], next),
        Command::DrawRect { .. } => (color_quad_ops(set, offset), next),
        Command::DrawLine { .. } => (color_quad_ops(set, offset), next),
        Command::DrawLineRect { .. } => (
            line_rect_ops(ctx, set, st.index),
            RunState { index: st.index + 4, ..st },
        ),
        Command::PushMask => (
            seq![RenderOp::SetStencilReference(st.num_masks as u32)],
            RunState {
                num_masks: st.num_masks + 1,
                mask_state: MaskState::DrawMaskStencil,
                ..st
            },
        ),
        Command::ActivateMask => (
            seq![RenderOp::SetStencilReference(st.num_masks as u32)],
            RunState { mask_state: MaskState::DrawMaskedContent, ..st },
        ),
        Command::DeactivateMask => (
            seq![RenderOp::SetStencilReference(st.num_masks as u32)],
            RunState { mask_state: MaskState::ClearMaskStencil, ..st },
        ),
        Command::PopMask => (
            seq![RenderOp::SetStencilReference((st.num_masks - 1) as u32)],
            RunState {
                num_masks: st.num_masks - 1,
                mask_state: state_after_pop(st.num_masks - 1),
                ..st
            },
        ),
        Command::Blend(sub, mode) => run_list(
            ctx,
            sub.commands@,
            st,
            nested_blend(blend, classify(mode)),
        ),
        Command::RenderAlphaMask { maskee_commands, mask_commands } => {
            // Mask geometry increments the stencil.
            let s0 = RunState {
                num_masks: st.num_masks + 1,
                mask_state: MaskState::DrawMaskStencil,
                ..st
            };
            let (o1, s1) = run_list(ctx, mask_commands.commands@, s0, None);
            // The maskee is drawn where the stencil passes.
            let s2 = RunState { mask_state: MaskState::DrawMaskedContent, ..s1 };
            let (o3, s3) = run_list(ctx, maskee_commands.commands@, s2, blend);
            // The mask geometry, with its own transforms again, decrements it.
            let s4 = RunState { index: st.index, mask_state: MaskState::ClearMaskStencil, ..s3 };
            let (o5, s5) = run_list(ctx, mask_commands.commands@, s4, None);
            (
                seq![RenderOp::SetStencilReference(st.num_masks as u32)] + o1 + seq![
                    RenderOp::SetStencilReference(s1.num_masks as u32),
                ] + o3 + seq![RenderOp::SetStencilReference(s3.num_masks as u32)] + o5 + seq![
                    RenderOp::SetStencilReference((s5.num_masks - 1) as u32),
                ],
                RunState {
                    index: s3.index,
                    num_masks: s5.num_masks - 1,
                    mask_state: state_after_pop(s5.num_masks - 1),
                },
            )
        },
    }
}

/// The number of transforms that a list uses.
pub open spec fn transform_count(cmds: Seq<Command>) -> nat
    decreases cmds,
{
    if cmds.len() == 0 {
        0
    } else {
        transform_count(cmds.drop_last()) + command_transforms(cmds.last())
    }
}

/// The number of transforms that a command uses. An alpha mask draws its mask
/// twice, with the same transforms.
pub open spec fn command_transforms(cmd: Command) -> nat
    decreases cmd,
{
    match cmd {
        Command::RenderShape { .. }
        | Command::RenderBitmap { .. }
        | Command::RenderStage3D { .. }
        | Command::DrawRect { .. }
        | Command::DrawLine { .. } => 1,
        Command::DrawLineRect { .. } => 4,
        Command::PushMask
        | Command::ActivateMask
        | Command::DeactivateMask
        | Command::PopMask => 0,
        Command::Blend(sub, _) => transform_count(sub.commands@),
        Command::RenderAlphaMask { maskee_commands, mask_commands } => transform_count(
            mask_commands.commands@,
        ) + transform_count(maskee_commands.commands@),
    }
}

/// The number of masks after a list, from the number before it.
pub open spec fn masks_after(cmds: Seq<Command>, n: int) -> int
    decreases cmds,
{
    if cmds.len() == 0 {
        n
    } else {
        command_masks_after(cmds.last(), masks_after(cmds.drop_last(), n))
    }
}

/// The number of masks after a command, from the number before it.
pub open spec fn command_masks_after(cmd: Command, n: int) -> int
    decreases cmd,
{
    match cmd {
        Command::PushMask => n + 1,
        Command::PopMask => n - 1,
        Command::Blend(sub, _) => masks_after(sub.commands@, n),
        Command::RenderAlphaMask { maskee_commands, mask_commands } => {
            let n1 = masks_after(mask_commands.commands@, n + 1);
            let n2 = masks_after(maskee_commands.commands@, n1);
            masks_after(mask_commands.commands@, n2) - 1
        },
        _ => n,
    }
}

/// Whether a list never pops a mask that was not pushed, nor counts beyond 32
/// bits.
pub open spec fn masks_ok(cmds: Seq<Command>, n: int) -> bool
    decreases cmds,
{
    cmds.len() == 0 || {
        &&& masks_ok(cmds.drop_last(), n)
        &&& command_masks_ok(cmds.last(), masks_after(cmds.drop_last(), n))
    }
}

/// Whether a command never pops a mask that was not pushed, nor counts beyond
/// 32 bits.
pub open spec fn command_masks_ok(cmd: Command, n: int) -> bool
    decreases cmd,
{
    match cmd {
        Command::PushMask => n < u32::MAX,
        Command::PopMask => 0 < n,
        Command::Blend(sub, _) => masks_ok(sub.commands@, n),
        Command::RenderAlphaMask { maskee_commands, mask_commands } => {
            let n1 = masks_after(mask_commands.commands@, n + 1);
            let n2 = masks_after(maskee_commands.commands@, n1);
            &&& n < u32::MAX
            &&& masks_ok(mask_commands.commands@, n + 1)
            &&& masks_ok(maskee_commands.commands@, n1)
            &&& masks_ok(mask_commands.commands@, n2)
            &&& masks_after(mask_commands.commands@, n2) > 0
        },
        _ => true,
    }
}

/// Executing a list uses up exactly the transforms collected from it, and
/// leaves the number of masks that its commands say.
pub proof fn run_list_state(
    ctx: RenderContext,
    cmds: Seq<Command>,
    st: RunState,
    blend: Option<TrivialBlend>,
)
    ensures
        run_list(ctx, cmds, st, blend).1.index == st.index + transform_count(cmds),
        run_list(ctx, cmds, st, blend).1.num_masks == masks_after(cmds, st.num_masks),
    decreases cmds,
{
    if cmds.len() > 0 {
        run_list_state(ctx, cmds.drop_last(), st, blend);
        let mid = run_list(ctx, cmds.drop_last(), st, blend).1;
        run_command_state(ctx, cmds.last(), mid, blend);
    }
}

/// Executing a command uses up exactly the transforms collected from it, and
/// leaves the number of masks that it says.
pub proof fn run_command_state(
    ctx: RenderContext,
    cmd: Command,
    st: RunState,
    blend: Option<TrivialBlend>,
)
    ensures
        run_command(ctx, cmd, st, blend).1.index == st.index + command_transforms(cmd),
        run_command(ctx, cmd, st, blend).1.num_masks == command_masks_after(cmd, st.num_masks),
    decreases cmd,
{
    match cmd {
        Command::Blend(sub, mode) => {
            run_list_state(ctx, sub.commands@, st, nested_blend(blend, classify(mode)));
        },
        Command::RenderAlphaMask { maskee_commands, mask_commands } => {
            let s0 = RunState {
                num_masks: st.num_masks + 1,
                mask_state: MaskState::DrawMaskStencil,
                ..st
            };
            run_list_state(ctx, mask_commands.commands@, s0, None);
            let s1 = run_list(ctx, mask_commands.commands@, s0, None).1;
            let s2 = RunState { mask_state: MaskState::DrawMaskedContent, ..s1 };
            run_list_state(ctx, maskee_commands.commands@, s2, blend);
            let s3 = run_list(ctx, maskee_commands.commands@, s2, blend).1;
            let s4 = RunState { index: st.index, mask_state: MaskState::ClearMaskStencil, ..s3 };
            run_list_state(ctx, mask_commands.commands@, s4, None);
        },
        _ => {},
    }
}

/// A part of a list from its start uses no more transforms than the list, and is
/// as free of mask errors.
pub(crate) proof fn lemma_prefix(cmds: Seq<Command>, i: int, n: int)
    requires
        0 <= i <= cmds.len(),
    ensures
        transform_count(cmds.take(i)) <= transform_count(cmds),
        masks_ok(cmds, n) ==> masks_ok(cmds.take(i), n),
    decreases cmds.len() - i,
{
    if i < cmds.len() {
        lemma_prefix(cmds, i + 1, n);
        assert(cmds.take(i + 1).drop_last() == cmds.take(i));
    } else {
        assert(cmds.take(i) == cmds);
    }
}

/// Every addressable transform index fits in 32 bits.
pub(crate) proof fn lemma_addressable(aligned_size: int)
    requires
        aligned_size >= crate::transforms::TRANSFORMS_SIZE,
    ensures
        addressable(aligned_size) < u32::MAX,
{
    vstd::arithmetic::div_mod::lemma_fundamental_div_mod(u32::MAX as int, aligned_size);
    let q = u32::MAX as int / aligned_size;
    assert(96 * q <= aligned_size * q) by (nonlinear_arith)
        requires
            aligned_size >= 96,
            q >= 0,
    ;
}

/// The family used while a mask state and a blend are in force.
pub fn select_pipelines(mask_state: MaskState, blend: Option<TrivialBlend>) -> (r: PipelineSet)
    ensures
        r == pipeline_set(mask_state, blend),
{
    match blend {
        Some(b) => if mask_state == MaskState::NoMask {
            PipelineSet::ForTrivialBlend(b)
        } else {
            PipelineSet::ForMaskState(mask_state)
        },
        None => PipelineSet::ForMaskState(mask_state),
    }
}

/// Records one draw of a mesh.
fn record_draw(
    ctx: &RenderContext,
    set: PipelineSet,
    mask_state: MaskState,
    mesh: usize,
    index: usize,
    draw: &Draw,
    offset: u32,
    ops: &mut Vec<RenderOp>,
)
    ensures
        final(ops)@ == old(ops)@ + draw_ops(
            *ctx,
            set,
            mask_state,
            mesh,
            index as int,
            *draw,
            offset,
        ),
{
    if draw.is_stroke && (mask_state == MaskState::DrawMaskStencil || mask_state
        == MaskState::ClearMaskStencil) {
        return ;
    }
    let analytic = draw.analytic_params.is_some() && ctx.pipelines.analytic(set).supports(
        &draw.draw_type,
    );
    let pipeline = match &draw.draw_type {
        DrawType::Color => if analytic {
            Pipeline::AnalyticColor
        } else {
            Pipeline::ColorFill
        },
        DrawType::Gradient { .. } => if analytic {
            Pipeline::AnalyticGradient
        } else {
            Pipeline::GradientFill
        },
        DrawType::Bitmap { .. } => if analytic {
            Pipeline::AnalyticBitmap
        } else {
            Pipeline::BitmapFill
        },
    };
    let textured = match &draw.draw_type {
        DrawType::Color => false,
        DrawType::Gradient { .. } => true,
        DrawType::Bitmap { .. } => true,
    };
    ops.push(RenderOp::SetPipeline { set, pipeline });
    if textured {
        ops.push(
            RenderOp::SetBindGroup { group: 2, bind_group: BindGroup::Fill { mesh, draw: index } },
        );
    }
    if analytic {
        let group: u32 = if textured {
            3
        } else {
            2
        };
        ops.push(
            RenderOp::SetBindGroup { group, bind_group: BindGroup::Analytic { mesh, draw: index } },
        );
    }
    ops.push(RenderOp::SetBindGroup { group: 1, bind_group: BindGroup::Transforms { offset } });
    ops.push(RenderOp::SetVertexBuffer(Buffer::DrawVertices { mesh, draw: index }));
    ops.push(RenderOp::SetIndexBuffer(Buffer::DrawIndices { mesh, draw: index }));
    ops.push(RenderOp::DrawIndexed { num_indices: draw.num_indices });
}

/// Records all draws of a mesh.
fn record_mesh(
    ctx: &RenderContext,
    set: PipelineSet,
    mask_state: MaskState,
    mesh: usize,
    draws: &Vec<Draw>,
    offset: u32,
    ops: &mut Vec<RenderOp>,
)
    ensures
        final(ops)@ == old(ops)@ + mesh_ops(*ctx, set, mask_state, mesh, draws@, offset),
{
    let ghost before = ops@;
    let mut i: usize = 0;
    while i < draws.len()
        invariant
            i <= draws.len(),
            ops@ == before + mesh_ops(
                *ctx,
                set,
                mask_state,
                mesh,
                draws@.take(i as int),
                offset,
            ),
        decreases draws.len() - i,
    {
        record_draw(ctx, set, mask_state, mesh, i, &draws[i], offset, ops);
        assert(draws@.take(i + 1).drop_last() == draws@.take(i as int));
        i += 1;
    }
    assert(draws@.take(i as int) == draws@);
}

/// Records a unit quad in a solid color.
fn record_color_quad(set: PipelineSet, offset: u32, ops: &mut Vec<RenderOp>)
    ensures
        final(ops)@ == old(ops)@ + color_quad_ops(set, offset),
{
    ops.push(RenderOp::SetPipeline { set, pipeline: Pipeline::ColorFill });
    ops.push(RenderOp::SetBindGroup { group: 1, bind_group: BindGroup::Transforms { offset } });
    ops.push(RenderOp::SetVertexBuffer(Buffer::UnitQuadColor));
    ops.push(RenderOp::SetIndexBuffer(Buffer::UnitQuadIndices));
    ops.push(RenderOp::DrawIndexed { num_indices: 6 });
}

/// Records a unit quad with a bitmap.
fn record_bitmap_quad(set: PipelineSet, key: usize, offset: u32, ops: &mut Vec<RenderOp>)
    ensures
        final(ops)@ == old(ops)@ + bitmap_quad_ops(set, key, offset),
{
    ops.push(RenderOp::SetPipeline { set, pipeline: Pipeline::RenderBitmap });
    ops.push(RenderOp::SetBindGroup { group: 1, bind_group: BindGroup::Transforms { offset } });
    ops.push(RenderOp::SetBindGroup { group: 2, bind_group: BindGroup::Bitmap { key } });
    ops.push(RenderOp::SetVertexBuffer(Buffer::UnitQuadTex));
    ops.push(RenderOp::SetIndexBuffer(Buffer::UnitQuadIndices));
    ops.push(RenderOp::DrawIndexed { num_indices: 6 });
}

/// Records one edge of an outlined rectangle.
fn record_edge(offset: u32, ops: &mut Vec<RenderOp>)
    ensures
        final(ops)@ == old(ops)@ + edge_ops(offset),
{
    ops.push(RenderOp::SetBindGroup { group: 1, bind_group: BindGroup::Transforms { offset } });
    ops.push(RenderOp::DrawIndexed { num_indices: 6 });
}

/// Records an outlined rectangle.
fn record_line_rect(ctx: &RenderContext, set: PipelineSet, index: u32, ops: &mut Vec<RenderOp>)
    requires
        ctx.wf(),
        ctx.can_address(index + 4),
    ensures
        final(ops)@ == old(ops)@ + line_rect_ops(*ctx, set, index as int),
{
    proof {
        lemma_addressable(ctx.aligned_size as int);
    }
    ops.push(RenderOp::SetPipeline { set, pipeline: Pipeline::ColorFill });
    ops.push(RenderOp::SetVertexBuffer(Buffer::UnitQuadColor));
    ops.push(RenderOp::SetIndexBuffer(Buffer::UnitQuadIndices));
    record_edge(ctx.transform_offset(index), ops);
    record_edge(ctx.transform_offset(index + 1), ops);
    record_edge(ctx.transform_offset(index + 2), ops);
    record_edge(ctx.transform_offset(index + 3), ops);
}

/// Execute draw commands within an active render pass.
pub fn execute_commands(
    ctx: &RenderContext,
    commands: &CommandList,
    state: &mut ExecState,
    blend: Option<TrivialBlend>,
    ops: &mut Vec<RenderOp>,
)
    requires
        ctx.wf(),
        ctx.can_address(old(state)@.index + transform_count(commands.commands@)),
        masks_ok(commands.commands@, old(state)@.num_masks),
    ensures
        final(ops)@ == old(ops)@ + run_list(*ctx, commands.commands@, old(state)@, blend).0,
        final(state)@ == run_list(*ctx, commands.commands@, old(state)@, blend).1,
    decreases commands, 0int,
{
    let ghost cmds = commands.commands@;
    let ghost start = state@;
    let ghost before = ops@;
    let mut i: usize = 0;
    while i < commands.commands.len()
        invariant
            cmds == commands.commands@,
            i <= commands.commands.len(),
            ctx.wf(),
            ctx.can_address(start.index + transform_count(cmds)),
            masks_ok(cmds, start.num_masks),
            ops@ == before + run_list(*ctx, cmds.take(i as int), start, blend).0,
            state@ == run_list(*ctx, cmds.take(i as int), start, blend).1,
        decreases commands.commands.len() - i,
    {
        proof {
            assert(cmds.take(i + 1).drop_last() == cmds.take(i as int));
            lemma_prefix(cmds, i + 1, start.num_masks);
            run_list_state(*ctx, cmds.take(i as int), start, blend);
        }
        execute_single_command(ctx, &commands.commands[i], state, blend, ops);
        i += 1;
    }
    assert(cmds.take(i as int) == cmds);
}

/// Execute a single draw command within an active render pass.
pub fn execute_single_command(
    ctx: &RenderContext,
    cmd: &Command,
    state: &mut ExecState,
    blend: Option<TrivialBlend>,
    ops: &mut Vec<RenderOp>,
)
    requires
        ctx.wf(),
        ctx.can_address(old(state)@.index + command_transforms(*cmd)),
        command_masks_ok(*cmd, old(state)@.num_masks),
    ensures
        final(ops)@ == old(ops)@ + run_command(*ctx, *cmd, old(state)@, blend).0,
        final(state)@ == run_command(*ctx, *cmd, old(state)@, blend).1,
    decreases cmd, 1int,
{
    proof {
        lemma_addressable(ctx.aligned_size as int);
    }
    let set = select_pipelines(state.mask_state, blend);
    match cmd {
        Command::RenderShape { shape, .. } => {
            let offset = ctx.transform_offset(state.transform_index);
            state.transform_index = state.transform_index + 1;
            record_mesh(ctx, set, state.mask_state, shape.0.id, &shape.0.draws, offset, ops);
        },
        Command::RenderBitmap { bitmap, .. } => {
            let offset = ctx.transform_offset(state.transform_index);
            state.transform_index = state.transform_index + 1;
            if ctx.bitmaps.contains_key(&bitmap.key) {
                record_bitmap_quad(set, bitmap.key, offset, ops);
            }
        },
        Command::RenderStage3D { .. } => {
            state.transform_index = state.transform_index + 1;
        },
        Command::DrawRect { .. } => {
            let offset = ctx.transform_offset(state.transform_index);
            state.transform_index = state.transform_index + 1;
            record_color_quad(set, offset, ops);
        },
        Command::DrawLine { .. } => {
            // The matrix maps the unit quad to a line: the quad collapses to it.
            let offset = ctx.transform_offset(state.transform_index);
            state.transform_index = state.transform_index + 1;
            record_color_quad(set, offset, ops);
        },
        Command::DrawLineRect { .. } => {
            record_line_rect(ctx, set, state.transform_index, ops);
            state.transform_index = state.transform_index + 4;
        },
        Command::PushMask => {
            ops.push(RenderOp::SetStencilReference(state.num_masks));
            state.num_masks = state.num_masks + 1;
            state.mask_state = MaskState::DrawMaskStencil;
        },
        Command::ActivateMask => {
            state.mask_state = MaskState::DrawMaskedContent;
            ops.push(RenderOp::SetStencilReference(state.num_masks));
        },
        Command::DeactivateMask => {
            state.mask_state = MaskState::ClearMaskStencil;
            ops.push(RenderOp::SetStencilReference(state.num_masks));
        },
        Command::PopMask => {
            pop_mask(state, ops);
        },
        Command::Blend(sub_commands, mode) => {
            let nested = match BlendType::from(*mode) {
                BlendType::Trivial(TrivialBlend::Normal) => blend,
                BlendType::Trivial(trivial) => Some(trivial),
                BlendType::Complex(_) => blend,
            };
            execute_commands(ctx, sub_commands, state, nested, ops);
        },
        Command::RenderAlphaMask { .. } => {
            execute_alpha_mask(ctx, cmd, state, blend, ops);
        },
    }
}

/// Execute an alpha mask with the stencil buffer.
fn execute_alpha_mask(
    ctx: &RenderContext,
    cmd: &Command,
    state: &mut ExecState,
    blend: Option<TrivialBlend>,
    ops: &mut Vec<RenderOp>,
)
    requires
        cmd is RenderAlphaMask,
        ctx.wf(),
        ctx.can_address(old(state)@.index + command_transforms(*cmd)),
        command_masks_ok(*cmd, old(state)@.num_masks),
    ensures
        final(ops)@ == old(ops)@ + run_command(*ctx, *cmd, old(state)@, blend).0,
        final(state)@ == run_command(*ctx, *cmd, old(state)@, blend).1,
    decreases cmd, 0int,
{
    match cmd {
        Command::RenderAlphaMask { maskee_commands, mask_commands } => {
            // Push mask: increment stencil for mask geometry.
            let mask_transform_start: u32 = state.transform_index;
            ops.push(RenderOp::SetStencilReference(state.num_masks));
            state.num_masks = state.num_masks + 1;
            state.mask_state = MaskState::DrawMaskStencil;
            let ghost s0 = state@;
            proof {
                run_list_state(*ctx, mask_commands.commands@, s0, None);
            }
            // Draw mask geometry (writes to stencil, not color).
            execute_commands(ctx, mask_commands, state, None, ops);

            // Activate mask: switch to drawing masked content.
            state.mask_state = MaskState::DrawMaskedContent;
            ops.push(RenderOp::SetStencilReference(state.num_masks));
            let ghost s2 = state@;
            proof {
                run_list_state(*ctx, maskee_commands.commands@, s2, blend);
            }
            // Draw the maskee (only where stencil passes).
            execute_commands(ctx, maskee_commands, state, blend, ops);

            // Deactivate and clear mask: draw the mask geometry again, with its own
            // transforms, to decrement stencil.
            state.mask_state = MaskState::ClearMaskStencil;
            ops.push(RenderOp::SetStencilReference(state.num_masks));
            let next_transform: u32 = state.transform_index;
            state.transform_index = mask_transform_start;
            let ghost s4 = state@;
            proof {
                run_list_state(*ctx, mask_commands.commands@, s4, None);
            }
            execute_commands(ctx, mask_commands, state, None, ops);
            state.transform_index = next_transform;

            // Finally pop one mask level.
            pop_mask(state, ops);
        },
        _ => {},
    }
}

/// Pops one mask level.
fn pop_mask(state: &mut ExecState, ops: &mut Vec<RenderOp>)
    requires
        old(state).num_masks > 0,
    ensures
        final(state).num_masks == old(state).num_masks - 1,
        final(state).mask_state == state_after_pop(final(state).num_masks as int),
        final(state).transform_index == old(state).transform_index,
        final(ops)@ == old(ops)@.push(RenderOp::SetStencilReference(final(state).num_masks)),
{
    state.num_masks = state.num_masks - 1;
    ops.push(RenderOp::SetStencilReference(state.num_masks));
    if state.num_masks == 0 {
        state.mask_state = MaskState::NoMask;
    } else {
        state.mask_state = MaskState::DrawMaskedContent;
    }
}

/// The number of transforms that a list uses, if it fits in 32 bits.
pub fn count_transforms(commands: &CommandList) -> (r: Option<u32>)
    ensures
        match r {
            Some(n) => n == transform_count(commands.commands@),
            None => transform_count(commands.commands@) > u32::MAX,
        },
    decreases commands,
{
    let ghost cmds = commands.commands@;
    let mut n: u32 = 0;
    let mut i: usize = 0;
    while i < commands.commands.len()
        invariant
            cmds == commands.commands@,
            i <= commands.commands.len(),
            n == transform_count(cmds.take(i as int)),
        decreases commands.commands.len() - i,
    {
        proof {
            assert(cmds.take(i + 1).drop_last() == cmds.take(i as int));
            lemma_prefix(cmds, i + 1, 0);
        }
        let m: u32 = match count_command_transforms(&commands.commands[i]) {
            Some(m) => m,
            None => {
                return None;
            },
        };
        n = match n.checked_add(m) {
            Some(sum) => sum,
            None => {
                return None;
            },
        };
        i += 1;
    }
    assert(cmds.take(i as int) == cmds);
    Some(n)
}

/// The number of transforms that a command uses, if it fits in 32 bits.
fn count_command_transforms(cmd: &Command) -> (r: Option<u32>)
    ensures
        match r {
            Some(n) => n == command_transforms(*cmd),
            None => command_transforms(*cmd) > u32::MAX,
        },
    decreases cmd,
{
    match cmd {
        Command::DrawLineRect { .. } => Some(4),
        Command::PushMask => Some(0),
        Command::ActivateMask => Some(0),
        Command::DeactivateMask => Some(0),
        Command::PopMask => Some(0),
        Command::Blend(sub_commands, _) => count_transforms(sub_commands),
        Command::RenderAlphaMask { maskee_commands, mask_commands } => {
            match (count_transforms(mask_commands), count_transforms(maskee_commands)) {
                (Some(a), Some(b)) => a.checked_add(b),
                _ => None,
            }
        },
        _ => Some(1),
    }
}

/// Whether a list, started at a number of masks, never pops a mask that was not
/// pushed nor counts beyond 32 bits; if so, the number of masks after it.
pub fn check_masks(commands: &CommandList, num_masks: u32) -> (r: Option<u32>)
    ensures
        r is Some == masks_ok(commands.commands@, num_masks as int),
        r matches Some(n) ==> n == masks_after(commands.commands@, num_masks as int),
    decreases commands,
{
    let ghost cmds = commands.commands@;
    let mut n: u32 = num_masks;
    let mut i: usize = 0;
    while i < commands.commands.len()
        invariant
            cmds == commands.commands@,
            i <= commands.commands.len(),
            masks_ok(cmds.take(i as int), num_masks as int),
            n == masks_after(cmds.take(i as int), num_masks as int),
        decreases commands.commands.len() - i,
    {
        proof {
            assert(cmds.take(i + 1).drop_last() == cmds.take(i as int));
            lemma_prefix(cmds, i + 1, num_masks as int);
        }
        n = match check_command_masks(&commands.commands[i], n) {
            Some(m) => m,
            None => {
                return None;
            },
        };
        i += 1;
    }
    assert(cmds.take(i as int) == cmds);
    Some(n)
}

/// As [`check_masks`], for one command.
pub(crate) fn check_command_masks(cmd: &Command, num_masks: u32) -> (r: Option<u32>)
    ensures
        r is Some == command_masks_ok(*cmd, num_masks as int),
        r matches Some(n) ==> n == command_masks_after(*cmd, num_masks as int),
    decreases cmd,
{
    match cmd {
        Command::PushMask => num_masks.checked_add(1),
        Command::PopMask => num_masks.checked_sub(1),
        Command::Blend(sub_commands, _) => check_masks(sub_commands, num_masks),
        Command::RenderAlphaMask { maskee_commands, mask_commands } => {
            let pushed: u32 = match num_masks.checked_add(1) {
                Some(n) => n,
                None => {
                    return None;
                },
            };
            let masked: u32 = match check_masks(mask_commands, pushed) {
                Some(n) => n,
                None => {
                    return None;
                },
            };
            let drawn: u32 = match check_masks(maskee_commands, masked) {
                Some(n) => n,
                None => {
                    return None;
                },
            };
            match check_masks(mask_commands, drawn) {
                Some(cleared) => cleared.checked_sub(1),
                None => None,
            }
        },
        _ => Some(num_masks),
    }
}

/// How a list changes the number of masks does not depend on how many there were.
pub proof fn mask_change_is_relative(cmds: Seq<Command>, n: int, m: int)
    ensures
        masks_after(cmds, n) - n == masks_after(cmds, m) - m,
    decreases cmds,
{
    if cmds.len() > 0 {
        mask_change_is_relative(cmds.drop_last(), n, m);
        lemma_command_mask_change(
            cmds.last(),
            masks_after(cmds.drop_last(), n),
            masks_after(cmds.drop_last(), m),
        );
    }
}

proof fn lemma_command_mask_change(cmd: Command, n: int, m: int)
    ensures
        command_masks_after(cmd, n) - n == command_masks_after(cmd, m) - m,
    decreases cmd,
{
    match cmd {
        Command::Blend(sub, _) => {
            mask_change_is_relative(sub.commands@, n, m);
        },
        Command::RenderAlphaMask { maskee_commands, mask_commands } => {
            let (mask, maskee) = (mask_commands.commands@, maskee_commands.commands@);
            let (n1, m1) = (masks_after(mask, n + 1), masks_after(mask, m + 1));
            mask_change_is_relative(mask, n + 1, m + 1);
            mask_change_is_relative(maskee, n1, m1);
            mask_change_is_relative(mask, masks_after(maskee, n1), masks_after(maskee, m1));
        },
        _ => {},
    }
}

/// An alpha mask whose parts pop what they push leaves as many masks as there
/// were. Afterwards content is masked exactly where a mask is left.
pub proof fn alpha_mask_restores_masks(
    ctx: RenderContext,
    cmd: Command,
    st: RunState,
    blend: Option<TrivialBlend>,
)
    requires
        cmd matches Command::RenderAlphaMask { maskee_commands, mask_commands } && masks_after(
            maskee_commands.commands@,
            0,
        ) == 0 && masks_after(mask_commands.commands@, 0) == 0,
    ensures
        run_command(ctx, cmd, st, blend).1.num_masks == st.num_masks,
        run_command(ctx, cmd, st, blend).1.mask_state == state_after_pop(st.num_masks),
{
    run_command_state(ctx, cmd, st, blend);
    if let Command::RenderAlphaMask { maskee_commands, mask_commands } = cmd {
        let (mask, maskee) = (mask_commands.commands@, maskee_commands.commands@);
        mask_change_is_relative(mask, st.num_masks + 1, 0);
        mask_change_is_relative(maskee, st.num_masks + 1, 0);
    }
}

/// The operation that sets the stencil reference to a number of masks.
pub open spec fn reference(num_masks: int) -> RenderOp {
    RenderOp::SetStencilReference(num_masks as u32)
}

/// What drawing a mask, content under it, and geometry that clears it again records:
/// the mask is drawn at the number of masks below it, the content and the clearing at
/// one more, and then the number of masks is what it was.
pub open spec fn masked_ops(
    num_masks: int,
    mask: Seq<RenderOp>,
    content: Seq<RenderOp>,
    clearing: Seq<RenderOp>,
) -> Seq<RenderOp> {
    seq![reference(num_masks)] + mask + seq![reference(num_masks + 1)] + content + seq![
        reference(num_masks + 1),
    ] + clearing + seq![reference(num_masks)]
}

/// The stencil references of an alpha mask whose parts pop what they push: its mask is
/// drawn at the number of masks below it, its content and the clearing of the mask at
/// one more. The mask is cleared with the transforms that it was drawn with.
pub proof fn alpha_mask_starts_at_current_depth(
    ctx: RenderContext,
    cmd: Command,
    st: RunState,
    blend: Option<TrivialBlend>,
)
    requires
        cmd matches Command::RenderAlphaMask { maskee_commands, mask_commands } && masks_after(
            maskee_commands.commands@,
            0,
        ) == 0 && masks_after(mask_commands.commands@, 0) == 0,
    ensures
        cmd matches Command::RenderAlphaMask { maskee_commands, mask_commands } && {
            let n = st.num_masks;
            let drawn = run_list(
                ctx,
                mask_commands.commands@,
                RunState { num_masks: n + 1, mask_state: MaskState::DrawMaskStencil, ..st },
                None,
            );
            let shown = run_list(
                ctx,
                maskee_commands.commands@,
                RunState {
                    index: drawn.1.index,
                    num_masks: n + 1,
                    mask_state: MaskState::DrawMaskedContent,
                },
                blend,
            );
            let cleared = run_list(
                ctx,
                mask_commands.commands@,
                RunState {
                    index: st.index,
                    num_masks: n + 1,
                    mask_state: MaskState::ClearMaskStencil,
                },
                None,
            );
            run_command(ctx, cmd, st, blend).0 == masked_ops(n, drawn.0, shown.0, cleared.0)
        },
{
    if let Command::RenderAlphaMask { maskee_commands, mask_commands } = cmd {
        let (mask, maskee) = (mask_commands.commands@, maskee_commands.commands@);
        let n = st.num_masks;
        mask_change_is_relative(mask, n + 1, 0);
        mask_change_is_relative(maskee, n + 1, 0);
        let s0 = RunState { num_masks: n + 1, mask_state: MaskState::DrawMaskStencil, ..st };
        run_list_state(ctx, mask, s0, None);
        let s1 = run_list(ctx, mask, s0, None).1;
        let s2 = RunState { mask_state: MaskState::DrawMaskedContent, ..s1 };
        run_list_state(ctx, maskee, s2, blend);
        let s3 = run_list(ctx, maskee, s2, blend).1;
        let s4 = RunState { index: st.index, mask_state: MaskState::ClearMaskStencil, ..s3 };
        run_list_state(ctx, mask, s4, None);
    }
}

/// Pushing a mask, drawing it, activating it, drawing content, deactivating it, drawing
/// geometry that clears it and popping it: where each part pops what it pushes, the
/// mask is drawn at the number of masks below it, the content and the clearing at one
/// more. Afterwards there are as many masks as before, and content is masked exactly
/// where a mask is left.
pub proof fn push_and_pop_restore_masks(
    ctx: RenderContext,
    mask: Seq<Command>,
    content: Seq<Command>,
    clearing: Seq<Command>,
    st: RunState,
    blend: Option<TrivialBlend>,
)
    requires
        masks_after(mask, 0) == 0,
        masks_after(content, 0) == 0,
        masks_after(clearing, 0) == 0,
    ensures
        ({
            let n = st.num_masks;
            let all = run_list(
                ctx,
                seq![Command::PushMask] + mask + seq![Command::ActivateMask] + content + seq![
                    Command::DeactivateMask,
                ] + clearing + seq![Command::PopMask],
                st,
                blend,
            );
            let drawn = run_list(
                ctx,
                mask,
                RunState { num_masks: n + 1, mask_state: MaskState::DrawMaskStencil, ..st },
                blend,
            );
            let shown = run_list(
                ctx,
                content,
                RunState {
                    index: drawn.1.index,
                    num_masks: n + 1,
                    mask_state: MaskState::DrawMaskedContent,
                },
                blend,
            );
            let cleared = run_list(
                ctx,
                clearing,
                RunState {
                    index: shown.1.index,
                    num_masks: n + 1,
                    mask_state: MaskState::ClearMaskStencil,
                },
                blend,
            );
            &&& all.0 == masked_ops(n, drawn.0, shown.0, cleared.0)
            &&& all.1 == (RunState {
                index: cleared.1.index,
                num_masks: n,
                mask_state: state_after_pop(n),
            })
        }),
{
    let n = st.num_masks;
    let s1 = seq![Command::PushMask];
    let s2 = s1 + mask;
    let s3 = s2 + seq![Command::ActivateMask];
    let s4 = s3 + content;
    let s5 = s4 + seq![Command::DeactivateMask];
    let s6 = s5 + clearing;
    let s7 = s6 + seq![Command::PopMask];
    assert(s1.drop_last() == Seq::<Command>::empty());
    assert(s3.drop_last() == s2);
    assert(s5.drop_last() == s4);
    assert(s7.drop_last() == s6);
    reveal_with_fuel(run_list, 3);
    let r1 = run_list(ctx, s1, st, blend);
    assert(r1.0 =~= seq![reference(n)]);
    execution_is_sequential(ctx, s1, mask, st, blend);
    let r2 = run_list(ctx, s2, st, blend);
    run_list_state(ctx, mask, r1.1, blend);
    mask_change_is_relative(mask, n + 1, 0);
    let r3 = run_list(ctx, s3, st, blend);
    assert(r3.0 =~= r2.0 + seq![reference(n + 1)]);
    execution_is_sequential(ctx, s3, content, st, blend);
    let r4 = run_list(ctx, s4, st, blend);
    run_list_state(ctx, content, r3.1, blend);
    mask_change_is_relative(content, n + 1, 0);
    let r5 = run_list(ctx, s5, st, blend);
    assert(r5.0 =~= r4.0 + seq![reference(n + 1)]);
    execution_is_sequential(ctx, s5, clearing, st, blend);
    let r6 = run_list(ctx, s6, st, blend);
    run_list_state(ctx, clearing, r5.1, blend);
    mask_change_is_relative(clearing, n + 1, 0);
    assert(run_list(ctx, s7, st, blend).0 =~= r6.0 + seq![reference(n)]);
}

/// Whether the mask state tells whether there are masks.
pub open spec fn masks_consistent(st: RunState) -> bool {
    st.num_masks >= 0 && (st.mask_state is NoMask <==> st.num_masks == 0)
}

/// Whether a list activates, deactivates and pops masks only where there is one.
pub open spec fn uses_pushed_masks(cmds: Seq<Command>, n: int) -> bool
    decreases cmds,
{
    cmds.len() == 0 || {
        &&& uses_pushed_masks(cmds.drop_last(), n)
        &&& command_uses_pushed_masks(cmds.last(), masks_after(cmds.drop_last(), n))
    }
}

/// Whether a command activates, deactivates and pops masks only where there is one.
/// An alpha mask only has to find its own mask at its end, which it then pops.
pub open spec fn command_uses_pushed_masks(cmd: Command, n: int) -> bool
    decreases cmd,
{
    match cmd {
        Command::ActivateMask | Command::DeactivateMask | Command::PopMask => n > 0,
        Command::Blend(sub, _) => uses_pushed_masks(sub.commands@, n),
        Command::RenderAlphaMask { .. } => command_masks_after(cmd, n) >= 0,
        _ => true,
    }
}

/// There are no masks exactly where the mask state says so. Every list keeps that
/// which activates, deactivates and pops masks only where there is one.
pub proof fn mask_state_tells_masks(
    ctx: RenderContext,
    cmds: Seq<Command>,
    st: RunState,
    blend: Option<TrivialBlend>,
)
    requires
        masks_consistent(st),
        uses_pushed_masks(cmds, st.num_masks),
    ensures
        masks_consistent(run_list(ctx, cmds, st, blend).1),
    decreases cmds,
{
    if cmds.len() > 0 {
        mask_state_tells_masks(ctx, cmds.drop_last(), st, blend);
        run_list_state(ctx, cmds.drop_last(), st, blend);
        let mid = run_list(ctx, cmds.drop_last(), st, blend).1;
        command_mask_state_tells_masks(ctx, cmds.last(), mid, blend);
    }
}

/// As [`mask_state_tells_masks`], for one command.
pub proof fn command_mask_state_tells_masks(
    ctx: RenderContext,
    cmd: Command,
    st: RunState,
    blend: Option<TrivialBlend>,
)
    requires
        masks_consistent(st),
        command_uses_pushed_masks(cmd, st.num_masks),
    ensures
        masks_consistent(run_command(ctx, cmd, st, blend).1),
    decreases cmd,
{
    match cmd {
        Command::Blend(sub, mode) => {
            mask_state_tells_masks(ctx, sub.commands@, st, nested_blend(blend, classify(mode)));
        },
        Command::RenderAlphaMask { .. } => {
            run_command_state(ctx, cmd, st, blend);
        },
        _ => {},
    }
}

/// Executing one list after another records what executing both as one list
/// records.
pub proof fn execution_is_sequential(
    ctx: RenderContext,
    a: Seq<Command>,
    b: Seq<Command>,
    st: RunState,
    blend: Option<TrivialBlend>,
)
    ensures
        ({
            let first = run_list(ctx, a, st, blend);
            let second = run_list(ctx, b, first.1, blend);
            &&& run_list(ctx, a + b, st, blend).0 == first.0 + second.0
            &&& run_list(ctx, a + b, st, blend).1 == second.1
        }),
    decreases b.len(),
{
    if b.len() == 0 {
        assert(a + b == a);
    } else {
        execution_is_sequential(ctx, a, b.drop_last(), st, blend);
        assert((a + b).drop_last() == a + b.drop_last());
    }
}

/// Inside a render pass a complex blend, a Layer, a shader blend and a Normal
/// blend all draw their content as if it stood there without a blend.
pub proof fn nested_complex_blend_is_normal(
    ctx: RenderContext,
    cmd: Command,
    st: RunState,
    blend: Option<TrivialBlend>,
)
    requires
        cmd matches Command::Blend(_, mode) && (classify(mode) is Complex || classify(mode)
            == BlendType::Trivial(TrivialBlend::Normal)),
    ensures
        cmd matches Command::Blend(sub, _) && run_command(ctx, cmd, st, blend) == run_list(
            ctx,
            sub.commands@,
            st,
            blend,
        ),
{
}

/// Strokes never contribute to the mask stencil: while the stencil is written or
/// cleared, a mesh records what its fills alone record.
pub proof fn strokes_do_not_mask(
    ctx: RenderContext,
    set: PipelineSet,
    mask_state: MaskState,
    mesh: usize,
    draws: Seq<Draw>,
    offset: u32,
    op: RenderOp,
    draw: int,
)
    requires
        writes_stencil(mask_state),
        0 <= draw < draws.len() <= usize::MAX,
        draws[draw].is_stroke,
        mesh_ops(ctx, set, mask_state, mesh, draws, offset).contains(op),
    ensures
        op != RenderOp::SetVertexBuffer(Buffer::DrawVertices { mesh, draw: draw as usize }),
        op != RenderOp::SetIndexBuffer(Buffer::DrawIndices { mesh, draw: draw as usize }),
    decreases draws.len(),
{
    let ops = mesh_ops(ctx, set, mask_state, mesh, draws, offset);
    let init = mesh_ops(ctx, set, mask_state, mesh, draws.drop_last(), offset);
    let i = choose|i: int| 0 <= i < ops.len() && ops[i] == op;
    if i < init.len() {
        assert(init[i] == op);
        if draw < draws.len() - 1 {
            strokes_do_not_mask(
                ctx,
                set,
                mask_state,
                mesh,
                draws.drop_last(),
                offset,
                op,
                draw,
            );
        } else {
            lemma_buffers_of_earlier_draws(
                ctx,
                set,
                mask_state,
                mesh,
                draws.drop_last(),
                offset,
                op,
            );
        }
    }
}

/// A mesh uses no buffers but those of its own draws.
proof fn lemma_buffers_of_earlier_draws(
    ctx: RenderContext,
    set: PipelineSet,
    mask_state: MaskState,
    mesh: usize,
    draws: Seq<Draw>,
    offset: u32,
    op: RenderOp,
)
    requires
        draws.len() <= usize::MAX,
        mesh_ops(ctx, set, mask_state, mesh, draws, offset).contains(op),
    ensures
        op matches RenderOp::SetVertexBuffer(Buffer::DrawVertices { draw, .. }) ==> draw
            < draws.len(),
        op matches RenderOp::SetIndexBuffer(Buffer::DrawIndices { draw, .. }) ==> draw
            < draws.len(),
    decreases draws.len(),
{
    if draws.len() > 0 {
        let ops = mesh_ops(ctx, set, mask_state, mesh, draws, offset);
        let init = mesh_ops(ctx, set, mask_state, mesh, draws.drop_last(), offset);
        let i = choose|i: int| 0 <= i < ops.len() && ops[i] == op;
        if i < init.len() {
            assert(init[i] == op);
            lemma_buffers_of_earlier_draws(
                ctx,
                set,
                mask_state,
                mesh,
                draws.drop_last(),
                offset,
                op,
            );
        }
    }
}

/// Whether every transform that a sequence of operations binds is one of those
/// with an index from `start` up to, not including, `end`.
pub open spec fn binds_only(ctx: RenderContext, ops: Seq<RenderOp>, start: int, end: int) -> bool {
    forall|i: int|
        0 <= i < ops.len() ==> (#[trigger] ops[i] matches RenderOp::SetBindGroup {
            bind_group: BindGroup::Transforms { offset },
            ..
        } ==> exists|k: int| start <= k < end && offset == #[trigger] ctx.offset_of(k))
}

/// A list binds no transforms but its own.
pub proof fn list_binds_its_transforms(
    ctx: RenderContext,
    cmds: Seq<Command>,
    st: RunState,
    blend: Option<TrivialBlend>,
)
    ensures
        binds_only(
            ctx,
            run_list(ctx, cmds, st, blend).0,
            st.index,
            st.index + transform_count(cmds),
        ),
    decreases cmds,
{
    if cmds.len() > 0 {
        let (ops, mid) = run_list(ctx, cmds.drop_last(), st, blend);
        list_binds_its_transforms(ctx, cmds.drop_last(), st, blend);
        run_list_state(ctx, cmds.drop_last(), st, blend);
        command_binds_its_transforms(ctx, cmds.last(), mid, blend);
    }
}

/// A command binds no transforms but its own.
pub proof fn command_binds_its_transforms(
    ctx: RenderContext,
    cmd: Command,
    st: RunState,
    blend: Option<TrivialBlend>,
)
    ensures
        binds_only(
            ctx,
            run_command(ctx, cmd, st, blend).0,
            st.index,
            st.index + command_transforms(cmd),
        ),
    decreases cmd,
{
    let set = pipeline_set(st.mask_state, blend);
    match cmd {
        Command::RenderShape { shape, .. } => {
            lemma_mesh_binds(ctx, set, st.mask_state, shape.0.id, shape.0.draws@, st.index);
        },
        Command::Blend(sub, mode) => {
            list_binds_its_transforms(
                ctx,
                sub.commands@,
                st,
                nested_blend(blend, classify(mode)),
            );
        },
        Command::RenderAlphaMask { maskee_commands, mask_commands } => {
            let s0 = RunState {
                num_masks: st.num_masks + 1,
                mask_state: MaskState::DrawMaskStencil,
                ..st
            };
            run_list_state(ctx, mask_commands.commands@, s0, None);
            list_binds_its_transforms(ctx, mask_commands.commands@, s0, None);
            let s1 = run_list(ctx, mask_commands.commands@, s0, None).1;
            let s2 = RunState { mask_state: MaskState::DrawMaskedContent, ..s1 };
            run_list_state(ctx, maskee_commands.commands@, s2, blend);
            list_binds_its_transforms(ctx, maskee_commands.commands@, s2, blend);
            let s3 = run_list(ctx, maskee_commands.commands@, s2, blend).1;
            let s4 = RunState { index: st.index, mask_state: MaskState::ClearMaskStencil, ..s3 };
            list_binds_its_transforms(ctx, mask_commands.commands@, s4, None);
        },
        Command::DrawLineRect { .. } => {
            assert(ctx.offset_of(st.index) == ctx.offset_of(st.index + 0));
        },
        _ => {},
    }
}

proof fn lemma_mesh_binds(
    ctx: RenderContext,
    set: PipelineSet,
    mask_state: MaskState,
    mesh: usize,
    draws: Seq<Draw>,
    index: int,
)
    ensures
        binds_only(
            ctx,
            mesh_ops(ctx, set, mask_state, mesh, draws, ctx.offset_of(index)),
            index,
            index + 1,
        ),
    decreases draws.len(),
{
    if draws.len() > 0 {
        lemma_mesh_binds(ctx, set, mask_state, mesh, draws.drop_last(), index);
    }
}

// ---- What is drawn with what ----

/// The pipeline in force before the operation at a position: the last one that was set.
pub open spec fn pipeline_at(ops: Seq<RenderOp>, i: int) -> Option<(PipelineSet, Pipeline)>
    decreases i,
{
    if i <= 0 {
        None
    } else if let RenderOp::SetPipeline { set, pipeline } = ops[i - 1] {
        Some((set, pipeline))
    } else {
        pipeline_at(ops, i - 1)
    }
}

/// What is bound to a group before the operation at a position: the last one that was set.
pub open spec fn bound_at(ops: Seq<RenderOp>, group: u32, i: int) -> Option<BindGroup>
    decreases i,
{
    if i <= 0 {
        None
    } else if let RenderOp::SetBindGroup { group: g, bind_group } = ops[i - 1] {
        if g == group {
            Some(bind_group)
        } else {
            bound_at(ops, group, i - 1)
        }
    } else {
        bound_at(ops, group, i - 1)
    }
}

/// The vertices in force before the operation at a position: the last ones that were set.
pub open spec fn vertices_at(ops: Seq<RenderOp>, i: int) -> Option<Buffer>
    decreases i,
{
    if i <= 0 {
        None
    } else if let RenderOp::SetVertexBuffer(buffer) = ops[i - 1] {
        Some(buffer)
    } else {
        vertices_at(ops, i - 1)
    }
}

/// The indices in force before the operation at a position: the last ones that were set.
pub open spec fn indices_at(ops: Seq<RenderOp>, i: int) -> Option<Buffer>
    decreases i,
{
    if i <= 0 {
        None
    } else if let RenderOp::SetIndexBuffer(buffer) = ops[i - 1] {
        Some(buffer)
    } else {
        indices_at(ops, i - 1)
    }
}

/// Whether the operation at a position draws so many indices, with a pipeline, a transform,
/// vertices and indices.
pub open spec fn draws_at(
    ops: Seq<RenderOp>,
    i: int,
    pipeline: (PipelineSet, Pipeline),
    offset: u32,
    vertices: Buffer,
    indices: Buffer,
    num_indices: u32,
) -> bool {
    &&& 0 <= i < ops.len()
    &&& ops[i] == RenderOp::DrawIndexed { num_indices }
    &&& pipeline_at(ops, i) == Some(pipeline)
    &&& bound_at(ops, 1, i) == Some(BindGroup::Transforms { offset })
    &&& vertices_at(ops, i) == Some(vertices)
    &&& indices_at(ops, i) == Some(indices)
}

/// Whether only the last operation draws.
pub open spec fn draws_once(ops: Seq<RenderOp>) -> bool {
    &&& ops.len() > 0
    &&& ops.last() is DrawIndexed
    &&& forall|i: int| 0 <= i < ops.len() - 1 ==> !(#[trigger] ops[i] is DrawIndexed)
    &&& forall|i: int| 0 <= i < ops.len() ==> !(#[trigger] ops[i] is SetStencilReference)
}

/// Whether a pipeline paints what a draw is painted with.
pub open spec fn paints(pipeline: Pipeline, draw_type: DrawType) -> bool {
    match pipeline {
        Pipeline::ColorFill | Pipeline::AnalyticColor => draw_type is Color,
        Pipeline::GradientFill | Pipeline::AnalyticGradient => draw_type is Gradient,
        Pipeline::BitmapFill | Pipeline::AnalyticBitmap => draw_type is Bitmap,
        Pipeline::RenderBitmap => false,
    }
}

/// Whether a pipeline evaluates segments analytically.
pub open spec fn is_analytic(pipeline: Pipeline) -> bool {
    pipeline is AnalyticColor || pipeline is AnalyticGradient || pipeline is AnalyticBitmap
}

/// A draw of a mesh is drawn with a pipeline that paints what it is painted with, from the
/// family that is asked for, with its own vertices and all of its own indices, where the
/// transform of the mesh puts it. Its gradient or bitmap is bound where there is one; and
/// its segments behind that, exactly where it has some and the family has a pipeline that
/// evaluates them. Strokes are left out of masks.
pub proof fn draws_are_painted_with_their_paint(
    ctx: RenderContext,
    set: PipelineSet,
    mask_state: MaskState,
    mesh: usize,
    index: usize,
    draw: Draw,
    offset: u32,
)
    ensures
        ({
            let ops = draw_ops(ctx, set, mask_state, mesh, index as int, draw, offset);
            let end = ops.len() - 1;
            let family = ctx.pipelines.spec_analytic(set);
            let evaluates = draw.analytic_params is Some && match draw.draw_type {
                DrawType::Color => family.color,
                DrawType::Gradient { .. } => family.gradient,
                DrawType::Bitmap { .. } => family.bitmap,
            };
            let segments = BindGroup::Analytic { mesh, draw: index };
            let skipped = draw.is_stroke && (mask_state is DrawMaskStencil || mask_state is
                ClearMaskStencil);
            &&& skipped ==> ops.len() == 0
            &&& !skipped ==> {
                &&& draws_once(ops)
                &&& pipeline_at(ops, end) matches Some((s, pipeline)) && {
                    &&& s == set
                    &&& paints(pipeline, draw.draw_type)
                    &&& is_analytic(pipeline) == evaluates
                    &&& draws_at(
                        ops,
                        end,
                        (s, pipeline),
                        offset,
                        Buffer::DrawVertices { mesh, draw: index },
                        Buffer::DrawIndices { mesh, draw: index },
                        draw.num_indices,
                    )
                }
                &&& draw.draw_type is Color ==> bound_at(ops, 2, end) == (if evaluates {
                    Some(segments)
                } else {
                    None
                }) && bound_at(ops, 3, end) is None
                &&& !(draw.draw_type is Color) ==> bound_at(ops, 2, end) == Some(
                    BindGroup::Fill { mesh, draw: index },
                ) && bound_at(ops, 3, end) == if evaluates {
                    Some(segments)
                } else {
                    None
                }
                &&& bound_at(ops, 0, end) is None
            }
        }),
{
    reveal_with_fuel(pipeline_at, 8);
    reveal_with_fuel(bound_at, 8);
    reveal_with_fuel(vertices_at, 8);
    reveal_with_fuel(indices_at, 8);
}

/// Every draw of a mesh is recorded, each with its own number, in order: what the first draws
/// record comes first, then what the next one records.
pub proof fn meshes_are_drawn_whole(
    ctx: RenderContext,
    set: PipelineSet,
    mask_state: MaskState,
    mesh: usize,
    draws: Seq<Draw>,
    offset: u32,
    k: int,
)
    requires
        0 <= k < draws.len() <= usize::MAX,
    ensures
        ({
            let all = mesh_ops(ctx, set, mask_state, mesh, draws, offset);
            let before = mesh_ops(ctx, set, mask_state, mesh, draws.take(k), offset);
            let own = draw_ops(ctx, set, mask_state, mesh, k, draws[k], offset);
            &&& (before + own).is_prefix_of(all)
            &&& k == 0 ==> before.len() == 0
            &&& k == draws.len() - 1 ==> all == before + own
        }),
    decreases draws.len(),
{
    let init = draws.drop_last();
    let all = mesh_ops(ctx, set, mask_state, mesh, draws, offset);
    let most = mesh_ops(ctx, set, mask_state, mesh, init, offset);
    if k < draws.len() - 1 {
        meshes_are_drawn_whole(ctx, set, mask_state, mesh, init, offset, k);
        assert(init.take(k) == draws.take(k));
        assert(init[k] == draws[k]);
    } else {
        assert(draws.take(k) == init);
    }
    if k == 0 {
        assert(draws.take(0) == Seq::<Draw>::empty());
    }
}

/// Commands draw what they name. A shape draws its own mesh. A bitmap draws the unit quad
/// with its own texture, where that is bound. A rectangle and a line draw the unit quad in
/// white. An outline draws it four times, with four transforms in a row. All use the pipelines
/// of the mask state and blend in force and the transforms from where execution stands, and
/// leave the masks alone.
pub proof fn commands_draw_what_they_name(
    ctx: RenderContext,
    cmd: Command,
    st: RunState,
    blend: Option<TrivialBlend>,
)
    ensures
        ({
            let (ops, after) = run_command(ctx, cmd, st, blend);
            let end = ops.len() - 1;
            let set = pipeline_set(st.mask_state, blend);
            let quad = (set, Pipeline::ColorFill);
            let offset = ctx.offset_of(st.index);
            match cmd {
                Command::RenderShape { shape, .. } => {
                    &&& ops == mesh_ops(
                        ctx,
                        set,
                        st.mask_state,
                        shape.0.id,
                        shape.0.draws@,
                        offset,
                    )
                    &&& after == RunState { index: st.index + 1, ..st }
                },
                Command::RenderBitmap { bitmap, .. } => {
                    &&& after == RunState { index: st.index + 1, ..st }
                    &&& !ctx.bitmaps@.contains_key(bitmap.key) ==> ops.len() == 0
                    &&& ctx.bitmaps@.contains_key(bitmap.key) ==> {
                        &&& draws_once(ops)
                        &&& draws_at(
                            ops,
                            end,
                            (set, Pipeline::RenderBitmap),
                            offset,
                            Buffer::UnitQuadTex,
                            Buffer::UnitQuadIndices,
                            6,
                        )
                        &&& bound_at(ops, 2, end) == Some(BindGroup::Bitmap { key: bitmap.key })
                    }
                },
                Command::RenderStage3D { .. } => {
                    &&& ops.len() == 0
                    &&& after == RunState { index: st.index + 1, ..st }
                },
                Command::DrawRect { .. } | Command::DrawLine { .. } => {
                    &&& after == RunState { index: st.index + 1, ..st }
                    &&& draws_once(ops)
                    &&& draws_at(
                        ops,
                        end,
                        quad,
                        offset,
                        Buffer::UnitQuadColor,
                        Buffer::UnitQuadIndices,
                        6,
                    )
                },
                Command::DrawLineRect { .. } => {
                    &&& after == RunState { index: st.index + 4, ..st }
                    &&& forall|e: int|
                        0 <= e < 4 ==> draws_at(
                            ops,
                            2 * e + 4,
                            quad,
                            #[trigger] ctx.offset_of(st.index + e),
                            Buffer::UnitQuadColor,
                            Buffer::UnitQuadIndices,
                            6,
                        )
                    &&& ops.len() == 11
                    &&& forall|i: int|
                        0 <= i < 11 && (i < 4 || i % 2 == 1) ==> !(#[trigger] ops[i] is DrawIndexed)
                },
                _ => true,
            }
        }),
{
    reveal_with_fuel(pipeline_at, 12);
    reveal_with_fuel(bound_at, 12);
    reveal_with_fuel(vertices_at, 12);
    reveal_with_fuel(indices_at, 12);
    if let Command::DrawLineRect { .. } = cmd {
        let ops = run_command(ctx, cmd, st, blend).0;
        let set = pipeline_set(st.mask_state, blend);
        assert(ops == line_rect_ops(ctx, set, st.index));
        assert(ops[0] == RenderOp::SetPipeline { set, pipeline: Pipeline::ColorFill });
        assert(ctx.offset_of(st.index + 0) == ctx.offset_of(st.index));
        assert forall|e: int| 0 <= e < 4 implies draws_at(
            ops,
            2 * e + 4,
            (set, Pipeline::ColorFill),
            #[trigger] ctx.offset_of(st.index + e),
            Buffer::UnitQuadColor,
            Buffer::UnitQuadIndices,
            6,
        ) by {
            assert(e == 0 || e == 1 || e == 2 || e == 3);
        }
    }
}

/// Masks change how later commands draw and draw nothing themselves: pushing one makes
/// geometry mark the stencil at the number of masks so far, activating it makes geometry show
/// inside all masks, deactivating it makes geometry clear the stencil again, and popping it
/// leaves the masks before it, or none.
pub proof fn masks_change_how_commands_draw(
    ctx: RenderContext,
    cmd: Command,
    st: RunState,
    blend: Option<TrivialBlend>,
)
    ensures
        ({
            let (ops, after) = run_command(ctx, cmd, st, blend);
            let n = st.num_masks;
            &&& cmd is PushMask ==> ops == seq![RenderOp::SetStencilReference(n as u32)] && after
                == (RunState {
                index: st.index,
                mask_state: MaskState::DrawMaskStencil,
                num_masks: n + 1,
            })
            &&& cmd is ActivateMask ==> ops == seq![RenderOp::SetStencilReference(n as u32)]
                && after == (RunState {
                index: st.index,
                mask_state: MaskState::DrawMaskedContent,
                num_masks: n,
            })
            &&& cmd is DeactivateMask ==> ops == seq![RenderOp::SetStencilReference(n as u32)]
                && after == (RunState {
                index: st.index,
                mask_state: MaskState::ClearMaskStencil,
                num_masks: n,
            })
            &&& cmd is PopMask ==> ops == seq![RenderOp::SetStencilReference((n - 1) as u32)]
                && after == (RunState {
                index: st.index,
                mask_state: if n == 1 {
                    MaskState::NoMask
                } else {
                    MaskState::DrawMaskedContent
                },
                num_masks: n - 1,
            })
        }),
{
}

/// Content of a blend is drawn with that blend, or with the one around it where it has none
/// that the hardware can do. A blend counts only where nothing is masked; there the family
/// of the mask state counts.
pub proof fn blends_reach_their_content(
    ctx: RenderContext,
    cmd: Command,
    st: RunState,
    blend: Option<TrivialBlend>,
)
    ensures
        cmd matches Command::Blend(sub, mode) ==> run_command(ctx, cmd, st, blend) == run_list(
            ctx,
            sub.commands@,
            st,
            match mode {
                RenderBlendMode::Builtin(BlendMode::Add) => Some(TrivialBlend::Add),
                RenderBlendMode::Builtin(BlendMode::Subtract) => Some(TrivialBlend::Subtract),
                RenderBlendMode::Builtin(BlendMode::Screen) => Some(TrivialBlend::Screen),
                _ => blend,
            },
        ),
        pipeline_set(st.mask_state, blend) == match (st.mask_state, blend) {
            (MaskState::NoMask, Some(b)) => PipelineSet::ForTrivialBlend(b),
            (mask_state, _) => PipelineSet::ForMaskState(mask_state),
        },
{
}

/// Each family has its own analytic pipelines: giving one family others changes what is found
/// for that family, and for no other.
pub proof fn families_have_their_own_pipelines(
    sets: PipelineSets,
    set: PipelineSet,
    other: AnalyticPipelines,
)
    ensures
        (PipelineSets { no_mask: other, ..sets }).spec_analytic(set) == if set
            == PipelineSet::ForMaskState(MaskState::NoMask) {
            other
        } else {
            sets.spec_analytic(set)
        },
        (PipelineSets { draw_mask_stencil: other, ..sets }).spec_analytic(set) == if set
            == PipelineSet::ForMaskState(MaskState::DrawMaskStencil) {
            other
        } else {
            sets.spec_analytic(set)
        },
        (PipelineSets { draw_masked_content: other, ..sets }).spec_analytic(set) == if set
            == PipelineSet::ForMaskState(MaskState::DrawMaskedContent) {
            other
        } else {
            sets.spec_analytic(set)
        },
        (PipelineSets { clear_mask_stencil: other, ..sets }).spec_analytic(set) == if set
            == PipelineSet::ForMaskState(MaskState::ClearMaskStencil) {
            other
        } else {
            sets.spec_analytic(set)
        },
        (PipelineSets { blend_normal: other, ..sets }).spec_analytic(set) == if set
            == PipelineSet::ForTrivialBlend(TrivialBlend::Normal) {
            other
        } else {
            sets.spec_analytic(set)
        },
        (PipelineSets { blend_add: other, ..sets }).spec_analytic(set) == if set
            == PipelineSet::ForTrivialBlend(TrivialBlend::Add) {
            other
        } else {
            sets.spec_analytic(set)
        },
        (PipelineSets { blend_subtract: other, ..sets }).spec_analytic(set) == if set
            == PipelineSet::ForTrivialBlend(TrivialBlend::Subtract) {
            other
        } else {
            sets.spec_analytic(set)
        },
        (PipelineSets { blend_screen: other, ..sets }).spec_analytic(set) == if set
            == PipelineSet::ForTrivialBlend(TrivialBlend::Screen) {
            other
        } else {
            sets.spec_analytic(set)
        },
{
}

/// The transform with a number starts that many times the size of one into the buffer.
pub proof fn transforms_start_one_after_the_other(ctx: RenderContext, index: int)
    requires
        ctx.wf(),
        0 <= index,
        ctx.can_address(index + 1),
    ensures
        ctx.offset_of(index) == index * ctx.aligned_size,
{
    let size = ctx.aligned_size as int;
    let q = u32::MAX as int / size;
    vstd::arithmetic::div_mod::lemma_fundamental_div_mod(u32::MAX as int, size);
    assert(0 <= index * size <= size * q) by (nonlinear_arith)
        requires
            0 <= index <= q,
            size > 0,
    ;
}

/// How many transforms a command needs: an object one, an outline four, masks none; a blend
/// what its content needs, and an alpha mask what its two parts need, though it draws the one
/// twice.
pub proof fn commands_need_their_transforms(cmd: Command)
    ensures
        match cmd {
            Command::DrawLineRect { .. } => command_transforms(cmd) == 4,
            Command::PushMask
            | Command::ActivateMask
            | Command::DeactivateMask
            | Command::PopMask => command_transforms(cmd) == 0,
            Command::Blend(sub, _) => command_transforms(cmd) == transform_count(sub.commands@),
            Command::RenderAlphaMask { maskee_commands, mask_commands } => command_transforms(cmd)
                == transform_count(mask_commands.commands@) + transform_count(
                maskee_commands.commands@,
            ),
            _ => command_transforms(cmd) == 1,
        },
{
}

/// A list of one command does what the command does, and an empty list does nothing.
pub proof fn lists_do_what_their_commands_do(
    ctx: RenderContext,
    cmd: Command,
    st: RunState,
    blend: Option<TrivialBlend>,
)
    ensures
        run_list(ctx, seq![cmd], st, blend).0 == run_command(ctx, cmd, st, blend).0,
        run_list(ctx, seq![cmd], st, blend).1 == run_command(ctx, cmd, st, blend).1,
        run_list(ctx, seq![], st, blend) == (Seq::<RenderOp>::empty(), st),
{
    let one = seq![cmd];
    assert(one.drop_last() == Seq::<Command>::empty());
    assert(one.last() == cmd);
    let none = run_list(ctx, one.drop_last(), st, blend);
    assert(none == (Seq::<RenderOp>::empty(), st));
    assert(run_list(ctx, one, st, blend).0 =~= run_command(ctx, cmd, st, blend).0);
}

/// Masks are counted: pushing adds one, popping takes one away, a blend counts what its content
/// does, and an alpha mask counts one of its own while its parts are drawn, the mask twice. A mask
/// can be pushed while there are less than 32 bits can count, and popped where there is one.
pub proof fn masks_are_counted(cmd: Command, n: int)
    ensures
        match cmd {
            Command::PushMask => command_masks_after(cmd, n) == n + 1 && (command_masks_ok(cmd, n)
                <==> n < 0xffff_ffff),
            Command::PopMask => command_masks_after(cmd, n) == n - 1 && (command_masks_ok(cmd, n)
                <==> n > 0),
            Command::Blend(sub, _) => command_masks_after(cmd, n) == masks_after(sub.commands@, n)
                && (command_masks_ok(cmd, n) <==> masks_ok(sub.commands@, n)),
            Command::RenderAlphaMask { maskee_commands, mask_commands } => {
                let (mask, maskee) = (mask_commands.commands@, maskee_commands.commands@);
                let drawn = masks_after(mask, n + 1);
                let shown = masks_after(maskee, drawn);
                let cleared = masks_after(mask, shown);
                &&& command_masks_after(cmd, n) == cleared - 1
                &&& command_masks_ok(cmd, n) <==> n < 0xffff_ffff && masks_ok(mask, n + 1)
                    && masks_ok(maskee, drawn) && masks_ok(mask, shown) && cleared > 0
            },
            _ => command_masks_after(cmd, n) == n && command_masks_ok(cmd, n),
        },
        masks_after(seq![], n) == n && masks_ok(seq![], n),
{
}

/// Masks and transforms of two lists in a row are counted one after the other.
pub proof fn lists_are_counted_in_order(a: Seq<Command>, b: Seq<Command>, n: int)
    ensures
        masks_after(a + b, n) == masks_after(b, masks_after(a, n)),
        masks_ok(a + b, n) <==> masks_ok(a, n) && masks_ok(b, masks_after(a, n)),
        transform_count(a + b) == transform_count(a) + transform_count(b),
        b.len() == 1 ==> masks_after(b, n) == command_masks_after(b[0], n) && (masks_ok(b, n)
            <==> command_masks_ok(b[0], n)) && transform_count(b) == command_transforms(b[0]),
    decreases b.len(),
{
    if b.len() == 0 {
        assert(a + b == a);
    } else {
        let init = b.drop_last();
        lists_are_counted_in_order(a, init, n);
        assert((a + b).drop_last() == a + init);
        assert((a + b).last() == b.last());
        if b.len() == 1 {
            assert(init == Seq::<Command>::empty());
            assert(b.last() == b[0]);
            assert(masks_after(init, n) == n && masks_ok(init, n) && transform_count(init) == 0);
        }
    }
}

} // verus!
