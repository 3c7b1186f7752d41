use std::collections::HashMap;
use std::sync::Arc;
use wgpu_bezier::bitmaps::{BitmapBindCache, BitmapBinding};
use wgpu_bezier::blend::{BlendMode, ComplexBlend, RenderBlendMode, TrivialBlend};
use wgpu_bezier::commands::{
    BitmapHandle, ColorTransform, Command, CommandList, LineRectExtent, PixelSnapping,
    RenderMatrix, ShapeHandle, Transform,
};
use wgpu_bezier::frame::{
    check_toplevel_masks, execute_toplevel, has_complex_blends, LoadOp, Pass,
};
use wgpu_bezier::geometry::{Color, TwipsPoint};
use wgpu_bezier::gradient::{
    FixedMatrix, Gradient, GradientInterpolation, GradientRecord, GradientSpread,
};
use wgpu_bezier::mesh::{build_mesh, DistilledShape, DrawPath, FillStyle, LineStyle};
use wgpu_bezier::path::{DrawCommand, FillRule};
use wgpu_bezier::render::{
    check_masks, count_transforms, execute_commands, select_pipelines, AnalyticPipelines,
    BindGroup, Buffer, ExecState, Pipeline, PipelineSet, PipelineSets, RenderContext, RenderOp,
};
use wgpu_bezier::stroke::{LineCapStyle, LineJoinStyle};
use wgpu_bezier::MaskState;

fn identity() -> Transform {
    Transform {
        matrix: RenderMatrix { a: 0, b: 0, c: 0, d: 0, tx: 0, ty: 0 },
        color_transform: ColorTransform {
            r_multiply: 256,
            g_multiply: 256,
            b_multiply: 256,
            a_multiply: 256,
            r_add: 0,
            g_add: 0,
            b_add: 0,
            a_add: 0,
        },
    }
}

fn white() -> Color {
    Color { r: 255, g: 255, b: 255, a: 255 }
}

fn list(commands: Vec<Command>) -> CommandList {
    CommandList { commands }
}

fn rect() -> Command {
    Command::DrawRect { color: white(), matrix: identity().matrix }
}

fn builtin(commands: Vec<Command>, mode: BlendMode) -> Command {
    Command::Blend(list(commands), RenderBlendMode::Builtin(mode))
}

fn triangle() -> Vec<DrawCommand> {
    let p = |x, y| TwipsPoint { x, y };
    vec![
        DrawCommand::MoveTo(p(0, 0)),
        DrawCommand::LineTo(p(20, 0)),
        DrawCommand::LineTo(p(20, 20)),
    ]
}

fn gradient() -> Gradient {
    Gradient {
        matrix: FixedMatrix { a: 65536, b: 0, c: 0, d: 65536, tx: 0, ty: 0 },
        spread: GradientSpread::Pad,
        interpolation: GradientInterpolation::Rgb,
        records: vec![GradientRecord { ratio: 0, color: white() }],
    }
}

/// A shape with a solid fill, a gradient fill and a hairline round stroke.
fn shape(id: usize, analytic: bool) -> Command {
    let shape = DistilledShape {
        paths: vec![
            DrawPath::Fill {
                style: FillStyle::Color(white()),
                commands: triangle(),
                winding_rule: FillRule::EvenOdd,
            },
            DrawPath::Fill {
                style: FillStyle::LinearGradient(gradient()),
                commands: triangle(),
                winding_rule: FillRule::EvenOdd,
            },
            DrawPath::Stroke {
                style: LineStyle {
                    width: 20,
                    fill_style: FillStyle::Color(white()),
                    start_cap: LineCapStyle::Round,
                    end_cap: LineCapStyle::Round,
                    join_style: LineJoinStyle::Round,
                },
                commands: triangle(),
                is_closed: false,
                joins: vec![vec![wgpu_bezier::stroke::JoinMeasure {
                    negligible: false,
                    miter_fits: true,
                    arc_steps: 4,
                }]],
            },
        ],
    };
    let mesh = build_mesh(id, &shape, &HashMap::new(), analytic);
    Command::RenderShape { shape: ShapeHandle(Arc::new(mesh)), transform: identity() }
}

fn pipelines(analytic: bool) -> PipelineSets {
    let all = AnalyticPipelines { color: analytic, gradient: analytic, bitmap: analytic };
    PipelineSets {
        no_mask: all,
        draw_mask_stencil: all,
        draw_masked_content: all,
        clear_mask_stencil: all,
        blend_normal: all,
        blend_add: all,
        blend_subtract: all,
        blend_screen: all,
    }
}

fn start() -> ExecState {
    ExecState { transform_index: 0, mask_state: MaskState::NoMask, num_masks: 0 }
}

fn run_with(
    commands: &CommandList,
    analytic: bool,
    bitmaps: &HashMap<usize, BitmapBinding>,
) -> (Vec<RenderOp>, ExecState) {
    assert!(check_masks(commands, 0).is_some());
    let ctx = RenderContext { aligned_size: 256, pipelines: pipelines(analytic), bitmaps };
    let mut ops = Vec::new();
    let mut state = start();
    execute_commands(&ctx, commands, &mut state, None, &mut ops);
    assert_eq!(Some(state.transform_index), count_transforms(commands));
    assert_eq!(Some(state.num_masks), check_masks(commands, 0));
    (ops, state)
}

fn run(commands: Vec<Command>) -> (Vec<RenderOp>, ExecState) {
    run_with(&list(commands), false, &HashMap::new())
}

fn transforms(index: u32) -> RenderOp {
    RenderOp::SetBindGroup {
        group: 1,
        bind_group: BindGroup::Transforms { offset: index * 256 },
    }
}

fn quad(set: PipelineSet, index: u32) -> Vec<RenderOp> {
    vec![
        RenderOp::SetPipeline { set, pipeline: Pipeline::ColorFill },
        transforms(index),
        RenderOp::SetVertexBuffer(Buffer::UnitQuadColor),
        RenderOp::SetIndexBuffer(Buffer::UnitQuadIndices),
        RenderOp::DrawIndexed { num_indices: 6 },
    ]
}

fn mask(state: MaskState) -> PipelineSet {
    PipelineSet::ForMaskState(state)
}

fn stencil(reference: u32) -> RenderOp {
    RenderOp::SetStencilReference(reference)
}

#[test]
fn blends_only_count_without_a_mask() {
    assert_eq!(
        select_pipelines(MaskState::NoMask, Some(TrivialBlend::Add)),
        PipelineSet::ForTrivialBlend(TrivialBlend::Add)
    );
    assert_eq!(
        select_pipelines(MaskState::DrawMaskedContent, Some(TrivialBlend::Add)),
        mask(MaskState::DrawMaskedContent)
    );
    assert_eq!(select_pipelines(MaskState::NoMask, None), mask(MaskState::NoMask));
}

#[test]
fn rects_and_lines_draw_the_unit_quad() {
    let line = Command::DrawLine { color: white(), matrix: identity().matrix };
    let (ops, state) = run(vec![rect(), line]);
    let mut expected = quad(mask(MaskState::NoMask), 0);
    expected.extend(quad(mask(MaskState::NoMask), 1));
    assert_eq!(ops, expected);
    assert_eq!(state.transform_index, 2);
}

#[test]
fn line_rects_draw_four_quads() {
    let p = |x, y| TwipsPoint { x, y };
    let command = Command::DrawLineRect {
        color: white(),
        matrix: identity().matrix,
        extent: LineRectExtent { first: p(20, 0), both: p(20, 20), second: p(0, 20) },
    };
    let (ops, state) = run(vec![rect(), command]);
    let tail = &ops[5..];
    assert_eq!(tail.len(), 11);
    assert_eq!(
        tail[0],
        RenderOp::SetPipeline { set: mask(MaskState::NoMask), pipeline: Pipeline::ColorFill }
    );
    for edge in 0..4 {
        assert_eq!(tail[3 + 2 * edge], transforms(1 + edge as u32));
        assert_eq!(tail[4 + 2 * edge], RenderOp::DrawIndexed { num_indices: 6 });
    }
    assert_eq!(state.transform_index, 5);
}

#[test]
fn shapes_draw_all_paths_with_one_transform() {
    let (ops, state) = run(vec![rect(), shape(3, false)]);
    let ops = &ops[5..];
    assert_eq!(state.transform_index, 2);
    assert_eq!(
        &ops[..5],
        &[
            RenderOp::SetPipeline { set: mask(MaskState::NoMask), pipeline: Pipeline::ColorFill },
            transforms(1),
            RenderOp::SetVertexBuffer(Buffer::DrawVertices { mesh: 3, draw: 0 }),
            RenderOp::SetIndexBuffer(Buffer::DrawIndices { mesh: 3, draw: 0 }),
            RenderOp::DrawIndexed { num_indices: 3 },
        ]
    );
    assert_eq!(
        &ops[5..11],
        &[
            RenderOp::SetPipeline {
                set: mask(MaskState::NoMask),
                pipeline: Pipeline::GradientFill
            },
            RenderOp::SetBindGroup {
                group: 2,
                bind_group: BindGroup::Fill { mesh: 3, draw: 1 }
            },
            transforms(1),
            RenderOp::SetVertexBuffer(Buffer::DrawVertices { mesh: 3, draw: 1 }),
            RenderOp::SetIndexBuffer(Buffer::DrawIndices { mesh: 3, draw: 1 }),
            RenderOp::DrawIndexed { num_indices: 3 },
        ]
    );
    assert_eq!(ops.len(), 16);
}

#[test]
fn analytic_draws_bind_their_segments() {
    let (ops, _) = run_with(&list(vec![shape(0, true)]), true, &HashMap::new());
    assert_eq!(
        ops[0],
        RenderOp::SetPipeline { set: mask(MaskState::NoMask), pipeline: Pipeline::AnalyticColor }
    );
    assert_eq!(
        ops[1],
        RenderOp::SetBindGroup { group: 2, bind_group: BindGroup::Analytic { mesh: 0, draw: 0 } }
    );
    assert_eq!(
        ops[7],
        RenderOp::SetBindGroup { group: 2, bind_group: BindGroup::Fill { mesh: 0, draw: 1 } }
    );
    assert_eq!(
        ops[8],
        RenderOp::SetBindGroup { group: 3, bind_group: BindGroup::Analytic { mesh: 0, draw: 1 } }
    );

    // Without analytic pipelines the plain ones draw the box.
    let (ops, _) = run_with(&list(vec![shape(0, true)]), false, &HashMap::new());
    assert_eq!(
        ops[0],
        RenderOp::SetPipeline { set: mask(MaskState::NoMask), pipeline: Pipeline::ColorFill }
    );
    assert_eq!(ops[1], transforms(0));
}

#[test]
fn strokes_are_left_out_of_masks() {
    let (ops, _) = run(vec![
        Command::PushMask,
        shape(0, false),
        Command::ActivateMask,
        shape(1, false),
        Command::DeactivateMask,
        shape(0, false),
        Command::PopMask,
    ]);
    let drawn = |mesh: usize, draw: usize| {
        ops.iter()
            .filter(|op| **op == RenderOp::SetVertexBuffer(Buffer::DrawVertices { mesh, draw }))
            .count()
    };
    assert_eq!((drawn(0, 0), drawn(0, 1), drawn(0, 2)), (2, 2, 0));
    assert_eq!((drawn(1, 0), drawn(1, 1), drawn(1, 2)), (1, 1, 1));
}

#[test]
fn bitmaps_without_a_binding_are_skipped() {
    let bitmap = |key| Command::RenderBitmap {
        bitmap: BitmapHandle { key, width: 8, height: 8 },
        transform: identity(),
        smoothing: true,
        pixel_snapping: PixelSnapping::Never,
    };
    let mut cache = BitmapBindCache::new();
    cache.collect_bitmap_bind_groups(&list(vec![bitmap(5)]));
    let (ops, state) = run_with(&list(vec![bitmap(4), bitmap(5)]), false, &cache.bindings);
    assert_eq!(
        ops,
        vec![
            RenderOp::SetPipeline {
                set: mask(MaskState::NoMask),
                pipeline: Pipeline::RenderBitmap
            },
            transforms(1),
            RenderOp::SetBindGroup { group: 2, bind_group: BindGroup::Bitmap { key: 5 } },
            RenderOp::SetVertexBuffer(Buffer::UnitQuadTex),
            RenderOp::SetIndexBuffer(Buffer::UnitQuadIndices),
            RenderOp::DrawIndexed { num_indices: 6 },
        ]
    );
    assert_eq!(state.transform_index, 2);
}

#[test]
fn stage3d_only_uses_up_its_transform() {
    let (ops, state) = run(vec![Command::RenderStage3D { transform: identity() }, rect()]);
    assert_eq!(ops, quad(mask(MaskState::NoMask), 1));
    assert_eq!(state.transform_index, 2);
}

#[test]
fn masks_nest() {
    let (ops, state) = run(vec![
        Command::PushMask,
        Command::ActivateMask,
        Command::PushMask,
        rect(),
        Command::ActivateMask,
        rect(),
        Command::DeactivateMask,
        Command::PopMask,
        rect(),
        Command::DeactivateMask,
        Command::PopMask,
    ]);
    let mut expected = vec![stencil(0), stencil(1), stencil(1)];
    expected.extend(quad(mask(MaskState::DrawMaskStencil), 0));
    expected.push(stencil(2));
    expected.extend(quad(mask(MaskState::DrawMaskedContent), 1));
    expected.push(stencil(2));
    expected.push(stencil(1));
    expected.extend(quad(mask(MaskState::DrawMaskedContent), 2));
    expected.push(stencil(1));
    expected.push(stencil(0));
    assert_eq!(ops, expected);
    assert_eq!(state, ExecState { transform_index: 3, mask_state: MaskState::NoMask, num_masks: 0 });
}

#[test]
fn alpha_masks_draw_the_mask_twice_with_the_same_transforms() {
    let (ops, state) = run(vec![
        rect(),
        Command::RenderAlphaMask {
            maskee_commands: list(vec![rect()]),
            mask_commands: list(vec![rect(), rect()]),
        },
        rect(),
    ]);
    let mut expected = quad(mask(MaskState::NoMask), 0);
    expected.push(stencil(0));
    expected.extend(quad(mask(MaskState::DrawMaskStencil), 1));
    expected.extend(quad(mask(MaskState::DrawMaskStencil), 2));
    expected.push(stencil(1));
    expected.extend(quad(mask(MaskState::DrawMaskedContent), 3));
    expected.push(stencil(1));
    expected.extend(quad(mask(MaskState::ClearMaskStencil), 1));
    expected.extend(quad(mask(MaskState::ClearMaskStencil), 2));
    expected.push(stencil(0));
    expected.extend(quad(mask(MaskState::NoMask), 4));
    assert_eq!(ops, expected);
    assert_eq!(state.num_masks, 0);
    assert_eq!(state.mask_state, MaskState::NoMask);
    assert_eq!(state.transform_index, 5);
}

#[test]
fn alpha_masks_inside_a_mask_leave_it_active() {
    let (_, state) = run(vec![
        Command::PushMask,
        Command::ActivateMask,
        Command::RenderAlphaMask {
            maskee_commands: list(vec![rect()]),
            mask_commands: list(vec![rect()]),
        },
    ]);
    assert_eq!(state.num_masks, 1);
    assert_eq!(state.mask_state, MaskState::DrawMaskedContent);
}

#[test]
fn trivial_blends_select_their_pipelines() {
    let (ops, _) = run(vec![
        builtin(vec![rect(), builtin(vec![rect()], BlendMode::Normal)], BlendMode::Screen),
        builtin(vec![rect()], BlendMode::Layer),
    ]);
    let mut expected = quad(PipelineSet::ForTrivialBlend(TrivialBlend::Screen), 0);
    expected.extend(quad(PipelineSet::ForTrivialBlend(TrivialBlend::Screen), 1));
    expected.extend(quad(mask(MaskState::NoMask), 2));
    assert_eq!(ops, expected);
}

#[test]
fn complex_blends_inside_a_pass_draw_like_normal_ones() {
    let complex = run(vec![builtin(
        vec![builtin(vec![rect()], BlendMode::Multiply)],
        BlendMode::Add,
    )]);
    let normal =
        run(vec![builtin(vec![builtin(vec![rect()], BlendMode::Normal)], BlendMode::Add)]);
    assert_eq!(complex, normal);
}

#[test]
fn unbalanced_masks_are_found() {
    assert_eq!(check_masks(&list(vec![Command::PushMask]), 0), Some(1));
    assert_eq!(check_masks(&list(vec![Command::PopMask]), 0), None);
    assert_eq!(check_masks(&list(vec![Command::PopMask]), 1), Some(0));
    assert_eq!(check_masks(&list(vec![Command::PushMask]), u32::MAX), None);
    let popping = Command::RenderAlphaMask {
        maskee_commands: list(vec![Command::PopMask]),
        mask_commands: list(vec![Command::PopMask]),
    };
    assert_eq!(check_masks(&list(vec![popping]), 1), None);
    let nested = builtin(vec![Command::PushMask], BlendMode::Normal);
    assert_eq!(check_masks(&list(vec![nested, Command::PopMask]), 0), Some(0));
}

#[test]
fn transforms_are_counted() {
    let p = TwipsPoint { x: 0, y: 0 };
    let commands = list(vec![
        rect(),
        Command::DrawLineRect {
            color: white(),
            matrix: identity().matrix,
            extent: LineRectExtent { first: p, both: p, second: p },
        },
        Command::RenderAlphaMask {
            maskee_commands: list(vec![rect()]),
            mask_commands: list(vec![rect(), Command::PushMask]),
        },
        builtin(vec![rect()], BlendMode::Add),
    ]);
    assert_eq!(count_transforms(&commands), Some(8));
}

// ---- Passes ----

fn toplevel(commands: &CommandList, clear: Option<Color>) -> (Vec<Pass>, ExecState) {
    assert!(check_toplevel_masks(commands, 0).is_some());
    let bitmaps = HashMap::new();
    let ctx = RenderContext { aligned_size: 256, pipelines: pipelines(false), bitmaps: &bitmaps };
    let mut state = start();
    let passes = execute_toplevel(&ctx, clear, commands, &mut state, None);
    assert_eq!(Some(state.transform_index), count_transforms(commands));
    (passes, state)
}

fn globals() -> RenderOp {
    RenderOp::SetBindGroup { group: 0, bind_group: BindGroup::Globals }
}

fn pass_ops(quads: Vec<Vec<RenderOp>>) -> Vec<RenderOp> {
    let mut ops = vec![globals()];
    for q in quads {
        ops.extend(q);
    }
    ops
}

#[test]
fn simple_frames_take_one_pass() {
    let commands = list(vec![rect(), builtin(vec![rect()], BlendMode::Add)]);
    let (passes, _) = toplevel(&commands, Some(white()));
    assert_eq!(passes.len(), 1);
    match &passes[0] {
        Pass::Render { load, clear_stencil, ops } => {
            assert_eq!(*load, LoadOp::Clear(white()));
            assert!(*clear_stencil);
            assert_eq!(
                *ops,
                pass_ops(vec![
                    quad(mask(MaskState::NoMask), 0),
                    quad(PipelineSet::ForTrivialBlend(TrivialBlend::Add), 1),
                ])
            );
        }
        _ => panic!("a render pass"),
    }
}

#[test]
fn empty_frames_are_still_cleared() {
    let (passes, _) = toplevel(&list(vec![]), Some(white()));
    assert_eq!(passes.len(), 1);
    assert!(matches!(
        &passes[0],
        Pass::Render { load: LoadOp::Clear(_), clear_stencil: true, ops } if ops.len() == 1
    ));
}

#[test]
fn complex_blends_break_up_the_frame() {
    let commands = list(vec![
        rect(),
        builtin(vec![rect(), rect()], BlendMode::Multiply),
        rect(),
        builtin(vec![rect()], BlendMode::HardLight),
    ]);
    let (passes, state) = toplevel(&commands, Some(white()));
    assert_eq!(state.transform_index, 5);
    assert_eq!(passes.len(), 4);
    let no_mask = mask(MaskState::NoMask);
    match (&passes[0], &passes[1], &passes[2], &passes[3]) {
        (
            Pass::Render { load: l0, clear_stencil: false, ops: o0 },
            Pass::ComplexBlend { blend: b1, ops: o1 },
            Pass::Render { load: l2, clear_stencil: false, ops: o2 },
            Pass::ComplexBlend { blend: b3, ops: o3 },
        ) => {
            assert_eq!((*l0, *l2), (LoadOp::Clear(white()), LoadOp::Load));
            assert_eq!((*b1, *b3), (ComplexBlend::Multiply, ComplexBlend::HardLight));
            assert_eq!(*o0, pass_ops(vec![quad(no_mask, 0)]));
            assert_eq!(*o1, pass_ops(vec![quad(no_mask, 1), quad(no_mask, 2)]));
            assert_eq!(*o2, pass_ops(vec![quad(no_mask, 3)]));
            assert_eq!(*o3, pass_ops(vec![quad(no_mask, 4)]));
        }
        _ => panic!("batches and complex blends alternate"),
    }
}

#[test]
fn a_leading_complex_blend_clears_first() {
    let commands = list(vec![builtin(vec![rect()], BlendMode::Darken), rect()]);
    let (passes, _) = toplevel(&commands, Some(white()));
    assert_eq!(passes.len(), 3);
    assert!(matches!(&passes[0], Pass::Clear(c) if *c == white()));
    assert!(matches!(&passes[1], Pass::ComplexBlend { blend: ComplexBlend::Darken, .. }));
    assert!(matches!(&passes[2], Pass::Render { load: LoadOp::Load, .. }));

    let (passes, _) = toplevel(&commands, None);
    assert_eq!(passes.len(), 2);
    assert!(matches!(&passes[0], Pass::ComplexBlend { .. }));
}

#[test]
fn complex_blends_do_not_see_outer_masks() {
    let commands = list(vec![
        Command::PushMask,
        rect(),
        Command::ActivateMask,
        builtin(vec![rect(), Command::PushMask], BlendMode::Erase),
        rect(),
    ]);
    let (passes, state) = toplevel(&commands, None);
    match &passes[1] {
        Pass::ComplexBlend { ops, .. } => {
            let mut expected = pass_ops(vec![quad(mask(MaskState::NoMask), 1)]);
            expected.push(stencil(0));
            assert_eq!(*ops, expected);
        }
        _ => panic!("a complex blend"),
    }
    match &passes[2] {
        Pass::Render { ops, .. } => {
            assert_eq!(*ops, pass_ops(vec![quad(mask(MaskState::DrawMaskedContent), 2)]));
        }
        _ => panic!("a render pass"),
    }
    assert_eq!(state.num_masks, 1);
}

#[test]
fn complex_blends_are_found_at_any_depth() {
    assert!(!has_complex_blends(&list(vec![rect(), builtin(vec![], BlendMode::Add)])));
    assert!(has_complex_blends(&list(vec![builtin(vec![], BlendMode::Alpha)])));
    let inner = builtin(vec![rect()], BlendMode::Overlay);
    assert!(has_complex_blends(&list(vec![builtin(vec![inner], BlendMode::Normal)])));
    let in_mask = Command::RenderAlphaMask {
        maskee_commands: list(vec![]),
        mask_commands: list(vec![builtin(vec![], BlendMode::Invert)]),
    };
    assert!(has_complex_blends(&list(vec![rect(), in_mask])));
}

#[test]
fn toplevel_masks_are_checked() {
    let popping = builtin(vec![Command::PopMask], BlendMode::Multiply);
    assert_eq!(check_toplevel_masks(&list(vec![Command::PushMask, popping]), 0), None);
    let popping = builtin(vec![Command::PopMask], BlendMode::Normal);
    assert_eq!(check_toplevel_masks(&list(vec![Command::PushMask, popping]), 0), Some(0));
    let pushing = builtin(vec![Command::PushMask], BlendMode::Multiply);
    assert_eq!(check_toplevel_masks(&list(vec![pushing]), 0), Some(0));
}
