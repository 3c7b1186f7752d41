use std::collections::HashMap;
use wgpu_bezier::backend::{
    bitmap_texture, build_view_matrix, copy_region, debug_info, make_color_attachment, name,
    readback_bytes_per_row, readback_size, supported_sample_count, upload_bytes_per_row,
    AttachmentView, BezierRenderBackend, BitmapCacheEntry, CopyRegion, StoreOp, UnitQuad,
    ViewportDimensions,
};
use wgpu_bezier::blend::{BlendComponent, BlendFactor, BlendMode, BlendOperation, ComplexBlend, RenderBlendMode};
use wgpu_bezier::commands::{Command, CommandList, RenderMatrix};
use wgpu_bezier::filters::blur::BlurFilter;
use wgpu_bezier::filters::{Filter, FilterPlan, FilterSource, Filters};
use wgpu_bezier::frame::{LoadOp, Pass};
use wgpu_bezier::geometry::{Color, Point, Ratio, Size, TwipsPoint};
use wgpu_bezier::mesh::{DistilledShape, DrawPath, FillStyle};
use wgpu_bezier::path::{DrawCommand, FillRule};
use wgpu_bezier::pipelines::{
    BindLayout, BindLayouts, BindingType, CompareFunction, MaskStencil, Pipelines,
    StencilOperation, VertexFormat, VertexLayout,
};
use wgpu_bezier::render::{AnalyticPipelines, PipelineSets};
use wgpu_bezier::shaders::Shader;
use wgpu_bezier::target::{
    PresentMode, RenderTarget, SwapChainTarget, TextureFormat, TextureTarget,
};
use wgpu_bezier::MaskState;

fn size(width: u32, height: u32) -> Size {
    Size { width, height }
}

fn white() -> Color {
    Color { r: 255, g: 255, b: 255, a: 255 }
}

fn pipelines() -> PipelineSets {
    let none = AnalyticPipelines { color: false, gradient: false, bitmap: false };
    PipelineSets {
        no_mask: none,
        draw_mask_stencil: none,
        draw_masked_content: none,
        clear_mask_stencil: none,
        blend_normal: none,
        blend_add: none,
        blend_subtract: none,
        blend_screen: none,
    }
}

fn backend() -> BezierRenderBackend<TextureTarget> {
    let target = TextureTarget::new(8192, size(640, 480)).unwrap();
    BezierRenderBackend::new(target, 256, pipelines(), false)
}

fn rect() -> Command {
    Command::DrawRect {
        color: white(),
        matrix: RenderMatrix { a: 0, b: 0, c: 0, d: 0, tx: 0, ty: 0 },
    }
}

fn list(commands: Vec<Command>) -> CommandList {
    CommandList { commands }
}

fn blend(commands: Vec<Command>, mode: BlendMode) -> Command {
    Command::Blend(list(commands), RenderBlendMode::Builtin(mode))
}

// ---- Targets ----

#[test]
fn preferred_surface_formats_come_first() {
    let other = TextureFormat::Other(7);
    let choose = |formats: Vec<TextureFormat>| SwapChainTarget::new(&formats, 1, 1).format;
    assert_eq!(choose(vec![other, TextureFormat::Bgra8Unorm, TextureFormat::Rgba8Unorm]), TextureFormat::Bgra8Unorm);
    assert_eq!(choose(vec![other, TextureFormat::Rgba8Unorm]), TextureFormat::Rgba8Unorm);
    assert_eq!(choose(vec![other, TextureFormat::Other(8)]), other);
    assert_eq!(choose(vec![]), TextureFormat::Rgba8Unorm);
}

#[test]
fn swap_chains_take_any_size() {
    let mut target = SwapChainTarget::new(&vec![TextureFormat::Bgra8Unorm], 10, 20);
    assert_eq!((target.width(), target.height()), (10, 20));
    assert!(target.can_resize(0, u32::MAX));
    target.resize(30, 40);
    assert_eq!((target.width(), target.height()), (30, 40));
    assert_eq!(target.format(), TextureFormat::Bgra8Unorm);
}

#[test]
fn texture_targets_check_their_size() {
    let message = |width, height| TextureTarget::new(2048, size(width, height)).unwrap_err();
    assert_eq!(
        message(0, 10),
        "Texture target cannot be smaller than 1 or larger than 2048px on either dimension \
         (requested 0 x 10)"
    );
    assert_eq!(
        message(100, 2049),
        "Texture target cannot be smaller than 1 or larger than 2048px on either dimension \
         (requested 100 x 2049)"
    );
    assert_eq!(
        message(4294967295, 1),
        format!(
            "Texture target cannot be smaller than 1 or larger than {}px on either dimension (requested {} x {})",
            2048,
            u32::MAX,
            1
        )
    );
    let mut target = TextureTarget::new(2048, size(1, 2048)).unwrap();
    assert_eq!(target.format(), TextureFormat::Rgba8Unorm);
    assert!(target.can_resize(2048, 1));
    assert!(!target.can_resize(2049, 1));
    assert!(!target.can_resize(1, 0));
    target.resize(5, 6);
    assert_eq!((target.width(), target.height()), (5, 6));
    let texture = target.texture_descriptor();
    assert_eq!(texture.size, size(5, 6));
    assert!(texture.usage.copy_src && texture.usage.render_attachment);
}

#[test]
fn surfaces_are_configured_for_presenting_in_order() {
    let mut target = SwapChainTarget::new(&vec![TextureFormat::Bgra8Unorm], 10, 20);
    target.resize(30, 40);
    let c = target.surface_configuration();
    assert_eq!((c.format, c.width, c.height), (TextureFormat::Bgra8Unorm, 30, 40));
    assert!(c.usage.render_attachment && !c.usage.texture_binding);
    assert!(!c.usage.copy_src && !c.usage.copy_dst);
    assert_eq!((c.present_mode, c.desired_maximum_frame_latency), (PresentMode::Fifo, 2));
    assert_eq!(c.alpha_mode, 0);
    assert_eq!(c.view_formats, vec![TextureFormat::Bgra8Unorm]);
}

// ---- Viewport and quality ----

fn value(r: Ratio) -> f64 {
    r.num as f64 / r.den as f64
}

#[test]
fn the_view_matrix_flips_y() {
    let m = build_view_matrix(640, 480);
    let map = |x: f64, y: f64| {
        (value(m[0][0]) * x + value(m[3][0]), value(m[1][1]) * y + value(m[3][1]))
    };
    assert_eq!(map(0.0, 0.0), (-1.0, 1.0));
    assert_eq!(map(640.0, 480.0), (1.0, -1.0));
    assert_eq!(map(320.0, 120.0), (0.0, 0.5));
    assert_eq!(m[2][2], Ratio { num: 1, den: 1 });
    assert_eq!(m[3][3], Ratio { num: 1, den: 1 });
    assert_eq!(m[0][1], Ratio { num: 0, den: 1 });
}

#[test]
fn new_backends_take_the_size_of_their_target() {
    let b = backend();
    assert_eq!(
        b.viewport_dimensions(),
        ViewportDimensions { width: 640, height: 480, scale_factor: 1.0f64.to_bits() }
    );
    assert_eq!(b.sample_count, 1);
    assert_eq!(b.target().width(), 640);
    assert_eq!(b.surface_format, TextureFormat::Rgba8Unorm);
    assert!(b.msaa_framebuffer().is_none());
    assert_eq!(b.depth_stencil().format, TextureFormat::Depth24PlusStencil8);
    assert_eq!(b.globals().view_matrix, build_view_matrix(640, 480));
    assert_eq!(b.transforms.buffer_size(), 4096 * 256);
    assert!(b.meshes.is_empty() && b.bitmaps.bindings.is_empty());
}

#[test]
fn viewports_have_at_least_one_pixel() {
    let mut b = backend();
    let update = b.set_viewport_dimensions(ViewportDimensions {
        width: 0,
        height: 100,
        scale_factor: 2.0f64.to_bits(),
    });
    assert_eq!(b.viewport_dimensions().width, 1);
    assert_eq!(b.viewport_dimensions().height, 100);
    assert_eq!(b.viewport_dimensions().scale_factor, 2.0f64.to_bits());
    assert_eq!((b.target().width(), b.target().height()), (1, 100));
    assert_eq!(update.globals.view_matrix[0][0], Ratio { num: 2, den: 1 });
    assert_eq!(update.globals.view_matrix[1][1], Ratio { num: -2, den: 100 });
    assert_eq!(update.depth_stencil.size, size(1, 100));
    assert!(update.msaa.is_none());
    // The viewport can be set again.
    assert!(b.target().can_resize(320, 200));
    b.set_viewport_dimensions(ViewportDimensions {
        width: 320,
        height: 200,
        scale_factor: 1.0f64.to_bits(),
    });
    assert_eq!((b.target().width(), b.target().height()), (320, 200));
}

#[test]
fn sample_counts_are_rounded_down() {
    let desired = [0, 1, 2, 3, 4, 7, 8, 15, 16, 17, 1000];
    let counts = |supported: Vec<u32>| {
        let counts: Vec<u32> =
            desired.iter().map(|n| supported_sample_count(*n, &supported)).collect();
        counts
    };
    assert_eq!(counts(vec![1, 2, 4, 8, 16]), vec![1, 1, 2, 2, 4, 4, 8, 8, 16, 16, 16]);
    assert_eq!(counts(vec![4, 1]), vec![1, 1, 1, 1, 4, 4, 4, 4, 4, 4, 4]);
    assert_eq!(counts(vec![8, 3, 2]), vec![1, 1, 2, 2, 2, 2, 8, 8, 8, 8, 8]);
    assert_eq!(counts(vec![]), vec![1; 11]);
}

#[test]
fn quality_changes_rebuild_what_depends_on_it() {
    let mut b = backend();
    let supported = vec![1, 2, 4];
    assert!(b.set_quality(1, &supported).is_none());
    let update = b.set_quality(8, &supported).unwrap();
    assert_eq!(b.sample_count, 4);
    assert_eq!(update.sample_count, 4);
    assert_eq!(update.depth_stencil.sample_count, 4);
    let msaa = update.msaa.unwrap();
    assert_eq!((msaa.size, msaa.sample_count), (size(640, 480), 4));
    assert!(!msaa.usage.texture_binding);
    assert!(b.set_quality(4, &supported).is_none());
    let textures = b.blend_textures();
    assert_eq!(textures.intermediate.sample_count, 1);
    assert!(textures.intermediate.usage.texture_binding);
    assert_eq!(textures.msaa.unwrap().sample_count, 4);
    assert_eq!(textures.depth_stencil.sample_count, 4);
    assert!(b.set_quality(1, &supported).unwrap().msaa.is_none());
}

#[test]
fn msaa_resolves_to_the_target() {
    let plain = make_color_attachment(false, LoadOp::Load);
    assert_eq!((plain.view, plain.resolve_target), (AttachmentView::Target, None));
    let msaa = make_color_attachment(true, LoadOp::Clear(white()));
    assert_eq!(msaa.view, AttachmentView::Msaa);
    assert_eq!(msaa.resolve_target, Some(AttachmentView::Target));
    assert_eq!(msaa.load, LoadOp::Clear(white()));
    for a in [plain, msaa] {
        assert_eq!((a.store, a.depth_slice), (StoreOp::Store, None));
    }
}

// ---- Shapes and frames ----

#[test]
fn shapes_are_numbered() {
    let mut b = backend();
    let p = |x, y| TwipsPoint { x, y };
    let shape = DistilledShape {
        paths: vec![DrawPath::Fill {
            style: FillStyle::Color(white()),
            commands: vec![
                DrawCommand::MoveTo(p(0, 0)),
                DrawCommand::LineTo(p(20, 0)),
                DrawCommand::LineTo(p(20, 20)),
            ],
            winding_rule: FillRule::EvenOdd,
        }],
    };
    let first = b.register_shape(&shape, &HashMap::new());
    let second = b.register_shape(&shape, &HashMap::new());
    assert_eq!((first.0.id, second.0.id), (0, 1));
    assert_eq!(b.meshes.len(), 2);
    assert_eq!(b.meshes[1].draws.len(), 1);
}

#[test]
fn frames_start_afresh() {
    let mut b = backend();
    let commands = list(vec![rect(), rect()]);
    assert!(b.can_submit(&commands));
    for _ in 0..2 {
        let plan = b.submit_frame(white(), &commands, true).unwrap();
        assert_eq!(plan.upload_offsets, vec![0, 256]);
        assert!(!plan.needs_offscreen);
        assert!(plan.create_offscreen.is_none() && plan.create_blend.is_none());
        assert_eq!(plan.passes.len(), 1);
    }
    assert_eq!(b.transforms.data.len(), 2);
    assert!(b.submit_frame(white(), &commands, false).is_none());
    assert!(b.transforms.data.is_empty());
}

#[test]
fn complex_blends_need_buffers_of_the_viewport_size() {
    let mut b = backend();
    let commands = list(vec![rect(), blend(vec![rect()], BlendMode::Multiply)]);
    let plan = b.submit_frame(white(), &commands, true).unwrap();
    assert!(plan.needs_offscreen);
    let offscreen = plan.create_offscreen.unwrap();
    assert_eq!(offscreen.size, size(640, 480));
    assert!(offscreen.usage.copy_src && offscreen.usage.texture_binding);
    let blend_buffer = plan.create_blend.unwrap();
    assert!(blend_buffer.usage.copy_dst && !blend_buffer.usage.render_attachment);
    assert_eq!(plan.passes.len(), 2);
    assert!(matches!(plan.passes[1], Pass::ComplexBlend { blend: ComplexBlend::Multiply, .. }));

    // They are kept until the viewport changes.
    let plan = b.submit_frame(white(), &commands, true).unwrap();
    assert!(plan.needs_offscreen && plan.create_offscreen.is_none());
    b.set_viewport_dimensions(ViewportDimensions { width: 64, height: 64, scale_factor: 0 });
    let plan = b.submit_frame(white(), &commands, true).unwrap();
    assert_eq!(plan.create_offscreen.unwrap().size, size(64, 64));
    assert_eq!(plan.create_blend.unwrap().size, size(64, 64));
}

#[test]
fn nested_complex_blends_draw_offscreen_too() {
    let mut b = backend();
    let nested = blend(vec![blend(vec![rect()], BlendMode::Multiply)], BlendMode::Normal);
    let plan = b.submit_frame(white(), &list(vec![nested]), true).unwrap();
    assert!(plan.needs_offscreen);
    assert_eq!(plan.passes.len(), 1);
}

#[test]
fn frames_that_cannot_be_drawn_are_found() {
    let b = backend();
    assert!(!b.can_submit(&list(vec![Command::PopMask])));
    let far = Command::DrawLine {
        color: white(),
        matrix: RenderMatrix { a: 0, b: 0, c: 0, d: 0, tx: i32::MAX, ty: 0 },
    };
    assert!(!b.can_submit(&list(vec![far])));
    assert!(b.can_submit(&list(vec![])));
}

#[test]
fn the_unit_quad_is_white() {
    let quad = UnitQuad::new();
    assert_eq!(quad.indices, vec![0, 1, 2, 0, 2, 3]);
    let corners: Vec<Point> = quad.tex_vertices.iter().map(|v| v.position.point).collect();
    let at = |x: i64, y: i64| Point { x: x * 163840, y: y * 163840 };
    assert_eq!(corners, vec![at(0, 0), at(1, 0), at(1, 1), at(0, 1)]);
    for (c, t) in quad.color_vertices.iter().zip(&quad.tex_vertices) {
        assert_eq!(*c, t.with_color(white()));
    }
}

// ---- Filters on textures ----

#[test]
fn copies_are_clipped_to_the_destination() {
    let region = |x, y, width, height| Some(CopyRegion { x, y, width, height });
    assert_eq!(copy_region(size(10, 10), size(100, 100), 5, 6), region(5, 6, 10, 10));
    assert_eq!(copy_region(size(10, 10), size(100, 100), -5, 6), region(0, 6, 10, 10));
    assert_eq!(copy_region(size(10, 10), size(12, 100), 5, 6), region(5, 6, 7, 10));
    assert_eq!(copy_region(size(10, 10), size(12, 100), 12, 0), None);
    assert_eq!(copy_region(size(10, 10), size(12, 100), 500, 0), None);
    assert_eq!(copy_region(size(0, 10), size(12, 100), 0, 0), None);
}

#[test]
fn filters_are_applied_and_copied() {
    let b = backend();
    let mut filters = Filters::new();
    let source = FilterSource { texture: size(50, 50), x: 0, y: 0, size: size(20, 20) };
    let r = b.apply_filter(&mut filters, &source, &Filter::ShaderFilter, size(30, 30), 25, 0);
    assert!(r.warn);
    assert_eq!(r.copy, Some(CopyRegion { x: 25, y: 0, width: 5, height: 20 }));
    // Another backend does not warn again.
    let b = backend();
    let r = b.apply_filter(&mut filters, &source, &Filter::ShaderFilter, size(30, 30), 30, 0);
    assert!(!r.warn && r.copy.is_none());
}

#[test]
fn cached_bitmaps_chain_their_filters() {
    let b = backend();
    let mut filters = Filters::new();
    let blur = Filter::BlurFilter(BlurFilter { blur_x: 4 * 65536, blur_y: 0, flags: 8 });
    let entry = |texture, filters| BitmapCacheEntry {
        texture,
        commands: list(vec![rect()]),
        clear: white(),
        filters,
    };
    let plans = b.process_cache_entries(
        &vec![
            entry(size(30, 40), vec![]),
            entry(size(30, 40), vec![blur, Filter::ConvolutionFilter]),
            entry(size(0, 40), vec![Filter::ConvolutionFilter, blur]),
        ],
        &mut filters,
    );
    assert_eq!(plans.len(), 3);
    assert!(plans[0].steps.is_empty() && plans[0].copy.is_none());
    assert_eq!(plans[1].steps.len(), 2);
    assert!(matches!(plans[1].steps[0].plan, FilterPlan::Blur(_)));
    assert!(plans[1].steps[1].warn);
    assert_eq!(plans[1].steps[1].source, FilterSource::for_entire_texture(size(30, 40)));
    assert_eq!(plans[1].copy, Some(CopyRegion { x: 0, y: 0, width: 30, height: 40 }));
    assert!(!plans[2].steps[0].warn);
    assert_eq!(plans[2].steps[0].source.size, size(0, 40));
    assert_eq!(plans[2].steps[1].source.size, size(1, 40));
    assert!(plans[2].copy.is_none());
}

#[test]
fn cached_bitmaps_are_drawn_before_they_are_filtered() {
    let mut b = backend();
    b.set_quality(4, &vec![4]);
    let commands = list(vec![rect(), blend(vec![rect()], BlendMode::Multiply), rect()]);
    let frame = b.submit_frame(white(), &commands, true).unwrap();
    let plain = BitmapCacheEntry {
        texture: size(30, 40),
        commands: list(vec![]),
        clear: Color { r: 1, g: 2, b: 3, a: 4 },
        filters: vec![],
    };
    let blended =
        BitmapCacheEntry { texture: size(30, 40), commands, clear: white(), filters: vec![] };
    let plans = b.process_cache_entries(&vec![plain, blended], &mut Filters::new());

    let drawing = &plans[0].drawing;
    assert_eq!(drawing.globals.view_matrix, build_view_matrix(30, 40));
    assert_eq!(drawing.framebuffer.size, size(30, 40));
    assert_eq!(drawing.framebuffer.format, TextureFormat::Rgba8Unorm);
    assert!(drawing.framebuffer.usage.render_attachment && drawing.framebuffer.usage.copy_src);
    assert_eq!(drawing.msaa.unwrap().sample_count, 4);
    assert_eq!(drawing.depth_stencil.sample_count, 4);
    assert!(drawing.blend_buffer.is_none() && drawing.transforms.data.is_empty());
    assert_eq!(drawing.copy, Some(CopyRegion { x: 0, y: 0, width: 30, height: 40 }));
    assert_eq!(drawing.passes.len(), 1);
    let cleared = LoadOp::Clear(Color { r: 1, g: 2, b: 3, a: 4 });
    assert!(matches!(&drawing.passes[0], Pass::Render { load, .. } if *load == cleared));

    // The same commands take the same passes as in a frame.
    let drawing = &plans[1].drawing;
    assert!(drawing.blend_buffer.unwrap().usage.copy_dst);
    assert_eq!(drawing.transforms.data.len(), 3);
    assert_eq!(drawing.upload_offsets, frame.upload_offsets);
    assert_eq!(format!("{:?}", drawing.passes), format!("{:?}", frame.passes));
    assert!(plans[1].steps.is_empty() && plans[1].copy.is_none());
}

// ---- Texture data ----

#[test]
fn readback_rows_are_aligned() {
    assert_eq!(readback_bytes_per_row(0), 0);
    assert_eq!(readback_bytes_per_row(1), 256);
    assert_eq!(readback_bytes_per_row(64), 256);
    assert_eq!(readback_bytes_per_row(65), 512);
    assert_eq!(readback_size(65, 10), 5120);
    assert_eq!(upload_bytes_per_row(65), 260);
}

#[test]
fn bitmap_textures_are_bound_and_written() {
    let t = bitmap_texture(size(3, 4));
    assert_eq!((t.size, t.format), (size(3, 4), TextureFormat::Rgba8Unorm));
    assert!(t.usage.texture_binding && t.usage.copy_dst && !t.usage.render_attachment);
}

#[test]
fn the_renderer_names_itself() {
    assert_eq!(name(), "wgpu-bezier");
    assert_eq!(debug_info(), "Renderer: wgpu-bezier (Loop-Blinn quadratic Bézier)");
}

// ---- Pipelines and shaders ----

#[test]
fn vertex_layouts_match_the_vertices() {
    let color = VertexLayout::Color.attributes();
    assert_eq!(VertexLayout::Color.stride(), 40);
    let offsets: Vec<u64> = color.iter().map(|a| a.offset).collect();
    assert_eq!(offsets, vec![0, 8, 16, 20]);
    let locations: Vec<u32> = color.iter().map(|a| a.shader_location).collect();
    assert_eq!(locations, vec![0, 1, 2, 3]);
    assert_eq!(color[3].format, VertexFormat::Float32x4);
    let tex = VertexLayout::Tex.attributes();
    assert_eq!(VertexLayout::Tex.stride(), 24);
    assert_eq!(tex, color[..3].to_vec());
}

#[test]
fn bind_layouts_are_complete() {
    let layouts = BindLayouts::new();
    assert_eq!(layouts.globals.len(), 1);
    assert_eq!(layouts.globals[0].ty, BindingType::Uniform { has_dynamic_offset: false, min_size: 64 });
    assert!(layouts.globals[0].vertex && !layouts.globals[0].fragment);
    assert_eq!(layouts.transforms[0].ty, BindingType::Uniform { has_dynamic_offset: true, min_size: 96 });
    assert!(layouts.transforms[0].vertex && layouts.transforms[0].fragment);
    let kinds: Vec<BindingType> = layouts.gradient.iter().map(|e| e.ty).collect();
    assert_eq!(kinds[1], BindingType::Uniform { has_dynamic_offset: false, min_size: 16 });
    assert_eq!(&kinds[2..], &[BindingType::Texture, BindingType::Sampler]);
    let bindings: Vec<u32> = layouts.bitmap.iter().map(|e| e.binding).collect();
    assert_eq!(bindings, vec![0, 1, 2]);
}

#[test]
fn fill_pipelines_share_their_state() {
    let p = Pipelines::new(TextureFormat::Bgra8Unorm, 4);
    assert_eq!(p.color_fill.layouts, vec![BindLayout::Globals, BindLayout::Transforms]);
    assert_eq!(p.gradient_fill.layouts[2], BindLayout::Gradient);
    assert_eq!(p.bitmap_fill.layouts[2], BindLayout::Bitmap);
    assert_eq!(p.color_fill.vertex, VertexLayout::Color);
    let over = BlendComponent {
        src_factor: BlendFactor::One,
        dst_factor: BlendFactor::OneMinusSrcAlpha,
        operation: BlendOperation::Add,
    };
    for d in [&p.color_fill, &p.gradient_fill, &p.bitmap_fill] {
        assert_eq!(d.sample_count, 4);
        assert_eq!((d.blend.color, d.blend.alpha), (over, over));
        assert_eq!((d.format, d.cull_mode), (TextureFormat::Bgra8Unorm, None));
        assert_eq!(d.depth_stencil.format, TextureFormat::Depth24PlusStencil8);
        assert!(!d.depth_stencil.depth_write_enabled);
        assert_eq!(d.depth_stencil.depth_compare, CompareFunction::Always);
        assert_eq!(d.depth_stencil.stencil.compare, CompareFunction::Always);
        assert_eq!(d.depth_stencil.stencil.pass_op, StencilOperation::Keep);
    }
    assert_eq!(p.gradient_fill.vertex, VertexLayout::Tex);
    assert_eq!(p.color_fill.shader, Shader::BezierFill);
}

/// The stencil of a pixel after a draw over it.
fn stencil_after(mask_state: MaskState, reference: u8, value: u8) -> u8 {
    let stencil = MaskStencil::for_mask_state(mask_state);
    if stencil.tests_reference && value != reference {
        return value;
    }
    match stencil.pass_op {
        StencilOperation::Keep => value,
        StencilOperation::IncrementClamp => value.saturating_add(1),
        StencilOperation::DecrementClamp => value.saturating_sub(1),
    }
}

#[test]
fn masks_leave_the_stencil_as_it_was() {
    for depth in 0..4u8 {
        for value in 0..=depth {
            let mut stencil = value;
            for _ in 0..3 {
                stencil = stencil_after(MaskState::DrawMaskStencil, depth, stencil);
            }
            assert_eq!(stencil, if value == depth { depth + 1 } else { value });
            assert_eq!(stencil_after(MaskState::DrawMaskedContent, depth + 1, stencil), stencil);
            for _ in 0..2 {
                stencil = stencil_after(MaskState::ClearMaskStencil, depth + 1, stencil);
            }
            assert_eq!(stencil, value);
        }
    }
    let writes_color = |state| MaskStencil::for_mask_state(state).writes_color;
    assert!(writes_color(MaskState::NoMask) && writes_color(MaskState::DrawMaskedContent));
    assert!(!writes_color(MaskState::DrawMaskStencil));
    assert!(!writes_color(MaskState::ClearMaskStencil));
    assert!(!MaskStencil::for_mask_state(MaskState::NoMask).tests_reference);
}

#[test]
fn shaders_have_the_common_source_in_front() {
    assert_eq!(Shader::BezierFill.full_source("common;", "fill"), "common;fill");
    assert_eq!(Shader::RenderBitmap.full_source("common;", "bitmap"), "common;bitmap");
    assert_eq!(Shader::Copy.full_source("common;", "copy"), "common;copy");
    assert_eq!(
        Shader::Blend(ComplexBlend::Erase).full_source("common;", "erase"),
        "erase"
    );
}

#[test]
fn shader_names_are_distinct() {
    let blends = [
        ComplexBlend::Multiply,
        ComplexBlend::Lighten,
        ComplexBlend::Darken,
        ComplexBlend::Difference,
        ComplexBlend::Invert,
        ComplexBlend::Alpha,
        ComplexBlend::Erase,
        ComplexBlend::Overlay,
        ComplexBlend::HardLight,
    ];
    let mut names = vec![
        Shader::BezierFill.name(),
        Shader::BezierGradient.name(),
        Shader::BezierBitmap.name(),
        Shader::RenderBitmap.name(),
        Shader::Copy.name(),
    ];
    names.extend(blends.iter().map(|b| Shader::Blend(*b).name()));
    assert_eq!(names[0], "bezier_fill.wgsl");
    assert_eq!(names[13], "blend/hardlight.wgsl");
    names.sort();
    names.dedup();
    assert_eq!(names.len(), 14);
}
