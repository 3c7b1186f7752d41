use wgpu_bezier::commands::BitmapHandle;
use wgpu_bezier::filters::bevel::{premultiply, BevelFilter};
use wgpu_bezier::filters::blur::{BlurFilter, BlurInput, BlurPass};
use wgpu_bezier::filters::displacement_map::{DisplacementMapFilter, DisplacementMapFilterMode};
use wgpu_bezier::filters::drop_shadow::DropShadowFilter;
use wgpu_bezier::filters::glow::{GlowFilter, GlowUniform};
use wgpu_bezier::filters::{
    color_matrix_pipeline, create_filter_texture, is_filter_supported, BlurOffset, Filter,
    FilterBinding, FilterPlan, FilterQuad, FilterSampler, FilterSource, Filters, ShiftedUv,
};
use wgpu_bezier::geometry::{Color, Ratio, Size};
use wgpu_bezier::target::TextureFormat;

fn size(width: u32, height: u32) -> Size {
    Size { width, height }
}

fn value(r: Ratio) -> f32 {
    r.num as f32 / r.den as f32
}

fn blur(blur_x: i32, blur_y: i32, passes: u8) -> BlurFilter {
    BlurFilter { blur_x, blur_y, flags: passes << 3 }
}

fn passes(filter: BlurFilter) -> Vec<BlurPass> {
    filter.apply(size(100, 50), size(40, 20)).unwrap_or_default()
}

const PIXEL: i32 = 65536;

#[test]
fn blurs_alternate_between_axes_and_textures() {
    let all = passes(blur(4 * PIXEL, 3 * PIXEL, 2));
    let axes: Vec<bool> = all.iter().map(|p| p.horizontal).collect();
    assert_eq!(axes, vec![true, false, true, false]);
    let inputs: Vec<BlurInput> = all.iter().map(|p| p.input).collect();
    assert_eq!(
        inputs,
        vec![
            BlurInput::Source,
            BlurInput::Texture(1),
            BlurInput::Texture(0),
            BlurInput::Texture(1),
        ]
    );
    let outputs: Vec<usize> = all.iter().map(|p| p.output).collect();
    assert_eq!(outputs, vec![1, 0, 1, 0]);
    // The first pass steps through the source, the others through the target.
    assert_eq!(all[0].uniform.direction_x, Ratio { num: 1, den: 100 });
    assert_eq!(all[0].uniform.direction_y, Ratio { num: 0, den: 1 });
    assert_eq!(all[1].uniform.direction_y, Ratio { num: 1, den: 20 });
    assert_eq!(all[2].uniform.direction_x, Ratio { num: 1, den: 40 });
}

#[test]
fn blurs_of_a_pixel_do_nothing() {
    assert!(blur(PIXEL, PIXEL, 3).apply(size(9, 9), size(9, 9)).is_none());
    assert!(blur(4 * PIXEL, 4 * PIXEL, 0).apply(size(9, 9), size(9, 9)).is_none());
    assert!(blur(-PIXEL, i32::MIN, 3).apply(size(9, 9), size(9, 9)).is_none());
    let all = passes(blur(PIXEL, PIXEL + 1, 3));
    assert_eq!(all.len(), 3);
    assert!(all.iter().all(|p| !p.horizontal));
}

#[test]
fn the_number_of_passes_is_in_the_upper_bits() {
    let mut filter = blur(9 * PIXEL, 0, 31);
    assert_eq!(passes(filter).len(), 31);
    filter.flags |= 7;
    assert_eq!(passes(filter).len(), 31);
    filter.flags = 15;
    assert_eq!(passes(filter).len(), 1);
    for flags in 0..=255u8 {
        let swf_filter = swf::BlurFilter {
            blur_x: swf::Fixed16::ONE,
            blur_y: swf::Fixed16::ONE,
            flags: swf::BlurFilterFlags::from_bits_retain(flags),
        };
        filter.flags = flags;
        assert_eq!(passes(filter).len(), swf_filter.num_passes() as usize);
    }
}

#[test]
fn blur_weights_match_single_precision() {
    let mut raw = PIXEL + 1;
    while raw < 300 * PIXEL {
        let uniform = passes(blur(raw, 0, 1))[0].uniform;
        let full_size = swf::Fixed16::from_bits(raw).to_f32().min(255.0);
        let radius = (full_size - 1.0) / 2.0;
        let m = radius.ceil() - 1.0;
        let alpha = ((radius - m) * 255.0).floor() / 255.0;
        assert_eq!(value(uniform.full_size), full_size);
        assert_eq!(uniform.m as f32, m);
        assert_eq!(uniform.m2 as f32, m * 2.0);
        assert_eq!(value(uniform.first_weight), alpha);
        let last_offset = 1.0 / ((1.0 / alpha) + 1.0);
        assert!((value(uniform.last_offset) - last_offset).abs() < 1e-6);
        assert!((value(uniform.last_weight) - (alpha + 1.0)).abs() < 1e-6);
        raw += 997;
    }
}

#[test]
fn a_three_pixel_blur_covers_one_pixel_on_each_side() {
    let uniform = passes(blur(3 * PIXEL, 0, 1))[0].uniform;
    assert_eq!((uniform.m, uniform.m2), (0, 0));
    assert_eq!(uniform.first_weight, Ratio { num: 255, den: 255 });
    assert_eq!(uniform.last_offset, Ratio { num: 255, den: 510 });
    assert_eq!(uniform.last_weight, Ratio { num: 510, den: 255 });
    assert_eq!(uniform.full_size, Ratio { num: 3 * 65536, den: 65536 });
}

fn bevel(flags: u8) -> BevelFilter {
    BevelFilter {
        shadow_color: Color { r: 10, g: 20, b: 30, a: 255 },
        highlight_color: Color { r: 255, g: 128, b: 0, a: 100 },
        blur_x: 5 * PIXEL,
        blur_y: 6 * PIXEL,
        angle: 12345,
        distance: 4 * PIXEL,
        strength: 384,
        flags,
    }
}

#[test]
fn bevel_flags_are_those_of_swf() {
    for flags in 0..=255u8 {
        let reference = swf::BevelFilter {
            shadow_color: swf::Color::BLACK,
            highlight_color: swf::Color::WHITE,
            blur_x: swf::Fixed16::from_bits(5 * PIXEL),
            blur_y: swf::Fixed16::from_bits(6 * PIXEL),
            angle: swf::Fixed16::ZERO,
            distance: swf::Fixed16::ZERO,
            strength: swf::Fixed8::ONE,
            flags: swf::BevelFilterFlags::from_bits_retain(flags),
        };
        let plan = bevel(flags).apply(size(10, 10), size(10, 10));
        let bevel_type = if reference.is_on_top() {
            2
        } else if reference.is_inner() {
            1
        } else {
            0
        };
        assert_eq!(plan.uniform.bevel_type, bevel_type);
        assert_eq!(plan.uniform.knockout, u32::from(reference.is_knockout()));
        assert_eq!(plan.uniform.composite_source, 1);
        let blurred = plan.blur.map_or(0, |passes| passes.len());
        assert_eq!(blurred, 2 * reference.inner_blur_filter().num_passes() as usize);
    }
}

#[test]
fn bevels_premultiply_their_colors() {
    let plan = bevel(1).apply(size(10, 10), size(10, 10));
    let h = plan.uniform.highlight_color;
    assert_eq!(h.r, Ratio { num: 25500, den: 65025 });
    assert_eq!(h.g, Ratio { num: 12800, den: 65025 });
    assert_eq!(h.b, Ratio { num: 0, den: 65025 });
    assert_eq!(h.a, Ratio { num: 100, den: 255 });
    assert_eq!(plan.uniform.shadow_color.r, Ratio { num: 2550, den: 65025 });
    assert_eq!(plan.uniform.strength, Ratio { num: 384, den: 256 });
    assert_eq!(
        plan.blur_offset,
        BlurOffset { angle: 12345, distance: 4 * PIXEL, negated: false }
    );
    let blur = plan.blur.unwrap();
    assert_eq!(blur.len(), 2);
    assert_eq!(blur[0].uniform.full_size, Ratio { num: 5 * 65536, den: 65536 });
    assert_eq!(blur[1].uniform.full_size, Ratio { num: 6 * 65536, den: 65536 });
}

#[test]
fn premultiplied_channels_stay_below_alpha() {
    for a in 0..=255u8 {
        let p = premultiply(Color { r: 255, g: 255, b: 0, a });
        assert_eq!(p.r.num, 255 * p.a.num);
        assert_eq!(p.b.num, 0);
    }
}

#[test]
fn drop_shadows_are_offset_glows() {
    for flags in 0..=255u8 {
        let shadow = DropShadowFilter {
            color: Color { r: 1, g: 2, b: 3, a: 4 },
            blur_x: 7,
            blur_y: 8,
            angle: 9,
            distance: 10,
            strength: 11,
            flags,
        };
        let (glow, offset) = shadow.apply();
        assert_eq!(
            glow,
            GlowFilter {
                color: Color { r: 1, g: 2, b: 3, a: 4 },
                blur_x: 7,
                blur_y: 8,
                strength: 11,
                flags,
            }
        );
        assert_eq!(offset, BlurOffset { angle: 9, distance: 10, negated: true });
    }
}

#[test]
fn glows_blur_and_keep_their_flags() {
    let color = Color { r: 1, g: 2, b: 3, a: 4 };
    let offset = BlurOffset { angle: 5, distance: 6, negated: true };
    for flags in 0..=255u8 {
        let glow =
            GlowFilter { color, blur_x: 4 * PIXEL, blur_y: 0, strength: 512, flags };
        let plan = glow.apply(offset, size(100, 50), size(40, 20));
        let blur = blur(4 * PIXEL, 0, flags % 32);
        assert_eq!(plan.blur, blur.apply(size(100, 50), size(40, 20)));
        assert_eq!(plan.blur.map_or(0, |passes| passes.len()), usize::from(flags % 32));
        assert_eq!(
            plan.uniform,
            GlowUniform {
                color,
                strength: Ratio { num: 512, den: 256 },
                inner: u32::from(flags >= 128),
                knockout: u32::from(flags & 64 != 0),
                composite_source: u32::from(flags & 32 != 0),
            }
        );
        assert_eq!(plan.blur_offset, offset);
    }
}

fn displacement(map_bitmap: Option<BitmapHandle>) -> DisplacementMapFilter {
    DisplacementMapFilter {
        color: Color { r: 1, g: 2, b: 3, a: 4 },
        component_x: 0x12,
        component_y: 0x34,
        map_bitmap,
        map_x: -5,
        map_y: 6,
        mode: DisplacementMapFilterMode::Ignore,
        scale_x: 100,
        scale_y: 200,
        viewscale_x: 300,
        viewscale_y: 400,
    }
}

#[test]
fn displacement_maps_pack_their_components() {
    let map = BitmapHandle { key: 1, width: 16, height: 8 };
    let uniform = displacement(Some(map)).apply(size(64, 32)).unwrap();
    assert_eq!(uniform.components, 0x1234);
    assert_eq!(uniform.mode, 2);
    assert_eq!((uniform.source, uniform.map), (size(64, 32), size(16, 8)));
    assert_eq!((uniform.offset_x, uniform.offset_y), (-5, 6));
    assert_eq!((uniform.scale_x, uniform.scale_y), (100, 200));
    assert_eq!((uniform.viewscale_x, uniform.viewscale_y), (300, 400));
    let mode = |mode| {
        let mut filter = displacement(Some(map));
        filter.mode = mode;
        filter.apply(size(1, 1)).unwrap().mode
    };
    assert_eq!(mode(DisplacementMapFilterMode::Wrap), 0);
    assert_eq!(mode(DisplacementMapFilterMode::Clamp), 1);
    assert_eq!(mode(DisplacementMapFilterMode::Color), 3);
    assert!(displacement(None).apply(size(1, 1)).is_none());
}

fn source() -> FilterSource {
    FilterSource { texture: size(100, 50), x: 10, y: 20, size: size(30, 5) }
}

#[test]
fn filter_regions_have_four_corners() {
    let v = source().vertices();
    let uv: Vec<(f32, f32)> = v.iter().map(|v| (value(v.u), value(v.v))).collect();
    assert_eq!(uv, vec![(0.1, 0.4), (0.4, 0.4), (0.4, 0.5), (0.1, 0.5)]);
    let at: Vec<(u8, u8)> = v.iter().map(|v| (v.x, v.y)).collect();
    assert_eq!(at, vec![(0, 0), (1, 0), (1, 1), (0, 1)]);
}

#[test]
fn shifted_corners_go_both_ways() {
    let single = source().vertices_with_blur_offset();
    let double = source().vertices_with_highlight_and_shadow();
    let shifted = |x, y, against| ShiftedUv { x, y, against, texture: size(100, 50) };
    assert_eq!(single[2].blur_uv, shifted(40, 25, false));
    for i in 0..4 {
        assert_eq!(single[i].corner, source().vertices()[i]);
        assert_eq!(double[i].corner, source().vertices()[i]);
        assert_eq!(double[i].blur_uv_left, single[i].blur_uv);
    }
    assert_eq!(double[1].blur_uv_right, shifted(40, 20, true));
}

#[test]
fn the_filter_quad_covers_everything() {
    let quad = FilterQuad::new();
    assert_eq!(quad.indices, [0, 1, 2, 0, 2, 3]);
    for v in quad.vertices {
        assert_eq!((value(v.u), value(v.v)), (f32::from(v.x), f32::from(v.y)));
    }
    let entire = FilterSource::for_entire_texture(size(7, 9)).vertices();
    for v in entire {
        assert_eq!((value(v.u), value(v.v)), (f32::from(v.x), f32::from(v.y)));
    }
}

#[test]
fn filter_textures_are_never_empty() {
    let texture = create_filter_texture(0, 7);
    assert_eq!(texture.size, size(1, 7));
    assert_eq!(texture.format, TextureFormat::Rgba8Unorm);
    assert_eq!(texture.sample_count, 1);
    assert!(texture.usage.render_attachment && texture.usage.texture_binding);
    assert!(texture.usage.copy_src && !texture.usage.copy_dst);
}

fn is_copy(plan: &FilterPlan) -> bool {
    let one = 1.0f32.to_bits();
    match plan {
        FilterPlan::ColorMatrix(m) => {
            (0..20).all(|i| m[i] == if i % 6 == 0 { one } else { 0 })
        }
        _ => false,
    }
}

#[test]
fn unsupported_filters_copy_and_warn_once() {
    let mut filters = Filters::new();
    let unsupported = [
        Filter::GradientGlowFilter,
        Filter::GradientBevelFilter,
        Filter::ConvolutionFilter,
        Filter::ShaderFilter,
    ];
    for filter in unsupported {
        assert!(!is_filter_supported(&filter));
        let (plan, warn) = filters.apply(&filter, &source());
        assert!(is_copy(&plan) && warn);
    }
    for filter in unsupported {
        let (plan, warn) = filters.apply(&filter, &source());
        assert!(is_copy(&plan) && !warn);
    }
}

#[test]
fn the_identity_color_matrix_is_the_default_one() {
    let mut filters = Filters::new();
    let (plan, _) = filters.apply(&Filter::ShaderFilter, &source());
    let expected: Vec<u32> =
        swf::ColorMatrixFilter::default().matrix.iter().map(|v| v.to_bits()).collect();
    match plan {
        FilterPlan::ColorMatrix(m) => assert_eq!(m.to_vec(), expected),
        _ => panic!("a color matrix"),
    }
}

#[test]
fn supported_filters_are_planned() {
    let mut filters = Filters::new();
    let matrix = [5u32; 20];
    let (plan, warn) = filters.apply(&Filter::ColorMatrixFilter(matrix), &source());
    assert!(!warn && matches!(plan, FilterPlan::ColorMatrix(m) if m == matrix));

    let (plan, _) = filters.apply(&Filter::BlurFilter(blur(4 * PIXEL, 0, 1)), &source());
    match plan {
        FilterPlan::Blur(all) => {
            assert_eq!(all.len(), 1);
            assert_eq!(all[0].uniform.direction_x, Ratio { num: 1, den: 100 });
        }
        _ => panic!("a blur"),
    }
    let (plan, _) = filters.apply(&Filter::BlurFilter(blur(0, 0, 1)), &source());
    assert!(is_copy(&plan));

    let glow = GlowFilter {
        color: Color { r: 1, g: 2, b: 3, a: 4 },
        blur_x: 1,
        blur_y: 2,
        strength: 3,
        flags: 4,
    };
    let (plan, _) = filters.apply(&Filter::GlowFilter(glow), &source());
    assert!(matches!(
        plan,
        FilterPlan::Glow(p)
            if p.blur.is_none() && p.blur_offset.distance == 0 && p.uniform.color == glow.color
    ));
    let (plan, _) = filters.apply(&Filter::BevelFilter(bevel(0)), &source());
    assert!(matches!(plan, FilterPlan::Bevel(p) if p.blur.is_none()));
    let (plan, _) = filters.apply(&Filter::DisplacementMapFilter(displacement(None)), &source());
    assert!(is_copy(&plan));
    let map = BitmapHandle { key: 1, width: 16, height: 8 };
    let (plan, _) =
        filters.apply(&Filter::DisplacementMapFilter(displacement(Some(map))), &source());
    assert!(matches!(plan, FilterPlan::DisplacementMap(u) if u.source == size(100, 50)));
    assert!(is_filter_supported(&Filter::GlowFilter(glow)));
}

#[test]
fn filters_read_with_their_samplers() {
    let samplers = |filter| Filters::new().apply(&filter, &source()).0.samplers();
    let nearest = vec![FilterSampler::Nearest];
    assert_eq!(samplers(Filter::ShaderFilter), nearest);
    assert_eq!(samplers(Filter::BevelFilter(bevel(0))), nearest);
    assert_eq!(
        samplers(Filter::BlurFilter(blur(4 * PIXEL, 0, 1))),
        vec![FilterSampler::Linear]
    );
    let glow = GlowFilter {
        color: Color { r: 1, g: 2, b: 3, a: 4 },
        blur_x: 4 * PIXEL,
        blur_y: 0,
        strength: 256,
        flags: 1,
    };
    assert_eq!(samplers(Filter::GlowFilter(glow)), nearest);
    let map = BitmapHandle { key: 1, width: 16, height: 8 };
    assert_eq!(
        samplers(Filter::DisplacementMapFilter(displacement(Some(map)))),
        vec![FilterSampler::RepeatLinear, FilterSampler::Nearest]
    );
    let read = |sampler: FilterSampler| {
        let descriptor = sampler.descriptor();
        (descriptor.linear, descriptor.repeat)
    };
    assert_eq!(read(BlurFilter::sampler()), (true, false));
    assert_eq!(read(FilterSampler::Nearest), (false, false));
    assert_eq!(read(FilterSampler::RepeatLinear), (true, true));
}

#[test]
fn filter_pipelines_bind_what_their_shaders_read() {
    let matrix = color_matrix_pipeline();
    assert_eq!(
        matrix.bindings[2],
        FilterBinding::Uniform { min_size: 80, for_vertices: false }
    );
    assert_eq!((matrix.bindings.len(), matrix.vertex_stride()), (3, 16));
    let blur = BlurFilter::pipeline();
    assert_eq!(
        blur.bindings,
        vec![
            FilterBinding::Texture { filterable: true },
            FilterBinding::Sampler { filtering: true },
            FilterBinding::Uniform { min_size: 32, for_vertices: true },
        ]
    );
    assert_eq!((blur.vertex_stride(), blur.pair_offset(0), blur.pair_offset(1)), (16, 0, 8));
    let bevel = BevelFilter::pipeline();
    assert_eq!(bevel.bindings.len(), 4);
    assert_eq!(
        bevel.bindings[2],
        FilterBinding::Uniform { min_size: 48, for_vertices: false }
    );
    assert_eq!(bevel.bindings[3], FilterBinding::Texture { filterable: false });
    assert_eq!((bevel.vertex_stride(), bevel.pair_offset(3)), (32, 24));
    let glow = GlowFilter::pipeline();
    assert_eq!(glow.bindings.len(), 4);
    assert_eq!(glow.bindings[2], FilterBinding::Uniform { min_size: 32, for_vertices: false });
    assert_eq!((glow.vertex_stride(), glow.pair_offset(2)), (24, 16));
    let map = DisplacementMapFilter::pipeline();
    assert_eq!(map.bindings[2], FilterBinding::Sampler { filtering: true });
    assert_eq!(map.bindings[3], FilterBinding::Sampler { filtering: false });
    assert_eq!(map.bindings[4], FilterBinding::Uniform { min_size: 64, for_vertices: false });
    assert_eq!(map.vertex_stride(), 16);
}
