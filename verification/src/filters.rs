//! Image filters (blur, glow, drop shadow, bevel, color matrix, displacement map)
//! applied to rendered display objects. Each filter reads from a source texture
//! and writes to a new target texture.
use crate::filters::bevel::{
    bevel_bindings, bevel_type, inner_blur, premultiplied, BevelFilter, BevelPlan, BevelUniform,
    PremultipliedColor,
};
use crate::filters::blur::{blur_bindings, blur_passes, BlurFilter, BlurPass};
use crate::filters::displacement_map::{
    displacement_map_bindings, DisplacementMapFilter, DisplacementMapUniform,
};
use crate::filters::drop_shadow::DropShadowFilter;
use crate::filters::glow::{glow_bindings, is_glow_plan, GlowFilter, GlowPlan};
use crate::geometry::{Color, Ratio, Size};
use crate::target::{TextureDescriptor, TextureFormat, TextureUsages};
use vstd::prelude::*;

pub mod bevel;
pub mod blur;
pub mod displacement_map;
pub mod drop_shadow;
pub mod glow;

verus! {

/// How far a blurred copy is shifted: `distance` pixels in a direction, or against
/// it. Angle (in radians) and distance are in 16.16 fixed point.
#[derive(Clone, Copy, PartialEq, Eq, Structural, Debug)]
pub struct BlurOffset {
    pub angle: i32,
    pub distance: i32,
    pub negated: bool,
}

/// A color matrix: IEEE-754 single precision bit patterns, four rows of five.
pub type ColorMatrix = [u32; 20];

/// A filter.
#[derive(Clone, Copy, Debug)]
pub enum Filter {
    ColorMatrixFilter(ColorMatrix),
    BlurFilter(BlurFilter),
    GlowFilter(GlowFilter),
    DropShadowFilter(DropShadowFilter),
    BevelFilter(BevelFilter),
    DisplacementMapFilter(DisplacementMapFilter),
    GradientGlowFilter,
    GradientBevelFilter,
    ConvolutionFilter,
    ShaderFilter,
}

/// A region of a source texture to use as filter input.
#[derive(Clone, Copy, PartialEq, Eq, Structural, Debug)]
pub struct FilterSource {
    /// The size of the whole texture.
    pub texture: Size,
    pub x: u32,
    pub y: u32,
    /// The size of the region.
    pub size: Size,
}

/// A corner of the filtered region: where it is drawn on the unit square, and the
/// texture coordinates that it is read from.
#[derive(Clone, Copy, PartialEq, Eq, Structural, Debug)]
pub struct FilterVertex {
    pub x: u8,
    pub y: u8,
    pub u: Ratio,
    pub v: Ratio,
}

/// A texel coordinate, shifted by a blur offset or against it, over the size of
/// the texture.
#[derive(Clone, Copy, PartialEq, Eq, Structural, Debug)]
pub struct ShiftedUv {
    pub x: u32,
    pub y: u32,
    pub against: bool,
    pub texture: Size,
}

/// A corner that is also looked up in a shifted blurred copy.
#[derive(Clone, Copy, PartialEq, Eq, Structural, Debug)]
pub struct FilterVertexWithBlur {
    pub corner: FilterVertex,
    pub blur_uv: ShiftedUv,
}

/// A corner that is also looked up in copies shifted both ways.
#[derive(Clone, Copy, PartialEq, Eq, Structural, Debug)]
pub struct FilterVertexWithDoubleBlur {
    pub corner: FilterVertex,
    pub blur_uv_left: ShiftedUv,
    pub blur_uv_right: ShiftedUv,
}

/// The corners of the unit square, in order.
pub open spec fn unit_corner(i: int) -> (int, int) {
    if i == 0 {
        (0, 0)
    } else if i == 1 {
        (1, 0)
    } else if i == 2 {
        (1, 1)
    } else {
        (0, 1)
    }
}

impl FilterSource {
    /// The region's far edges can be counted.
    pub open spec fn wf(self) -> bool {
        self.x + self.size.width <= u32::MAX && self.y + self.size.height <= u32::MAX
    }

    /// The texel at a corner of the region.
    pub open spec fn corner_texel(self, i: int) -> (int, int) {
        (
            self.x + if unit_corner(i).0 == 1 {
                self.size.width as int
            } else {
                0
            },
            self.y + if unit_corner(i).1 == 1 {
                self.size.height as int
            } else {
                0
            },
        )
    }

    /// A corner of the region.
    pub open spec fn corner(self, i: int) -> FilterVertex {
        FilterVertex {
            x: unit_corner(i).0 as u8,
            y: unit_corner(i).1 as u8,
            u: Ratio { num: self.corner_texel(i).0 as i128, den: self.texture.width as i128 },
            v: Ratio { num: self.corner_texel(i).1 as i128, den: self.texture.height as i128 },
        }
    }

    /// A corner of the region in a shifted copy.
    pub open spec fn shifted_corner(self, i: int, against: bool) -> ShiftedUv {
        ShiftedUv {
            x: self.corner_texel(i).0 as u32,
            y: self.corner_texel(i).1 as u32,
            against,
            texture: self.texture,
        }
    }

    /// The whole of a texture.
    pub fn for_entire_texture(texture: Size) -> (r: FilterSource)
        ensures
            r == (FilterSource { texture, x: 0, y: 0, size: texture }),
            r.wf(),
    {
        FilterSource { texture, x: 0, y: 0, size: texture }
    }

    /// A corner of the region, and its texel.
    fn make_corner(&self, right: bool, bottom: bool) -> (r: (FilterVertex, u32, u32))
        requires
            self.wf(),
        ensures
            r.1 == self.x + (if right { self.size.width as int } else { 0 }),
            r.2 == self.y + (if bottom { self.size.height as int } else { 0 }),
            r.0 == (FilterVertex {
                x: if right { 1 } else { 0 },
                y: if bottom { 1 } else { 0 },
                u: Ratio { num: r.1 as i128, den: self.texture.width as i128 },
                v: Ratio { num: r.2 as i128, den: self.texture.height as i128 },
            }),
    {
        let x: u32 = if right {
            self.x + self.size.width
        } else {
            self.x
        };
        let y: u32 = if bottom {
            self.y + self.size.height
        } else {
            self.y
        };
        let corner = FilterVertex {
            x: if right {
                1
            } else {
                0
            },
            y: if bottom {
                1
            } else {
                0
            },
            u: Ratio { num: x as i128, den: self.texture.width as i128 },
            v: Ratio { num: y as i128, den: self.texture.height as i128 },
        };
        (corner, x, y)
    }

    /// The corners of the region.
    pub fn vertices(&self) -> (r: [FilterVertex; 4])
        requires
            self.wf(),
        ensures
            forall|i: int| 0 <= i < 4 ==> #[trigger] r@[i] == self.corner(i),
    {
        [
            self.make_corner(false, false).0,
            self.make_corner(true, false).0,
            self.make_corner(true, true).0,
            self.make_corner(false, true).0,
        ]
    }

    /// A corner with its place in a shifted copy.
    fn corner_with_blur(&self, right: bool, bottom: bool) -> (r: FilterVertexWithBlur)
        requires
            self.wf(),
        ensures
            forall|i: int|
                0 <= i < 4 && #[trigger] unit_corner(i) == (
                    if right { 1int } else { 0 },
                    if bottom { 1int } else { 0 },
                ) ==> r.corner == self.corner(i) && r.blur_uv == self.shifted_corner(i, false),
    {
        let (corner, x, y) = self.make_corner(right, bottom);
        FilterVertexWithBlur {
            corner,
            blur_uv: ShiftedUv { x, y, against: false, texture: self.texture },
        }
    }

    /// The corners of the region, each with its place in a shifted blurred copy.
    pub fn vertices_with_blur_offset(&self) -> (r: [FilterVertexWithBlur; 4])
        requires
            self.wf(),
        ensures
            forall|i: int|
                0 <= i < 4 ==> (#[trigger] r@[i]).corner == self.corner(i) && r@[i].blur_uv
                    == self.shifted_corner(i, false),
    {
        proof {
            assert(unit_corner(0) == (0int, 0int) && unit_corner(1) == (1int, 0int));
            assert(unit_corner(2) == (1int, 1int) && unit_corner(3) == (0int, 1int));
        }
        [
            self.corner_with_blur(false, false),
            self.corner_with_blur(true, false),
            self.corner_with_blur(true, true),
            self.corner_with_blur(false, true),
        ]
    }

    /// The corners of the region, each with its places in copies shifted both ways.
    pub fn vertices_with_highlight_and_shadow(&self) -> (r: [FilterVertexWithDoubleBlur; 4])
        requires
            self.wf(),
        ensures
            forall|i: int|
                0 <= i < 4 ==> (#[trigger] r@[i]).corner == self.corner(i) && r@[i].blur_uv_left
                    == self.shifted_corner(i, false) && r@[i].blur_uv_right == self.shifted_corner(
                    i,
                    true,
                ),
    {
        let v = self.vertices_with_blur_offset();
        [add_opposite(v[0]), add_opposite(v[1]), add_opposite(v[2]), add_opposite(v[3])]
    }
}

/// Adds the place in a copy shifted the other way.
fn add_opposite(v: FilterVertexWithBlur) -> (r: FilterVertexWithDoubleBlur)
    ensures
        r.corner == v.corner,
        r.blur_uv_left == v.blur_uv,
        r.blur_uv_right == (ShiftedUv { against: true, ..v.blur_uv }),
{
    FilterVertexWithDoubleBlur {
        corner: v.corner,
        blur_uv_left: v.blur_uv,
        blur_uv_right: ShiftedUv { against: true, ..v.blur_uv },
    }
}

/// Quad geometry shared by all filters: two triangles that cover the target and
/// read the whole source.
#[derive(Clone, Copy, Debug)]
pub struct FilterQuad {
    pub indices: [u32; 6],
    pub vertices: [FilterVertex; 4],
}

impl FilterQuad {
    /// The quad.
    pub fn new() -> (r: FilterQuad)
        ensures
            r.indices@ == seq![0u32, 1, 2, 0, 2, 3],
            forall|i: int|
                0 <= i < 4 ==> #[trigger] r.vertices@[i] == (FilterSource {
                    texture: Size { width: 1, height: 1 },
                    x: 0,
                    y: 0,
                    size: Size { width: 1, height: 1 },
                }).corner(i),
    {
        let indices: [u32; 6] = [0, 1, 2, 0, 2, 3];
        assert(indices@ == seq![0u32, 1, 2, 0, 2, 3]);
        FilterQuad {
            indices,
            vertices: FilterSource::for_entire_texture(Size { width: 1, height: 1 }).vertices(),
        }
    }
}

/// Filtering a whole texture reads it from edge to edge: at each corner of the
/// target the corner of the source is read.
pub proof fn entire_texture_is_read(texture: Size, i: int)
    requires
        0 <= i < 4,
    ensures
        ({
            let corner = (FilterSource { texture, x: 0, y: 0, size: texture }).corner(i);
            &&& corner.x == 0 ==> corner.u.num == 0
            &&& corner.x == 1 ==> corner.u.num == corner.u.den
            &&& corner.y == 0 ==> corner.v.num == 0
            &&& corner.y == 1 ==> corner.v.num == corner.v.den
        }),
{
}

/// Which unsupported filters have been warned about.
#[derive(Clone, Copy, PartialEq, Eq, Structural, Debug)]
pub struct WarnedFilters {
    pub gradient_glow: bool,
    pub gradient_bevel: bool,
    pub convolution: bool,
    pub shader: bool,
}

/// How a filter is drawn.
#[derive(Debug)]
pub enum FilterPlan {
    ColorMatrix(ColorMatrix),
    Blur(Vec<BlurPass>),
    Glow(GlowPlan),
    Bevel(BevelPlan),
    DisplacementMap(DisplacementMapUniform),
}

/// One in IEEE-754 single precision.
pub const ONE: u32 = 0x3f800000;

/// The color matrix that changes nothing.
pub open spec fn identity_color_matrix() -> ColorMatrix {
    [
        ONE, 0, 0, 0, 0,
        0, ONE, 0, 0, 0,
        0, 0, ONE, 0, 0,
        0, 0, 0, ONE, 0,
    ]
}

/// The color matrix that changes nothing.
fn make_identity_color_matrix() -> (r: ColorMatrix)
    ensures
        r == identity_color_matrix(),
{
    [
        ONE, 0, 0, 0, 0,
        0, ONE, 0, 0, 0,
        0, 0, ONE, 0, 0,
        0, 0, 0, ONE, 0,
    ]
}

/// Whether a filter can be drawn.
pub open spec fn is_supported(filter: Filter) -> bool {
    match filter {
        Filter::BlurFilter(_)
        | Filter::GlowFilter(_)
        | Filter::DropShadowFilter(_)
        | Filter::ColorMatrixFilter(_)
        | Filter::BevelFilter(_)
        | Filter::DisplacementMapFilter(_) => true,
        _ => false,
    }
}

/// Whether a filter can be drawn.
pub fn is_filter_supported(filter: &Filter) -> (r: bool)
    ensures
        r == is_supported(*filter),
{
    matches!(
        filter,
        Filter::BlurFilter(_)
            | Filter::GlowFilter(_)
            | Filter::DropShadowFilter(_)
            | Filter::ColorMatrixFilter(_)
            | Filter::BevelFilter(_)
            | Filter::DisplacementMapFilter(_)
    )
}

/// Whether a plan only copies its source.
pub open spec fn only_copies(plan: FilterPlan) -> bool {
    plan matches FilterPlan::ColorMatrix(matrix) && matrix == identity_color_matrix()
}

/// The size of a filter's target for a region: at least one pixel each way.
pub open spec fn output_size(size: Size) -> Size {
    Size {
        width: if size.width < 1 {
            1
        } else {
            size.width
        },
        height: if size.height < 1 {
            1
        } else {
            size.height
        },
    }
}

/// The offset of a blurred copy that is not shifted.
pub open spec fn no_offset() -> BlurOffset {
    BlurOffset { angle: 0, distance: 0, negated: false }
}

/// The glow of a drop shadow: the same color, sizes, strength and flags.
pub open spec fn shadow_glow(shadow: DropShadowFilter) -> GlowFilter {
    GlowFilter {
        color: shadow.color,
        blur_x: shadow.blur_x,
        blur_y: shadow.blur_y,
        strength: shadow.strength,
        flags: shadow.flags,
    }
}

/// Whether a plan is the one for a filter. Where a filter changes nothing, has no
/// map or is not supported, the source is only copied.
pub open spec fn is_plan(plan: FilterPlan, filter: Filter, source: FilterSource) -> bool {
    let (texture, output) = (source.texture, output_size(source.size));
    match filter {
        Filter::ColorMatrixFilter(matrix) => plan == FilterPlan::ColorMatrix(matrix),
        Filter::BlurFilter(blur) => if blur_passes(blur, texture, output).len() == 0 {
            only_copies(plan)
        } else {
            plan matches FilterPlan::Blur(passes) && passes@ == blur_passes(blur, texture, output)
        },
        Filter::GlowFilter(glow) => plan matches FilterPlan::Glow(p) && is_glow_plan(
            p,
            glow,
            no_offset(),
            texture,
            output,
        ),
        Filter::DropShadowFilter(shadow) => plan matches FilterPlan::Glow(p) && is_glow_plan(
            p,
            shadow_glow(shadow),
            BlurOffset { angle: shadow.angle, distance: shadow.distance, negated: true },
            texture,
            output,
        ),
        Filter::BevelFilter(bevel) => plan matches FilterPlan::Bevel(p) && (match p.blur {
            Some(passes) => passes@.len() > 0 && passes@ == blur_passes(
                inner_blur(bevel),
                texture,
                output,
            ),
            None => blur_passes(inner_blur(bevel), texture, output).len() == 0,
        }) && p.uniform == (BevelUniform {
            highlight_color: premultiplied(bevel.highlight_color),
            shadow_color: premultiplied(bevel.shadow_color),
            strength: Ratio { num: bevel.strength as i128, den: 256 },
            bevel_type: bevel_type(bevel.flags),
            knockout: if bevel.flags / 64 % 2 == 1 {
                1
            } else {
                0
            },
            composite_source: 1,
        }) && p.blur_offset == (BlurOffset {
            angle: bevel.angle,
            distance: bevel.distance,
            negated: false,
        }),
        Filter::DisplacementMapFilter(map) => match map.map_bitmap {
            None => only_copies(plan),
            Some(bitmap) => plan == FilterPlan::DisplacementMap(
                DisplacementMapUniform {
                    color: map.color,
                    components: (256 * map.component_x + map.component_y) as u32,
                    mode: crate::filters::displacement_map::mode_code(map.mode),
                    scale_x: map.scale_x,
                    scale_y: map.scale_y,
                    source: texture,
                    map: Size { width: bitmap.width, height: bitmap.height },
                    offset_x: map.map_x,
                    offset_y: map.map_y,
                    viewscale_x: map.viewscale_x,
                    viewscale_y: map.viewscale_y,
                },
            ),
        },
        _ => only_copies(plan),
    }
}

/// The warnings given after a filter has been applied.
pub open spec fn warned_after(warned: WarnedFilters, filter: Filter) -> WarnedFilters {
    match filter {
        Filter::GradientGlowFilter => WarnedFilters { gradient_glow: true, ..warned },
        Filter::GradientBevelFilter => WarnedFilters { gradient_bevel: true, ..warned },
        Filter::ConvolutionFilter => WarnedFilters { convolution: true, ..warned },
        Filter::ShaderFilter => WarnedFilters { shader: true, ..warned },
        _ => warned,
    }
}

impl WarnedFilters {
    /// Notes an unsupported filter. Returns whether it is the first of its kind.
    pub fn note(&mut self, filter: &Filter) -> (first: bool)
        ensures
            *final(self) == warned_after(*old(self), *filter),
            first == (warned_after(*old(self), *filter) != *old(self)),
    {
        match filter {
            Filter::GradientGlowFilter => {
                let first = !self.gradient_glow;
                self.gradient_glow = true;
                first
            },
            Filter::GradientBevelFilter => {
                let first = !self.gradient_bevel;
                self.gradient_bevel = true;
                first
            },
            Filter::ConvolutionFilter => {
                let first = !self.convolution;
                self.convolution = true;
                first
            },
            Filter::ShaderFilter => {
                let first = !self.shader;
                self.shader = true;
                first
            },
            _ => false,
        }
    }
}

/// The size of a filter's target for a region.
pub fn filter_texture_size(size: Size) -> (r: Size)
    ensures
        r == output_size(size),
{
    Size {
        width: if size.width < 1 {
            1
        } else {
            size.width
        },
        height: if size.height < 1 {
            1
        } else {
            size.height
        },
    }
}

/// A fresh texture for filter output.
pub fn create_filter_texture(width: u32, height: u32) -> (r: TextureDescriptor)
    ensures
        crate::backend::is_used_for(r, true, true, true, false),
        r == (TextureDescriptor {
            size: output_size(Size { width, height }),
            sample_count: 1,
            format: TextureFormat::Rgba8Unorm,
            usage: TextureUsages {
                render_attachment: true,
                texture_binding: true,
                copy_src: true,
                copy_dst: false,
            },
        }),
{
    TextureDescriptor {
        size: filter_texture_size(Size { width, height }),
        sample_count: 1,
        format: TextureFormat::Rgba8Unorm,
        usage: TextureUsages {
            render_attachment: true,
            texture_binding: true,
            copy_src: true,
            copy_dst: false,
        },
    }
}

/// The filters, and which unsupported ones have been warned about. One value serves
/// all backends of a process.
#[derive(Clone, Copy, PartialEq, Eq, Structural, Debug)]
pub struct Filters {
    pub warned: WarnedFilters,
}

impl Filters {
    /// The filters, without any warnings.
    pub fn new() -> (r: Filters)
        ensures
            r.warned == (WarnedFilters {
                gradient_glow: false,
                gradient_bevel: false,
                convolution: false,
                shader: false,
            }),
    {
        Filters {
            warned: WarnedFilters {
                gradient_glow: false,
                gradient_bevel: false,
                convolution: false,
                shader: false,
            },
        }
    }

    /// Apply a filter to a region of a source texture. Also returns whether to warn
    /// that the filter is not supported: once for each kind.
    pub fn apply(&mut self, filter: &Filter, source: &FilterSource) -> (r: (FilterPlan, bool))
        ensures
            is_plan(r.0, *filter, *source),
            final(self).warned == warned_after(old(self).warned, *filter),
            r.1 == (final(self).warned != old(self).warned),
    {
        let output = filter_texture_size(source.size);
        let warn = self.warned.note(filter);
        let plan = match filter {
            Filter::ColorMatrixFilter(matrix) => Some(FilterPlan::ColorMatrix(*matrix)),
            Filter::BlurFilter(blur) => match blur.apply(source.texture, output) {
                Some(passes) => Some(FilterPlan::Blur(passes)),
                None => None,
            },
            Filter::GlowFilter(glow) => {
                let blur_offset = BlurOffset { angle: 0, distance: 0, negated: false };
                Some(FilterPlan::Glow(glow.apply(blur_offset, source.texture, output)))
            },
            Filter::DropShadowFilter(shadow) => {
                let (glow, blur_offset) = shadow.apply();
                Some(FilterPlan::Glow(glow.apply(blur_offset, source.texture, output)))
            },
            Filter::BevelFilter(bevel) => Some(
                FilterPlan::Bevel(bevel.apply(source.texture, output)),
            ),
            Filter::DisplacementMapFilter(map) => match map.apply(source.texture) {
                Some(uniform) => Some(FilterPlan::DisplacementMap(uniform)),
                None => None,
            },
            _ => None,
        };
        match plan {
            Some(plan) => (plan, warn),
            // Fallback: apply an identity color matrix (essentially a blit).
            None => (FilterPlan::ColorMatrix(make_identity_color_matrix()), warn),
        }
    }
}

/// A filter is warned about at most once: noting it again changes nothing. And
/// filters that are supported are never warned about.
pub proof fn warnings_are_given_once(warned: WarnedFilters, filter: Filter)
    ensures
        warned_after(warned_after(warned, filter), filter) == warned_after(warned, filter),
        is_supported(filter) ==> warned_after(warned, filter) == warned,
{
}

/// A drop shadow is the glow of the same color, sizes, strength and flags, with an
/// offset: without it, the plan is the one for that glow.
pub proof fn drop_shadow_is_an_offset_glow(
    plan: FilterPlan,
    shadow: DropShadowFilter,
    source: FilterSource,
)
    requires
        is_plan(plan, Filter::DropShadowFilter(shadow), source),
    ensures
        plan matches FilterPlan::Glow(p) && p.blur_offset == (BlurOffset {
            angle: shadow.angle,
            distance: shadow.distance,
            negated: true,
        }) && is_plan(
            FilterPlan::Glow(GlowPlan { blur_offset: no_offset(), ..p }),
            Filter::GlowFilter(shadow_glow(shadow)),
            source,
        ),
{
}

// ---- What filters are drawn with ----

/// What the shader of a filter finds at a binding.
#[derive(Clone, Copy, PartialEq, Eq, Structural, Debug)]
pub enum FilterBinding {
    /// A two-dimensional texture that can be filtered, or only read texel by texel.
    Texture { filterable: bool },
    /// A sampler that filters, or one that does not.
    Sampler { filtering: bool },
    /// A uniform buffer of at least so many bytes, for vertices too or for fragments
    /// only.
    Uniform { min_size: u64, for_vertices: bool },
}

/// What a filter's shader reads textures with.
#[derive(Clone, Copy, PartialEq, Eq, Structural, Debug)]
pub enum FilterSampler {
    /// Interpolates, and reads the edge outside of a texture.
    Linear,
    /// Does not interpolate, and reads the edge outside of a texture.
    Nearest,
    /// Interpolates, and reads a texture again outside of it.
    RepeatLinear,
}

/// How a sampler reads.
#[derive(Clone, Copy, PartialEq, Eq, Structural, Debug)]
pub struct SamplerDescriptor {
    /// Interpolate between texels instead of taking the nearest.
    pub linear: bool,
    /// Repeat the texture outside of it instead of going on with its edge.
    pub repeat: bool,
}

impl FilterSampler {
    /// How this sampler reads.
    pub open spec fn spec_descriptor(self) -> SamplerDescriptor {
        SamplerDescriptor {
            linear: !(self is Nearest),
            repeat: self is RepeatLinear,
        }
    }

    /// How this sampler reads.
    pub fn descriptor(&self) -> (r: SamplerDescriptor)
        ensures
            r == self.spec_descriptor(),
    {
        match self {
            FilterSampler::Linear => SamplerDescriptor { linear: true, repeat: false },
            FilterSampler::Nearest => SamplerDescriptor { linear: false, repeat: false },
            FilterSampler::RepeatLinear => SamplerDescriptor { linear: true, repeat: true },
        }
    }
}

/// The samplers of a plan's shader, in the order of their bindings.
pub open spec fn plan_samplers(plan: FilterPlan) -> Seq<FilterSampler> {
    match plan {
        FilterPlan::ColorMatrix(_) => seq![FilterSampler::Nearest],
        FilterPlan::Blur(_) => seq![FilterSampler::Linear],
        FilterPlan::Glow(_) => seq![FilterSampler::Nearest],
        FilterPlan::Bevel(_) => seq![FilterSampler::Nearest],
        FilterPlan::DisplacementMap(_) => seq![
            FilterSampler::RepeatLinear,
            FilterSampler::Nearest,
        ],
    }
}

impl FilterPlan {
    /// The samplers of this plan's shader, in the order of their bindings. The passes of
    /// a blur that is part of a glow or a bevel read with [`BlurFilter::sampler`].
    pub fn samplers(&self) -> (r: Vec<FilterSampler>)
        ensures
            r@ == plan_samplers(*self),
    {
        let samplers = match self {
            FilterPlan::ColorMatrix(_) => vec![FilterSampler::Nearest],
            FilterPlan::Blur(_) => vec![BlurFilter::sampler()],
            FilterPlan::Glow(_) => vec![FilterSampler::Nearest],
            FilterPlan::Bevel(_) => vec![FilterSampler::Nearest],
            FilterPlan::DisplacementMap(_) => vec![
                FilterSampler::RepeatLinear,
                FilterSampler::Nearest,
            ],
        };
        assert(samplers@ =~= plan_samplers(*self));
        samplers
    }
}

/// Every sampler of a plan fits its binding: it interpolates exactly where the shader
/// asks for a sampler that filters.
pub proof fn samplers_fit_their_bindings(plan: FilterPlan, i: int)
    requires
        0 <= i < plan_samplers(plan).len(),
    ensures
        ({
            let sampler = FilterBinding::Sampler {
                filtering: plan_samplers(plan)[i].spec_descriptor().linear,
            };
            match plan {
                FilterPlan::ColorMatrix(_) => color_matrix_bindings()[1] == sampler,
                FilterPlan::Blur(_) => blur_bindings()[1] == sampler,
                FilterPlan::Glow(_) => glow_bindings()[1] == sampler,
                FilterPlan::Bevel(_) => bevel_bindings()[1] == sampler,
                FilterPlan::DisplacementMap(_) => displacement_map_bindings()[2 + i] == sampler,
            }
        }),
{
}

/// The bytes of the uniform block of a color matrix: twenty numbers.
pub const COLOR_MATRIX_UNIFORM_SIZE: u64 = 80;

/// What the color matrix shader finds at its bindings: the source, a sampler and the
/// uniform block.
pub open spec fn color_matrix_bindings() -> Seq<FilterBinding> {
    seq![
        FilterBinding::Texture { filterable: false },
        FilterBinding::Sampler { filtering: false },
        FilterBinding::Uniform { min_size: COLOR_MATRIX_UNIFORM_SIZE, for_vertices: false },
    ]
}

/// The pipeline that applies color matrices.
pub fn color_matrix_pipeline() -> (r: FilterPipeline)
    ensures
        r.bindings@ == color_matrix_bindings(),
        r.vertex_pairs == 2,
{
    let bindings = vec![
        FilterBinding::Texture { filterable: false },
        FilterBinding::Sampler { filtering: false },
        FilterBinding::Uniform { min_size: COLOR_MATRIX_UNIFORM_SIZE, for_vertices: false },
    ];
    assert(bindings@ == color_matrix_bindings());
    FilterPipeline { bindings, vertex_pairs: 2 }
}

/// The pipeline of a filter: what it finds at its bindings, which are numbered from
/// zero, and how many pairs of numbers each of its vertices holds.
#[derive(Debug)]
pub struct FilterPipeline {
    pub bindings: Vec<FilterBinding>,
    pub vertex_pairs: u32,
}

/// The bytes of a pair of single precision numbers.
pub const PAIR_SIZE: u64 = 8;

impl FilterPipeline {
    /// The bytes from one vertex to the next.
    pub fn vertex_stride(&self) -> (r: u64)
        ensures
            r == PAIR_SIZE * self.vertex_pairs,
    {
        PAIR_SIZE * self.vertex_pairs as u64
    }

    /// Where a pair of numbers starts in a vertex.
    pub fn pair_offset(&self, pair: u32) -> (r: u64)
        requires
            pair < self.vertex_pairs,
        ensures
            r == PAIR_SIZE * pair,
            r + PAIR_SIZE <= PAIR_SIZE * self.vertex_pairs,
    {
        PAIR_SIZE * pair as u64
    }
}

// ---- What plans ask for ----

/// Whether passes, where there are any, are those of a blur with box sizes and a number of
/// rounds.
pub open spec fn blurs_by(
    passes: Option<Vec<BlurPass>>,
    blur_x: i32,
    blur_y: i32,
    rounds: int,
    source: FilterSource,
) -> bool {
    let expected = blur_passes(
        BlurFilter { blur_x, blur_y, flags: (8 * rounds) as u8 },
        source.texture,
        output_size(source.size),
    );
    match passes {
        Some(passes) => passes@.len() > 0 && passes@ == expected,
        None => expected.len() == 0,
    }
}

/// Whether a quotient is a number in 8.8 fixed point.
pub open spec fn is_fixed8(r: Ratio, bits: i16) -> bool {
    r.den > 0 && 256 * r.num == bits * r.den
}

/// Whether a channel is one of a color, multiplied by its alpha, between zero and one.
pub open spec fn is_premultiplied_channel(r: Ratio, channel: u8, alpha: u8) -> bool {
    r.den > 0 && 65025 * r.num == channel * alpha * r.den
}

/// Whether a color is another, premultiplied, with channels between zero and one.
pub open spec fn is_premultiplied(p: PremultipliedColor, color: Color) -> bool {
    &&& is_premultiplied_channel(p.r, color.r, color.a)
    &&& is_premultiplied_channel(p.g, color.g, color.a)
    &&& is_premultiplied_channel(p.b, color.b, color.a)
    &&& p.a.den > 0 && 255 * p.a.num == color.a * p.a.den
}

/// Whether a glow is drawn in a color and strength, as its flags say: inner (128), without
/// the source (64), together with it (32), with the blurred source shifted.
pub open spec fn glows(
    p: GlowPlan,
    color: Color,
    strength: i16,
    flags: u8,
    offset: BlurOffset,
) -> bool {
    &&& p.uniform.color == color
    &&& is_fixed8(p.uniform.strength, strength)
    &&& p.uniform.inner == (flags as int / 128) % 2
    &&& p.uniform.knockout == (flags as int / 64) % 2
    &&& p.uniform.composite_source == (flags as int / 32) % 2
    &&& p.blur_offset.angle == offset.angle && p.blur_offset.distance == offset.distance
        && p.blur_offset.negated == offset.negated
}

/// A glow blurs the source with its own box sizes, as many rounds as the lower five bits of its
/// flags say, and is drawn in its own color and strength, where the blurred source is. A drop
/// shadow does the same, but looks the blurred source up against its own distance and angle,
/// so that the shadow falls along them.
pub proof fn glows_and_shadows_ask_for_their_own(plan: FilterPlan, source: FilterSource)
    ensures
        forall|glow: GlowFilter| #[trigger]
            is_plan(plan, Filter::GlowFilter(glow), source) ==> (plan matches FilterPlan::Glow(p)
                && glows(
                p,
                glow.color,
                glow.strength,
                glow.flags,
                BlurOffset { angle: 0, distance: 0, negated: false },
            ) && blurs_by(
                p.blur,
                glow.blur_x,
                glow.blur_y,
                glow.flags as int % 32,
                source,
            )),
        forall|shadow: DropShadowFilter| #[trigger]
            is_plan(plan, Filter::DropShadowFilter(shadow), source) ==> (
            plan matches FilterPlan::Glow(p) && glows(
                p,
                shadow.color,
                shadow.strength,
                shadow.flags,
                BlurOffset { angle: shadow.angle, distance: shadow.distance, negated: true },
            ) && blurs_by(
                p.blur,
                shadow.blur_x,
                shadow.blur_y,
                shadow.flags as int % 32,
                source,
            )),
{
}

/// A bevel blurs the source with its own box sizes, as many rounds as the lower four bits of its
/// flags say, and is drawn in its own two colors, premultiplied, and its own strength, with the
/// blurred source looked up along its own distance and angle. It covers both sides where bit 4
/// of its flags is set, else the inside where bit 7 is, else the outside; it leaves the source
/// out where bit 6 is.
pub proof fn bevels_ask_for_their_own(plan: FilterPlan, bevel: BevelFilter, source: FilterSource)
    requires
        is_plan(plan, Filter::BevelFilter(bevel), source),
    ensures
        plan matches FilterPlan::Bevel(p) && {
            let flags = bevel.flags as int;
            &&& blurs_by(p.blur, bevel.blur_x, bevel.blur_y, flags % 16, source)
            &&& is_premultiplied(p.uniform.highlight_color, bevel.highlight_color)
            &&& is_premultiplied(p.uniform.shadow_color, bevel.shadow_color)
            &&& is_fixed8(p.uniform.strength, bevel.strength)
            &&& p.uniform.bevel_type == if (flags / 16) % 2 == 1 {
                2int
            } else if (flags / 128) % 2 == 1 {
                1
            } else {
                0
            }
            &&& p.uniform.knockout == (flags / 64) % 2
            &&& p.uniform.composite_source == 1
            &&& p.blur_offset.angle == bevel.angle && p.blur_offset.distance == bevel.distance
            &&& !p.blur_offset.negated
        },
{
    lemma_channels(bevel.highlight_color);
    lemma_channels(bevel.shadow_color);
}

proof fn lemma_channels(color: Color)
    ensures
        0 <= color.r * color.a <= 65025,
        0 <= color.g * color.a <= 65025,
        0 <= color.b * color.a <= 65025,
{
    lemma_channel_product(color.r as int, color.a as int);
    lemma_channel_product(color.g as int, color.a as int);
    lemma_channel_product(color.b as int, color.a as int);
}

proof fn lemma_channel_product(c: int, a: int)
    requires
        0 <= c <= 255,
        0 <= a <= 255,
    ensures
        0 <= c * a <= 65025,
{
    assert(0 <= c * a <= 65025) by (nonlinear_arith)
        requires
            0 <= c <= 255,
            0 <= a <= 255,
    ;
}

/// A displacement passes on its own color, components, scales, offset and view scale, each along
/// its own axis, and the sizes of the source and of its map. What lies beyond the edges is
/// numbered: wrapped 0, clamped 1, ignored 2, colored 3.
pub proof fn displacements_ask_for_their_own(
    plan: FilterPlan,
    filter: DisplacementMapFilter,
    source: FilterSource,
)
    requires
        is_plan(plan, Filter::DisplacementMapFilter(filter), source),
    ensures
        filter.map_bitmap matches Some(map) ==> (plan matches FilterPlan::DisplacementMap(u) && {
            &&& u.color == filter.color
            &&& u.components as int / 256 == filter.component_x
            &&& u.components as int % 256 == filter.component_y
            &&& u.mode == 0 <==> filter.mode is Wrap
            &&& u.mode == 1 <==> filter.mode is Clamp
            &&& u.mode == 2 <==> filter.mode is Ignore
            &&& u.mode == 3 <==> filter.mode is Color
            &&& u.scale_x == filter.scale_x && u.scale_y == filter.scale_y
            &&& u.viewscale_x == filter.viewscale_x && u.viewscale_y == filter.viewscale_y
            &&& u.offset_x == filter.map_x && u.offset_y == filter.map_y
            &&& u.source.width == source.texture.width && u.source.height == source.texture.height
            &&& u.map.width == map.width && u.map.height == map.height
        }),
        filter.map_bitmap is None ==> copies(plan),
{
    if filter.map_bitmap is None {
        lemma_identity_copies(plan);
    }
}

/// One in IEEE-754 single precision on the diagonal of a color matrix, and zero elsewhere.
pub open spec fn copies(plan: FilterPlan) -> bool {
    plan matches FilterPlan::ColorMatrix(m) && forall|row: int, column: int|
        0 <= row < 4 && 0 <= column < 5 ==> #[trigger] matrix_entry(m, row, column) == if row
            == column {
            0x3f80_0000u32
        } else {
            0
        }
}

/// An entry of a color matrix: four rows of five.
pub open spec fn matrix_entry(m: ColorMatrix, row: int, column: int) -> u32 {
    m@[5 * row + column]
}

proof fn lemma_identity_copies(plan: FilterPlan)
    requires
        only_copies(plan),
    ensures
        copies(plan),
{
    if let FilterPlan::ColorMatrix(m) = plan {
        assert forall|row: int, column: int| 0 <= row < 4 && 0 <= column < 5 implies
            #[trigger] matrix_entry(m, row, column) == if row == column {
            0x3f80_0000u32
        } else {
            0
        } by {
            assert(row == 0 || row == 1 || row == 2 || row == 3);
            assert(column == 0 || column == 1 || column == 2 || column == 3 || column == 4);
        }
    }
}

/// A color matrix is applied as it is. A blur takes its own passes, and only copies where it
/// changes nothing. Filters that are not supported only copy.
pub proof fn other_filters_ask_for_their_own(plan: FilterPlan, source: FilterSource)
    ensures
        forall|m: ColorMatrix| #[trigger]
            is_plan(plan, Filter::ColorMatrixFilter(m), source) ==> plan
                == FilterPlan::ColorMatrix(m),
        forall|blur: BlurFilter| #[trigger]
            is_plan(plan, Filter::BlurFilter(blur), source) ==> {
                let passes = blur_passes(blur, source.texture, output_size(source.size));
                if passes.len() > 0 {
                    plan matches FilterPlan::Blur(p) && p@ == passes
                } else {
                    copies(plan)
                }
            },
        is_plan(plan, Filter::GradientGlowFilter, source) ==> copies(plan),
        is_plan(plan, Filter::GradientBevelFilter, source) ==> copies(plan),
        is_plan(plan, Filter::ConvolutionFilter, source) ==> copies(plan),
        is_plan(plan, Filter::ShaderFilter, source) ==> copies(plan),
{
    if only_copies(plan) {
        lemma_identity_copies(plan);
    }
}

/// Each unsupported filter has a warning of its own: it is noted, and the others stay as they
/// were. Supported filters are never noted.
pub proof fn warnings_are_kept_apart(warned: WarnedFilters, filter: Filter)
    ensures
        ({
            let after = warned_after(warned, filter);
            &&& after.gradient_glow == (warned.gradient_glow || filter is GradientGlowFilter)
            &&& after.gradient_bevel == (warned.gradient_bevel || filter is GradientBevelFilter)
            &&& after.convolution == (warned.convolution || filter is ConvolutionFilter)
            &&& after.shader == (warned.shader || filter is ShaderFilter)
            &&& is_supported(filter) <==> !(filter is GradientGlowFilter || filter is
                GradientBevelFilter || filter is ConvolutionFilter || filter is ShaderFilter)
        }),
{
}

/// A filter reads its region from edge to edge: the corners of its quad go around the unit
/// square, and each reads the corner of the region on its side, out of the size of the texture,
/// in the source and in a shifted copy alike.
pub proof fn regions_are_read_from_edge_to_edge(source: FilterSource, i: int, against: bool)
    requires
        source.wf(),
        0 <= i < 4,
    ensures
        ({
            let c = source.corner(i);
            let s = source.shifted_corner(i, against);
            let right = i == 1 || i == 2;
            let bottom = i == 2 || i == 3;
            let x = if right {
                source.x + source.size.width
            } else {
                source.x as int
            };
            let y = if bottom {
                source.y + source.size.height
            } else {
                source.y as int
            };
            &&& c.x == if right {
                1int
            } else {
                0
            }
            &&& c.y == if bottom {
                1int
            } else {
                0
            }
            &&& c.u.num == x && c.u.den == source.texture.width
            &&& c.v.num == y && c.v.den == source.texture.height
            &&& s.x == x && s.y == y && s.against == against && s.texture == source.texture
        }),
{
}

/// What a filter draws to is as large as its region, but never empty.
pub proof fn outputs_are_never_empty(size: Size)
    ensures
        output_size(size).width >= 1 && output_size(size).height >= 1,
        size.width >= 1 ==> output_size(size).width == size.width,
        size.height >= 1 ==> output_size(size).height == size.height,
        size.width == 0 ==> output_size(size).width == 1,
        size.height == 0 ==> output_size(size).height == 1,
{
}

/// Each filter's shader finds what it reads: a blur one texture that it filters and a uniform
/// block that its vertices read too; a color matrix one texture, a glow and a bevel two, which
/// they read texel by texel; and a displacement its source and its map, filtered, with two
/// samplers. Uniform blocks have room for their numbers.
pub proof fn filter_bindings_are_what_shaders_read()
    ensures
        blur_bindings().len() == 3 && color_matrix_bindings().len() == 3,
        glow_bindings().len() == 4 && bevel_bindings().len() == 4,
        displacement_map_bindings().len() == 5,
        blur_bindings()[0] == (FilterBinding::Texture { filterable: true }),
        blur_bindings()[1] == (FilterBinding::Sampler { filtering: true }),
        blur_bindings()[2] == (FilterBinding::Uniform { min_size: 32, for_vertices: true }),
        color_matrix_bindings()[0] == (FilterBinding::Texture { filterable: false }),
        color_matrix_bindings()[1] == (FilterBinding::Sampler { filtering: false }),
        color_matrix_bindings()[2] == (FilterBinding::Uniform {
            min_size: 80,
            for_vertices: false,
        }),
        forall|i: int|
            i == 0 || i == 3 ==> #[trigger] glow_bindings()[i] == (FilterBinding::Texture {
                filterable: false,
            }),
        forall|i: int|
            i == 0 || i == 3 ==> #[trigger] bevel_bindings()[i] == (FilterBinding::Texture {
                filterable: false,
            }),
        glow_bindings()[1] == (FilterBinding::Sampler { filtering: false }),
        bevel_bindings()[1] == (FilterBinding::Sampler { filtering: false }),
        glow_bindings()[2] == (FilterBinding::Uniform { min_size: 32, for_vertices: false }),
        bevel_bindings()[2] == (FilterBinding::Uniform { min_size: 48, for_vertices: false }),
        displacement_map_bindings()[0] == (FilterBinding::Texture { filterable: true }),
        displacement_map_bindings()[1] == (FilterBinding::Texture { filterable: true }),
        displacement_map_bindings()[2] == (FilterBinding::Sampler { filtering: true }),
        displacement_map_bindings()[3] == (FilterBinding::Sampler { filtering: false }),
        displacement_map_bindings()[4] == (FilterBinding::Uniform {
            min_size: 64,
            for_vertices: false,
        }),
{
}

/// Filters read with the samplers that they need: a blur interpolates between texels, a
/// displacement wraps around its source and reads its map texel by texel, and the others read
/// texel by texel; only what wraps around repeats.
pub proof fn filters_read_as_they_need(plan: FilterPlan)
    ensures
        ({
            let s = plan_samplers(plan);
            let first = s[0].spec_descriptor();
            &&& s.len() == if plan is DisplacementMap {
                2int
            } else {
                1
            }
            &&& first.linear <==> plan is Blur || plan is DisplacementMap
            &&& first.repeat <==> plan is DisplacementMap
            &&& plan is DisplacementMap ==> !s[1].spec_descriptor().linear
                && !s[1].spec_descriptor().repeat
        }),
{
}

} // verus!
