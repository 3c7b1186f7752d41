//! Glow filter.
use crate::filters::blur::{blur_passes, BlurFilter, BlurPass};
use crate::filters::{BlurOffset, FilterBinding, FilterPipeline};
use crate::geometry::{Color, Ratio, Size};
use vstd::prelude::*;

verus! {

/// A glow filter. Sizes are in 16.16 fixed point, the strength in 8.8.
#[derive(Clone, Copy, PartialEq, Eq, Structural, Debug)]
pub struct GlowFilter {
    pub color: Color,
    pub blur_x: i32,
    pub blur_y: i32,
    pub strength: i16,
    /// Inner, knockout and composite-source flags, and the number of passes in the
    /// lower five bits.
    pub flags: u8,
}

/// What the glow shader needs to know.
#[derive(Clone, Copy, PartialEq, Eq, Structural, Debug)]
pub struct GlowUniform {
    /// Not premultiplied.
    pub color: Color,
    pub strength: Ratio,
    pub inner: u32,
    pub knockout: u32,
    pub composite_source: u32,
}

/// How a glow is drawn: over the blurred source, or over the source itself where
/// the blur changes nothing. The blurred copy is shifted.
#[derive(Debug)]
pub struct GlowPlan {
    pub blur: Option<Vec<BlurPass>>,
    pub uniform: GlowUniform,
    pub blur_offset: BlurOffset,
}

/// The blur of a glow: `swf::GlowFilter::inner_blur_filter`. It keeps the sizes and
/// moves the number of passes from the lower five bits of the glow's flags to where
/// a blur has it.
#[verifier::external_body]
fn swf_inner_blur_filter(blur_x: i32, blur_y: i32, flags: u8) -> (r: BlurFilter)
    ensures
        r.blur_x == blur_x,
        r.blur_y == blur_y,
        r.flags == (flags % 32) * 8,
{
    let filter = swf::GlowFilter {
        color: swf::Color::TRANSPARENT,
        blur_x: swf::Fixed16::from_bits(blur_x),
        blur_y: swf::Fixed16::from_bits(blur_y),
        strength: swf::Fixed8::ZERO,
        flags: swf::GlowFilterFlags::from_bits_retain(flags),
    };
    let blur = filter.inner_blur_filter();
    let (blur_x, blur_y) = (blur.blur_x.get(), blur.blur_y.get());
    BlurFilter { blur_x, blur_y, flags: blur.flags.bits() }
}

/// Whether a glow covers the inside: `swf::GlowFilter::is_inner`, which tests bit 7
/// of the flags.
#[verifier::external_body]
fn swf_is_inner(flags: u8) -> (r: bool)
    ensures
        r == (flags / 128 == 1),
{
    let filter = swf::GlowFilter {
        color: swf::Color::TRANSPARENT,
        blur_x: swf::Fixed16::ZERO,
        blur_y: swf::Fixed16::ZERO,
        strength: swf::Fixed8::ZERO,
        flags: swf::GlowFilterFlags::from_bits_retain(flags),
    };
    filter.is_inner()
}

/// Whether a glow leaves out the source: `swf::GlowFilter::is_knockout`, which tests
/// bit 6 of the flags.
#[verifier::external_body]
fn swf_is_knockout(flags: u8) -> (r: bool)
    ensures
        r == (flags / 64 % 2 == 1),
{
    let filter = swf::GlowFilter {
        color: swf::Color::TRANSPARENT,
        blur_x: swf::Fixed16::ZERO,
        blur_y: swf::Fixed16::ZERO,
        strength: swf::Fixed8::ZERO,
        flags: swf::GlowFilterFlags::from_bits_retain(flags),
    };
    filter.is_knockout()
}

/// Whether a glow is drawn together with the source:
/// `swf::GlowFilter::composite_source`, which tests bit 5 of the flags.
#[verifier::external_body]
fn swf_composite_source(flags: u8) -> (r: bool)
    ensures
        r == (flags / 32 % 2 == 1),
{
    let filter = swf::GlowFilter {
        color: swf::Color::TRANSPARENT,
        blur_x: swf::Fixed16::ZERO,
        blur_y: swf::Fixed16::ZERO,
        strength: swf::Fixed8::ZERO,
        flags: swf::GlowFilterFlags::from_bits_retain(flags),
    };
    filter.composite_source()
}

/// The blur of a glow.
pub open spec fn inner_blur(filter: GlowFilter) -> BlurFilter {
    BlurFilter {
        blur_x: filter.blur_x,
        blur_y: filter.blur_y,
        flags: ((filter.flags % 32) * 8) as u8,
    }
}

/// What the shader needs to know of a glow.
pub open spec fn glow_uniform(filter: GlowFilter) -> GlowUniform {
    GlowUniform {
        color: filter.color,
        strength: Ratio { num: filter.strength as i128, den: 256 },
        inner: if filter.flags / 128 == 1 {
            1
        } else {
            0
        },
        knockout: if filter.flags / 64 % 2 == 1 {
            1
        } else {
            0
        },
        composite_source: if filter.flags / 32 % 2 == 1 {
            1
        } else {
            0
        },
    }
}

/// Whether a plan is the one for a glow with a shifted blurred copy, on a texture of
/// a given size into one of another.
pub open spec fn is_glow_plan(
    plan: GlowPlan,
    filter: GlowFilter,
    blur_offset: BlurOffset,
    texture: Size,
    output: Size,
) -> bool {
    &&& match plan.blur {
        Some(passes) => passes@.len() > 0 && passes@ == blur_passes(
            inner_blur(filter),
            texture,
            output,
        ),
        None => blur_passes(inner_blur(filter), texture, output).len() == 0,
    }
    &&& plan.uniform == glow_uniform(filter)
    &&& plan.blur_offset == blur_offset
}

/// The bytes of the uniform block of a glow: a color and four numbers.
pub const GLOW_UNIFORM_SIZE: u64 = 32;

/// What the glow shader finds at its bindings: the source, a sampler, the uniform
/// block and the blurred source.
pub open spec fn glow_bindings() -> Seq<FilterBinding> {
    seq![
        FilterBinding::Texture { filterable: false },
        FilterBinding::Sampler { filtering: false },
        FilterBinding::Uniform { min_size: GLOW_UNIFORM_SIZE, for_vertices: false },
        FilterBinding::Texture { filterable: false },
    ]
}

/// One for a flag that is set.
fn flag(set: bool) -> (r: u32)
    ensures
        r == if set {
            1u32
        } else {
            0
        },
{
    if set {
        1
    } else {
        0
    }
}

impl GlowFilter {
    /// The pipeline that draws glows.
    pub fn pipeline() -> (r: FilterPipeline)
        ensures
            r.bindings@ == glow_bindings(),
            r.vertex_pairs == 3,
    {
        let bindings = vec![
            FilterBinding::Texture { filterable: false },
            FilterBinding::Sampler { filtering: false },
            FilterBinding::Uniform { min_size: GLOW_UNIFORM_SIZE, for_vertices: false },
            FilterBinding::Texture { filterable: false },
        ];
        assert(bindings@ == glow_bindings());
        FilterPipeline { bindings, vertex_pairs: 3 }
    }

    /// How this filter is drawn with a shifted blurred copy, on a texture of a given
    /// size into one of another.
    pub fn apply(&self, blur_offset: BlurOffset, texture: Size, output: Size) -> (r: GlowPlan)
        ensures
            is_glow_plan(r, *self, blur_offset, texture, output),
    {
        let blur = swf_inner_blur_filter(self.blur_x, self.blur_y, self.flags);
        GlowPlan {
            blur: blur.apply(texture, output),
            uniform: GlowUniform {
                color: self.color,
                strength: Ratio { num: self.strength as i128, den: 256 },
                inner: flag(swf_is_inner(self.flags)),
                knockout: flag(swf_is_knockout(self.flags)),
                composite_source: flag(swf_composite_source(self.flags)),
            },
            blur_offset,
        }
    }
}

} // verus!
