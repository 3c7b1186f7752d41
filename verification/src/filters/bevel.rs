//! Bevel filter.
use crate::filters::blur::{blur_passes, BlurFilter, BlurPass};
use crate::filters::{BlurOffset, FilterBinding, FilterPipeline};
use crate::geometry::{Color, Ratio, Size};
use vstd::prelude::*;

verus! {

/// A bevel filter. Sizes, angle (in radians) and distance are in 16.16 fixed
/// point, the strength in 8.8.
#[derive(Clone, Copy, PartialEq, Eq, Structural, Debug)]
pub struct BevelFilter {
    pub shadow_color: Color,
    pub highlight_color: Color,
    pub blur_x: i32,
    pub blur_y: i32,
    pub angle: i32,
    pub distance: i32,
    pub strength: i16,
    /// Inner, knockout, composite-source and on-top flags, and the number of
    /// passes in the lower four bits.
    pub flags: u8,
}

/// A color whose channels are multiplied by its alpha.
#[derive(Clone, Copy, PartialEq, Eq, Structural, Debug)]
pub struct PremultipliedColor {
    pub r: Ratio,
    pub g: Ratio,
    pub b: Ratio,
    pub a: Ratio,
}

/// What the bevel shader needs to know.
#[derive(Clone, Copy, PartialEq, Eq, Structural, Debug)]
pub struct BevelUniform {
    pub highlight_color: PremultipliedColor,
    pub shadow_color: PremultipliedColor,
    pub strength: Ratio,
    /// 0 outer, 1 inner, 2 full
    pub bevel_type: u32,
    pub knockout: u32,
    pub composite_source: u32,
}

/// How a bevel is drawn: over the blurred source, or over the source itself where
/// the blur changes nothing.
#[derive(Debug)]
pub struct BevelPlan {
    pub blur: Option<Vec<BlurPass>>,
    pub uniform: BevelUniform,
    pub blur_offset: BlurOffset,
}

/// The blur of a bevel: `swf::BevelFilter::inner_blur_filter`. It keeps the sizes
/// and moves the number of passes from the lower four bits of the bevel's flags to
/// where a blur has it.
#[verifier::external_body]
fn swf_inner_blur_filter(blur_x: i32, blur_y: i32, flags: u8) -> (r: BlurFilter)
    ensures
        r.blur_x == blur_x,
        r.blur_y == blur_y,
        r.flags == (flags % 16) * 8,
{
    let filter = swf::BevelFilter {
        shadow_color: swf::Color::TRANSPARENT,
        highlight_color: swf::Color::TRANSPARENT,
        blur_x: swf::Fixed16::from_bits(blur_x),
        blur_y: swf::Fixed16::from_bits(blur_y),
        angle: swf::Fixed16::ZERO,
        distance: swf::Fixed16::ZERO,
        strength: swf::Fixed8::ZERO,
        flags: swf::BevelFilterFlags::from_bits_retain(flags),
    };
    let blur = filter.inner_blur_filter();
    let (blur_x, blur_y) = (blur.blur_x.get(), blur.blur_y.get());
    BlurFilter { blur_x, blur_y, flags: blur.flags.bits() }
}

/// Whether a bevel covers the inside and the outside:
/// `swf::BevelFilter::is_on_top`, which tests bit 4 of the flags.
#[verifier::external_body]
fn swf_is_on_top(flags: u8) -> (r: bool)
    ensures
        r == (flags / 16 % 2 == 1),
{
    let filter = swf::BevelFilter {
        shadow_color: swf::Color::TRANSPARENT,
        highlight_color: swf::Color::TRANSPARENT,
        blur_x: swf::Fixed16::ZERO,
        blur_y: swf::Fixed16::ZERO,
        angle: swf::Fixed16::ZERO,
        distance: swf::Fixed16::ZERO,
        strength: swf::Fixed8::ZERO,
        flags: swf::BevelFilterFlags::from_bits_retain(flags),
    };
    filter.is_on_top()
}

/// Whether a bevel covers the inside: `swf::BevelFilter::is_inner`, which tests
/// bit 7 of the flags.
#[verifier::external_body]
fn swf_is_inner(flags: u8) -> (r: bool)
    ensures
        r == (flags / 128 == 1),
{
    let filter = swf::BevelFilter {
        shadow_color: swf::Color::TRANSPARENT,
        highlight_color: swf::Color::TRANSPARENT,
        blur_x: swf::Fixed16::ZERO,
        blur_y: swf::Fixed16::ZERO,
        angle: swf::Fixed16::ZERO,
        distance: swf::Fixed16::ZERO,
        strength: swf::Fixed8::ZERO,
        flags: swf::BevelFilterFlags::from_bits_retain(flags),
    };
    filter.is_inner()
}

/// Whether a bevel leaves out the source: `swf::BevelFilter::is_knockout`, which
/// tests bit 6 of the flags.
#[verifier::external_body]
fn swf_is_knockout(flags: u8) -> (r: bool)
    ensures
        r == (flags / 64 % 2 == 1),
{
    let filter = swf::BevelFilter {
        shadow_color: swf::Color::TRANSPARENT,
        highlight_color: swf::Color::TRANSPARENT,
        blur_x: swf::Fixed16::ZERO,
        blur_y: swf::Fixed16::ZERO,
        angle: swf::Fixed16::ZERO,
        distance: swf::Fixed16::ZERO,
        strength: swf::Fixed8::ZERO,
        flags: swf::BevelFilterFlags::from_bits_retain(flags),
    };
    filter.is_knockout()
}

/// The blur of a bevel.
pub open spec fn inner_blur(filter: BevelFilter) -> BlurFilter {
    BlurFilter {
        blur_x: filter.blur_x,
        blur_y: filter.blur_y,
        flags: ((filter.flags % 16) * 8) as u8,
    }
}

/// One channel times alpha.
pub open spec fn premultiplied_channel(channel: u8, alpha: u8) -> Ratio {
    Ratio { num: (channel * alpha) as i128, den: 65025 }
}

/// A color whose channels are multiplied by its alpha.
pub open spec fn premultiplied(color: Color) -> PremultipliedColor {
    PremultipliedColor {
        r: premultiplied_channel(color.r, color.a),
        g: premultiplied_channel(color.g, color.a),
        b: premultiplied_channel(color.b, color.a),
        a: Ratio { num: color.a as i128, den: 255 },
    }
}

/// Which part a bevel covers.
pub open spec fn bevel_type(flags: u8) -> u32 {
    if flags / 16 % 2 == 1 {
        2
    } else if flags / 128 == 1 {
        1
    } else {
        0
    }
}

/// One channel times alpha.
fn multiply_channel(channel: u8, alpha: u8) -> (r: Ratio)
    ensures
        r == premultiplied_channel(channel, alpha),
{
    proof {
        let (c, a) = (channel as int, alpha as int);
        assert(0 <= c * a <= 65025) by (nonlinear_arith)
            requires
                0 <= c <= 255,
                0 <= a <= 255,
        ;
    }
    Ratio { num: channel as i128 * alpha as i128, den: 65025 }
}

/// A color whose channels are multiplied by its alpha.
pub fn premultiply(color: Color) -> (r: PremultipliedColor)
    ensures
        r == premultiplied(color),
{
    PremultipliedColor {
        r: multiply_channel(color.r, color.a),
        g: multiply_channel(color.g, color.a),
        b: multiply_channel(color.b, color.a),
        a: Ratio { num: color.a as i128, den: 255 },
    }
}

/// The bytes of the uniform block of a bevel: two colors and four numbers.
pub const BEVEL_UNIFORM_SIZE: u64 = 48;

/// What the bevel shader finds at its bindings: the source, a sampler, the uniform
/// block and the blurred source.
pub open spec fn bevel_bindings() -> Seq<FilterBinding> {
    seq![
        FilterBinding::Texture { filterable: false },
        FilterBinding::Sampler { filtering: false },
        FilterBinding::Uniform { min_size: BEVEL_UNIFORM_SIZE, for_vertices: false },
        FilterBinding::Texture { filterable: false },
    ]
}

impl BevelFilter {
    /// The pipeline that draws bevels.
    pub fn pipeline() -> (r: FilterPipeline)
        ensures
            r.bindings@ == bevel_bindings(),
            r.vertex_pairs == 4,
    {
        let bindings = vec![
            FilterBinding::Texture { filterable: false },
            FilterBinding::Sampler { filtering: false },
            FilterBinding::Uniform { min_size: BEVEL_UNIFORM_SIZE, for_vertices: false },
            FilterBinding::Texture { filterable: false },
        ];
        assert(bindings@ == bevel_bindings());
        FilterPipeline { bindings, vertex_pairs: 4 }
    }

    /// How this filter is drawn, on a texture of a given size into one of another.
    pub fn apply(&self, texture: Size, output: Size) -> (r: BevelPlan)
        ensures
            match r.blur {
                Some(passes) => passes@.len() > 0 && passes@ == blur_passes(
                    inner_blur(*self),
                    texture,
                    output,
                ),
                None => blur_passes(inner_blur(*self), texture, output).len() == 0,
            },
            r.uniform == (BevelUniform {
                highlight_color: premultiplied(self.highlight_color),
                shadow_color: premultiplied(self.shadow_color),
                strength: Ratio { num: self.strength as i128, den: 256 },
                bevel_type: bevel_type(self.flags),
                knockout: if self.flags / 64 % 2 == 1 {
                    1
                } else {
                    0
                },
                composite_source: 1,
            }),
            r.blur_offset == (BlurOffset {
                angle: self.angle,
                distance: self.distance,
                negated: false,
            }),
    {
        let blur = swf_inner_blur_filter(self.blur_x, self.blur_y, self.flags);
        let uniform = BevelUniform {
            highlight_color: premultiply(self.highlight_color),
            shadow_color: premultiply(self.shadow_color),
            strength: Ratio { num: self.strength as i128, den: 256 },
            bevel_type: if swf_is_on_top(self.flags) {
                2
            } else if swf_is_inner(self.flags) {
                1
            } else {
                0
            },
            knockout: if swf_is_knockout(self.flags) {
                1
            } else {
                0
            },
            composite_source: 1,
        };
        BevelPlan {
            blur: blur.apply(texture, output),
            uniform,
            blur_offset: BlurOffset {
                angle: self.angle,
                distance: self.distance,
                negated: false,
            },
        }
    }
}

/// No channel of a premultiplied color is more than its alpha.
pub proof fn premultiplied_stays_below_alpha(color: Color)
    ensures
        premultiplied(color).r.num <= 255 * premultiplied(color).a.num,
        premultiplied(color).g.num <= 255 * premultiplied(color).a.num,
        premultiplied(color).b.num <= 255 * premultiplied(color).a.num,
{
    lemma_channel(color.r as int, color.a as int);
    lemma_channel(color.g as int, color.a as int);
    lemma_channel(color.b as int, color.a as int);
}

proof fn lemma_channel(c: int, a: int)
    requires
        0 <= c <= 255,
        0 <= a <= 255,
    ensures
        0 <= c * a <= 255 * a,
{
    assert(0 <= c * a <= 255 * a) by (nonlinear_arith)
        requires
            0 <= c <= 255,
            0 <= a,
    ;
}

} // verus!
