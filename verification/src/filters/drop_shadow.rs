//! Drop shadow filter.
//! Drop shadow is just Glow with an offset.
use crate::filters::glow::GlowFilter;
use crate::filters::{shadow_glow, BlurOffset};
use crate::geometry::Color;
use vstd::prelude::*;

verus! {

/// A drop shadow filter. Sizes, angle (in radians) and distance are in 16.16 fixed
/// point, the strength in 8.8.
#[derive(Clone, Copy, PartialEq, Eq, Structural, Debug)]
pub struct DropShadowFilter {
    pub color: Color,
    pub blur_x: i32,
    pub blur_y: i32,
    pub angle: i32,
    pub distance: i32,
    pub strength: i16,
    /// Inner, knockout and composite-source flags, and the number of passes in the
    /// lower five bits.
    pub flags: u8,
}

/// The glow of a drop shadow without its offset:
/// `swf::DropShadowFilter::inner_glow_filter`. It keeps color, sizes and strength,
/// and sets the glow's flags one by one from the shadow's; both have the same
/// flags at the same bits, so they are kept as well. It does not look at the angle
/// and the distance of the shadow.
#[verifier::external_body]
fn swf_inner_glow_filter(c: Color, blur_x: i32, blur_y: i32, strength: i16, flags: u8) -> (r:
    GlowFilter)
    ensures
        r == (GlowFilter { color: c, blur_x, blur_y, strength, flags }),
{
    let args = swf::DropShadowFilter {
        color: swf::Color { r: c.r, g: c.g, b: c.b, a: c.a },
        blur_x: swf::Fixed16::from_bits(blur_x),
        blur_y: swf::Fixed16::from_bits(blur_y),
        angle: swf::Fixed16::ZERO,
        distance: swf::Fixed16::ZERO,
        strength: swf::Fixed8::from_bits(strength),
        flags: swf::DropShadowFilterFlags::from_bits_retain(flags),
    };
    let glow = args.inner_glow_filter();
    let color = Color { r: glow.color.r, g: glow.color.g, b: glow.color.b, a: glow.color.a };
    let (blur_x, blur_y) = (glow.blur_x.get(), glow.blur_y.get());
    GlowFilter { color, blur_x, blur_y, strength: glow.strength.get(), flags: glow.flags.bits() }
}

impl DropShadowFilter {
    /// The glow to draw, and where: against the shadow's direction, since the
    /// offset says where the glow is looked up.
    pub fn apply(&self) -> (r: (GlowFilter, BlurOffset))
        ensures
            r.0 == shadow_glow(*self),
            r.1 == (BlurOffset { angle: self.angle, distance: self.distance, negated: true }),
    {
        (
            swf_inner_glow_filter(
                self.color,
                self.blur_x,
                self.blur_y,
                self.strength,
                self.flags,
            ),
            BlurOffset { angle: self.angle, distance: self.distance, negated: true },
        )
    }
}

} // verus!
