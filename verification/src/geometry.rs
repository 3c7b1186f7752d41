//! Plain values shared by the whole renderer: colors, points and ratios.
use vstd::prelude::*;

verus! {

/// Sub-twip steps in one twip.
///
/// Curves are sampled at sixteenths of their parameter, so a point on a cubic
/// is a multiple of 1/4096 twip and the midpoint of two such points a multiple
/// of 1/8192 twip. At this resolution every coordinate is exact.
pub const SUBTWIPS: i64 = 8192;

/// Twips in one pixel.
pub const TWIPS_PER_PIXEL: i32 = 20;

/// Half a pixel, in twips.
pub const HALF_PX: i32 = 10;

/// An RGBA color with eight bits per channel, not premultiplied.
#[derive(Clone, Copy, PartialEq, Eq, Structural, Debug)]
pub struct Color {
    pub r: u8,
    pub g: u8,
    pub b: u8,
    pub a: u8,
}

/// A point in twips, as shapes and commands carry it.
#[derive(Clone, Copy, PartialEq, Eq, Structural, Debug)]
pub struct TwipsPoint {
    pub x: i32,
    pub y: i32,
}

/// An exact object-space point, in units of 1/[`SUBTWIPS`] twip.
#[derive(Clone, Copy, PartialEq, Eq, Structural, Debug)]
pub struct Point {
    pub x: i64,
    pub y: i64,
}

impl Point {
    /// The exact point at a twip position.
    pub open spec fn spec_from_twips(p: TwipsPoint) -> Point {
        Point { x: (p.x * SUBTWIPS) as i64, y: (p.y * SUBTWIPS) as i64 }
    }

    /// The exact point at a twip position.
    pub fn from_twips(p: TwipsPoint) -> (r: Point)
        ensures
            r == Point::spec_from_twips(p),
            r.x == p.x * SUBTWIPS,
            r.y == p.y * SUBTWIPS,
    {
        Point { x: p.x as i64 * SUBTWIPS, y: p.y as i64 * SUBTWIPS }
    }
}

/// The size of a texture or a region, in pixels.
#[derive(Clone, Copy, PartialEq, Eq, Structural, Debug)]
pub struct Size {
    pub width: u32,
    pub height: u32,
}

/// An exact quotient `num / den`.
///
/// A zero denominator is carried through unchanged: dividing is left to the
/// place where the number is rounded for the GPU.
#[derive(Clone, Copy, PartialEq, Eq, Structural, Debug)]
pub struct Ratio {
    pub num: i128,
    pub den: i128,
}

/// A twip has [`SUBTWIPS`] parts along each axis: no two positions in twips share a point,
/// and moving by a twip along one axis moves the point by that much along the same axis.
pub proof fn points_are_exact(p: TwipsPoint, q: TwipsPoint)
    ensures
        Point::spec_from_twips(q).x - Point::spec_from_twips(p).x == 8192 * (q.x - p.x),
        Point::spec_from_twips(q).y - Point::spec_from_twips(p).y == 8192 * (q.y - p.y),
        p.x == 0 && p.y == 0 ==> Point::spec_from_twips(p) == (Point { x: 0, y: 0 }),
{
}

} // verus!
