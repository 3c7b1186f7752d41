//! Vertex formats and the uniform blocks that go with them.
use crate::geometry::{Color, Point, Ratio};
use vstd::prelude::*;

verus! {

/// Mask states for stencil-based masking.
#[derive(Clone, Copy, PartialEq, Eq, Structural, Debug)]
pub enum MaskState {
    NoMask,
    DrawMaskStencil,
    DrawMaskedContent,
    ClearMaskStencil,
}

/// A direction in object space, in units of 1/8192 twip. Only where it points
/// matters, not its length.
#[derive(Clone, Copy, PartialEq, Eq, Structural, Debug)]
pub struct Direction {
    pub dx: i64,
    pub dy: i64,
}

/// One of the two sides of a stroke.
#[derive(Clone, Copy, PartialEq, Eq, Structural, Debug)]
pub enum Side {
    /// Towards the normal: the direction turned by a quarter from x to y.
    Plus,
    /// Away from the normal.
    Minus,
}

/// How far a vertex lies from its point. Lengths are multiples of the stroke's
/// half-width.
#[derive(Clone, Copy, PartialEq, Eq, Structural, Debug)]
pub enum Offset {
    /// At the point.
    Zero,
    /// One half-width to a side of a segment that runs in `direction`.
    Normal { direction: Direction, side: Side },
    /// As `Normal`, and one half-width further along the direction (`forward`)
    /// or against it.
    Corner { direction: Direction, side: Side, forward: bool },
    /// One half-width away, turned from the normal of `direction` by `step`
    /// eighths of a half turn towards the outside of the cap: along the direction
    /// (`forward`) or against it. See [`cap_arc_turn`].
    CapArc { direction: Direction, forward: bool, step: u32 },
    /// Where the outer edges of two segments meet.
    Miter { incoming: Direction, outgoing: Direction, side: Side },
    /// One half-width away, turned by `step / steps` of the way from the normal
    /// of `incoming` on `side` to that of `outgoing`, the shorter way round. See
    /// [`normal_turn`].
    JoinArc { incoming: Direction, outgoing: Direction, side: Side, step: u32, steps: u32 },
}

/// The normal of a direction on one of its sides, as long as the direction.
pub open spec fn side_normal(d: Direction, side: Side) -> (int, int) {
    match side {
        Side::Plus => (-d.dy as int, d.dx as int),
        Side::Minus => (d.dy as int, -d.dx as int),
    }
}

/// Where a cap points that lies along a direction (`forward`) or against it.
pub open spec fn outward(d: Direction, forward: bool) -> (int, int) {
    if forward {
        (d.dx as int, d.dy as int)
    } else {
        (-d.dx as int, -d.dy as int)
    }
}

/// A direction turned by quarters of a whole turn, from x towards y.
pub open spec fn quarter_turned(d: Direction, quarters: int) -> (int, int) {
    if quarters % 4 == 0 {
        (d.dx as int, d.dy as int)
    } else if quarters % 4 == 1 {
        (-d.dy as int, d.dx as int)
    } else if quarters % 4 == 2 {
        (-d.dx as int, -d.dy as int)
    } else {
        (d.dy as int, -d.dx as int)
    }
}

/// How far the normal on a side is turned from the direction, in eighths of a half turn,
/// from x towards y.
pub open spec fn side_turn(side: Side) -> int {
    match side {
        Side::Plus => 4,
        Side::Minus => -4,
    }
}

/// How far the normal on a side is turned from the direction, in eighths of a half turn,
/// from x towards y.
pub fn normal_turn(side: Side) -> (r: i64)
    ensures
        r == side_turn(side),
{
    match side {
        Side::Plus => 4,
        Side::Minus => -4,
    }
}

/// The normal on a side is the direction turned by a quarter to that side, at a right
/// angle to it.
pub proof fn normals_are_quarter_turns(d: Direction, side: Side)
    ensures
        side_turn(side) % 4 == 0,
        quarter_turned(d, side_turn(side) / 4) == side_normal(d, side),
        side_normal(d, side).0 * d.dx + side_normal(d, side).1 * d.dy == 0,
{
    let (x, y) = (d.dx as int, d.dy as int);
    assert((-y) * x + x * y == 0) by (nonlinear_arith);
    assert(y * x + (-x) * y == 0) by (nonlinear_arith);
}

/// How far a step of a cap's arc is turned from the direction of the segment, in
/// eighths of a half turn, from x towards y.
pub open spec fn arc_turn(forward: bool, step: int) -> int {
    if forward {
        4 - step
    } else {
        4 + step
    }
}

/// How far a step of a cap's arc is turned from the direction of the segment, in
/// eighths of a half turn, from x towards y.
pub fn cap_arc_turn(forward: bool, step: u32) -> (r: i64)
    ensures
        r == arc_turn(forward, step as int),
{
    if forward {
        4 - step as i64
    } else {
        4 + step as i64
    }
}

/// A round cap bulges outward: its arc runs from the normal on the plus side to that
/// on the minus side, never leaves the outward direction by more than a quarter turn,
/// and points outward in its middle.
pub proof fn round_caps_bulge_outward(d: Direction, forward: bool, step: int)
    requires
        0 <= step <= 8,
    ensures
        offset_vector(Offset::CapArc { direction: d, forward, step: 0 }) == Some(
            side_normal(d, Side::Plus),
        ),
        offset_vector(Offset::CapArc { direction: d, forward, step: 4 }) == Some(
            outward(d, forward),
        ),
        offset_vector(Offset::CapArc { direction: d, forward, step: 8 }) == Some(
            side_normal(d, Side::Minus),
        ),
        -4 <= arc_turn(forward, step) - arc_turn(forward, 4) <= 4,
{
}

/// The vector of an offset, where it can be written in whole numbers: a half-width is
/// as long as the direction.
pub open spec fn offset_vector(offset: Offset) -> Option<(int, int)> {
    match offset {
        Offset::Zero => Some((0, 0)),
        Offset::Normal { direction, side } => Some(side_normal(direction, side)),
        Offset::Corner { direction, side, forward } => {
            let (n, o) = (side_normal(direction, side), outward(direction, forward));
            Some((n.0 + o.0, n.1 + o.1))
        },
        Offset::CapArc { direction, forward, step } => {
            let turn = arc_turn(forward, step as int);
            if turn % 4 == 0 {
                Some(quarter_turned(direction, turn / 4))
            } else {
                None
            }
        },
        Offset::JoinArc { incoming, outgoing, side, step, steps } => if step == 0 {
            Some(side_normal(incoming, side))
        } else if step == steps {
            Some(side_normal(outgoing, side))
        } else {
            None
        },
        Offset::Miter { .. } => None,
    }
}

/// A square cap extends the stroke by one half-width outward: each of its outer corners
/// lies one half-width further out than the corner of the stroke on its side, and the
/// way there is at a right angle to the normal and as long as it.
pub proof fn square_caps_extend_outward(d: Direction, side: Side, forward: bool)
    ensures
        offset_vector(Offset::Corner { direction: d, side, forward }) matches Some(corner)
            && offset_vector(Offset::Normal { direction: d, side }) matches Some(normal) && ({
            let (x, y) = (corner.0 - normal.0, corner.1 - normal.1);
            &&& (x, y) == outward(d, forward)
            &&& x * normal.0 + y * normal.1 == 0
            &&& x * x + y * y == normal.0 * normal.0 + normal.1 * normal.1
        }),
{
    let (x, y) = (d.dx as int, d.dy as int);
    assert(x * (-y) + y * x == 0 && x * y + y * (-x) == 0) by (nonlinear_arith);
    assert((-x) * (-y) + (-y) * x == 0 && (-x) * y + (-y) * (-x) == 0) by (nonlinear_arith);
    assert((-x) * (-x) == x * x && (-y) * (-y) == y * y) by (nonlinear_arith);
}

/// Where a vertex lies.
#[derive(Clone, Copy, PartialEq, Eq, Structural, Debug)]
pub struct Position {
    pub point: Point,
    pub offset: Offset,
}

/// Loop-Blinn texture coordinates, in halves.
#[derive(Clone, Copy, PartialEq, Eq, Structural, Debug)]
pub struct Uv {
    pub u_halves: u8,
    pub v_halves: u8,
}

/// Vertex format for gradient/bitmap Bézier fills.
/// Same as BezierVertex but without per-vertex color (color comes from texture).
#[derive(Clone, Copy, PartialEq, Eq, Structural, Debug)]
pub struct BezierTexVertex {
    pub position: Position,
    /// Loop-Blinn texture coordinates.
    pub uv: Uv,
    /// Fill type flag: 0 = interior, 1 = curve edge.
    pub fill_type: i32,
}

/// Vertex format for the Bézier fill pipeline.
#[derive(Clone, Copy, PartialEq, Eq, Structural, Debug)]
pub struct BezierVertex {
    pub position: Position,
    /// Loop-Blinn texture coordinates:
    /// - For interior triangles: zero.
    /// - For curve triangles: (u, v) as described in the Loop-Blinn technique.
    pub uv: Uv,
    /// Fill type flag:
    /// - 0 = interior triangle (always filled)
    /// - 1 = curve edge triangle (apply u² - v test)
    pub fill_type: i32,
    /// Per-vertex RGBA color, not premultiplied.
    pub color: Color,
}

impl BezierTexVertex {
    /// The same vertex with a color of its own.
    pub open spec fn spec_with_color(self, color: Color) -> BezierVertex {
        BezierVertex { position: self.position, uv: self.uv, fill_type: self.fill_type, color }
    }

    /// The same vertex with a color of its own.
    pub fn with_color(self, color: Color) -> (r: BezierVertex)
        ensures
            r == self.spec_with_color(color),
    {
        BezierVertex { position: self.position, uv: self.uv, fill_type: self.fill_type, color }
    }
}

/// Per-draw analytic path parameters for winding-correct fills and direct
/// quadratic stroke rasterization.
#[derive(Clone, Copy, PartialEq, Eq, Structural, Debug)]
pub struct AnalyticParams {
    pub bounds: Bounds,
    /// Segment count in the storage buffer.
    pub num_segments: u32,
    /// 0 = fill, 1 = stroke.
    pub mode: u32,
    /// 0 = even-odd, 1 = non-zero.
    pub fill_rule: u32,
    /// Stroke half-width, in units of 1/8192 twip.
    pub half_width: i64,
    /// Packed cap/join flags for future expansion.
    pub cap_join_flags: u32,
}

/// An axis-aligned box, in units of 1/8192 twip.
#[derive(Clone, Copy, PartialEq, Eq, Structural, Debug)]
pub struct Bounds {
    pub min_x: i64,
    pub min_y: i64,
    pub max_x: i64,
    pub max_y: i64,
}

/// Gradient uniform data uploaded per gradient draw.
#[derive(Clone, Copy, PartialEq, Eq, Structural, Debug)]
pub struct GradientUniforms {
    pub focal_point: Ratio,
    pub interpolation: i32,
    pub shape: i32,
    pub repeat: i32,
}

/// An exact 4x4 matrix, by columns.
pub type Matrix4 = [[Ratio; 4]; 4];

/// Texture coordinate transform for gradient/bitmap fills.
#[derive(Clone, Copy, Debug)]
pub struct TextureTransforms {
    pub u_matrix: Matrix4,
}

/// Global view matrix uniform.
#[derive(Clone, Copy, Debug)]
pub struct GlobalsUniform {
    pub view_matrix: Matrix4,
}

/// A vertex keeps where it lies, its texture coordinates and its fill type when it is given a
/// color, and has that color in all four channels.
pub proof fn colored_vertices_keep_the_rest(v: BezierTexVertex, color: Color)
    ensures
        ({
            let c = v.spec_with_color(color);
            &&& c.position.point == v.position.point && c.position.offset == v.position.offset
            &&& c.uv.u_halves == v.uv.u_halves && c.uv.v_halves == v.uv.v_halves
            &&& c.fill_type == v.fill_type
            &&& c.color.r == color.r && c.color.g == color.g && c.color.b == color.b && c.color.a
                == color.a
        }),
{
}

} // verus!
