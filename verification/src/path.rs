//! Paths: what a shape's outline is made of, and the points of its curves.
use crate::geometry::{Point, TwipsPoint};
use vstd::prelude::*;

verus! {

/// Number of line segments that a curve is flattened to.
pub const CURVE_SUBDIVISIONS: u32 = 16;

/// One step along a path.
#[derive(Clone, Copy, PartialEq, Eq, Structural, Debug)]
pub enum DrawCommand {
    MoveTo(TwipsPoint),
    LineTo(TwipsPoint),
    QuadraticCurveTo { control: TwipsPoint, anchor: TwipsPoint },
    CubicCurveTo { control_a: TwipsPoint, control_b: TwipsPoint, anchor: TwipsPoint },
}

/// Which points a path encloses.
#[derive(Clone, Copy, PartialEq, Eq, Structural, Debug)]
pub enum FillRule {
    EvenOdd,
    NonZero,
}

impl DrawCommand {
    /// The point at which a step ends.
    pub open spec fn end(self) -> TwipsPoint {
        match self {
            DrawCommand::MoveTo(p) => p,
            DrawCommand::LineTo(p) => p,
            DrawCommand::QuadraticCurveTo { anchor, .. } => anchor,
            DrawCommand::CubicCurveTo { anchor, .. } => anchor,
        }
    }
}

/// Whether a point is one that a path can have: not too far out, and even, so that
/// midpoints are exact.
pub open spec fn path_point(p: Point) -> bool {
    &&& path_coord(p.x as int)
    &&& path_coord(p.y as int)
    &&& p.x % 2 == 0
    &&& p.y % 2 == 0
}

/// Whether a coordinate is one that a path can have.
pub open spec fn path_coord(v: int) -> bool {
    -0x10_0000_0000_0000 <= v <= 0x10_0000_0000_0000
}

/// One coordinate of a quadratic Bézier curve at `i` sixteenths of its parameter,
/// in units of 1/8192 twip.
pub open spec fn quadratic_coord(start: int, control: int, anchor: int, i: int) -> int {
    32 * ((16 - i) * (16 - i) * start + 2 * (16 - i) * i * control + i * i * anchor)
}

/// One coordinate of a cubic Bézier curve at `i` sixteenths of its parameter, in
/// units of 1/8192 twip.
pub open spec fn cubic_coord(start: int, control_a: int, control_b: int, anchor: int, i: int) -> int {
    2 * ((16 - i) * (16 - i) * (16 - i) * start + 3 * (16 - i) * (16 - i) * i * control_a + 3 * (16
        - i) * i * i * control_b + i * i * i * anchor)
}

/// The point of a quadratic Bézier curve at `i` sixteenths of its parameter.
pub open spec fn quadratic_at(
    start: TwipsPoint,
    control: TwipsPoint,
    anchor: TwipsPoint,
    i: int,
) -> Point {
    Point {
        x: quadratic_coord(start.x as int, control.x as int, anchor.x as int, i) as i64,
        y: quadratic_coord(start.y as int, control.y as int, anchor.y as int, i) as i64,
    }
}

/// The point of a cubic Bézier curve at `i` sixteenths of its parameter.
pub open spec fn cubic_at(
    start: TwipsPoint,
    control_a: TwipsPoint,
    control_b: TwipsPoint,
    anchor: TwipsPoint,
    i: int,
) -> Point {
    Point {
        x: cubic_coord(
            start.x as int,
            control_a.x as int,
            control_b.x as int,
            anchor.x as int,
            i,
        ) as i64,
        y: cubic_coord(
            start.y as int,
            control_a.y as int,
            control_b.y as int,
            anchor.y as int,
            i,
        ) as i64,
    }
}

/// Points given in twips are points that a path can have.
pub(crate) proof fn lemma_twips_point(p: TwipsPoint)
    ensures
        path_point(Point::spec_from_twips(p)),
{
}

/// Points on cubic curves are points that a path can have.
pub(crate) proof fn lemma_cubic_path_point(
    start: TwipsPoint,
    control_a: TwipsPoint,
    control_b: TwipsPoint,
    anchor: TwipsPoint,
    i: int,
)
    requires
        0 <= i <= 16,
    ensures
        path_point(cubic_at(start, control_a, control_b, anchor, i)),
{
    lemma_cubic_coord_small(
        start.x as int,
        control_a.x as int,
        control_b.x as int,
        anchor.x as int,
        i,
    );
    lemma_cubic_coord_small(
        start.y as int,
        control_a.y as int,
        control_b.y as int,
        anchor.y as int,
        i,
    );
}

proof fn lemma_cubic_coord_small(s: int, a: int, b: int, e: int, i: int)
    requires
        0 <= i <= 16,
        -0x8000_0000 <= s <= 0x7fff_ffff,
        -0x8000_0000 <= a <= 0x7fff_ffff,
        -0x8000_0000 <= b <= 0x7fff_ffff,
        -0x8000_0000 <= e <= 0x7fff_ffff,
    ensures
        path_coord(cubic_coord(s, a, b, e, i)),
        cubic_coord(s, a, b, e, i) % 2 == 0,
{
    let m = 16 - i;
    lemma_weight(m * m * m, s, m, i);
    lemma_weight(3 * m * m * i, a, m, i);
    lemma_weight(3 * m * i * i, b, m, i);
    lemma_weight(i * i * i, e, m, i);
}

proof fn lemma_weight(w: int, c: int, m: int, i: int)
    requires
        0 <= i <= 16,
        m == 16 - i,
        -0x8000_0000 <= c <= 0x7fff_ffff,
        w == m * m * m || w == 3 * m * m * i || w == 3 * m * i * i || w == i * i * i,
    ensures
        -0x1_8000_0000_0000 <= w * c <= 0x1_8000_0000_0000,
{
    let (mm, ii) = (m * m, i * i);
    assert(0 <= mm <= 256 && 0 <= ii <= 256) by (nonlinear_arith)
        requires
            0 <= m <= 16,
            0 <= i <= 16,
            mm == m * m,
            ii == i * i,
    ;
    assert(0 <= mm * m <= 4096 && 0 <= mm * i <= 4096 && 0 <= ii * m <= 4096 && 0 <= ii * i <= 4096)
        by (nonlinear_arith)
        requires
            0 <= m <= 16,
            0 <= i <= 16,
            0 <= mm <= 256,
            0 <= ii <= 256,
    ;
    assert(3 * m * m * i == 3 * (mm * i) && 3 * m * i * i == 3 * (ii * m)) by (nonlinear_arith)
        requires
            mm == m * m,
            ii == i * i,
    ;
    assert(0 <= w <= 12288);
    assert(-0x1_8000_0000_0000 <= w * c <= 0x1_8000_0000_0000) by (nonlinear_arith)
        requires
            0 <= w <= 12288,
            -0x8000_0000 <= c <= 0x7fff_ffff,
    ;
}

/// A coordinate times a weight.
fn weighted(weight: i64, coord: i32) -> (r: i64)
    requires
        0 <= weight <= 4096,
    ensures
        r == weight * coord,
        -0x800_0000_0000 <= r <= 0x800_0000_0000,
{
    proof {
        let (w, c) = (weight as int, coord as int);
        assert(-0x800_0000_0000 <= w * c <= 0x800_0000_0000) by (nonlinear_arith)
            requires
                0 <= w <= 4096,
                -0x8000_0000 <= c <= 0x8000_0000,
        ;
    }
    weight * coord as i64
}

/// One coordinate of a quadratic Bézier curve.
fn quadratic_coord_at(start: i32, control: i32, anchor: i32, i: u32) -> (r: i64)
    requires
        i <= 16,
    ensures
        r == quadratic_coord(start as int, control as int, anchor as int, i as int),
        -0x10_0000_0000_0000 <= r <= 0x10_0000_0000_0000,
{
    let t: i64 = i as i64;
    let m: i64 = 16 - t;
    proof {
        assert(0 <= m * m <= 256 && 0 <= m * t <= 256 && 0 <= t * t <= 256) by (nonlinear_arith)
            requires
                0 <= t <= 16,
                0 <= m <= 16,
        ;
        assert(2 * m * t == 2 * (m * t)) by (nonlinear_arith);
    }
    32 * (weighted(m * m, start) + weighted(2 * (m * t), control) + weighted(t * t, anchor))
}

/// One coordinate of a cubic Bézier curve.
fn cubic_coord_at(start: i32, control_a: i32, control_b: i32, anchor: i32, i: u32) -> (r: i64)
    requires
        i <= 16,
    ensures
        r == cubic_coord(
            start as int,
            control_a as int,
            control_b as int,
            anchor as int,
            i as int,
        ),
        -0x10_0000_0000_0000 <= r <= 0x10_0000_0000_0000,
{
    let t: i64 = i as i64;
    let m: i64 = 16 - t;
    let w0: i64;
    let w1: i64;
    let w2: i64;
    let w3: i64;
    proof {
        assert(0 <= m * m <= 256 && 0 <= t * t <= 256) by (nonlinear_arith)
            requires
                0 <= t <= 16,
                0 <= m <= 16,
        ;
        let (mm, tt) = (m * m, t * t);
        assert(0 <= mm * m <= 4096 && 0 <= mm * t && mm * t <= 4096 && 0 <= tt * m <= 4096 && 0
            <= tt * t <= 4096) by (nonlinear_arith)
            requires
                0 <= t <= 16,
                0 <= m <= 16,
                0 <= mm <= 256,
                0 <= tt <= 256,
        ;
        assert(3 * (mm * t) <= 4096 && 3 * (tt * m) <= 4096) by (nonlinear_arith)
            requires
                m == 16 - t,
                0 <= t <= 16,
                mm == m * m,
                tt == t * t,
        ;
        assert(3 * m * m * t == 3 * (mm * t)) by (nonlinear_arith)
            requires
                mm == m * m,
        ;
        assert(3 * m * t * t == 3 * (tt * m)) by (nonlinear_arith)
            requires
                tt == t * t,
        ;
    }
    w0 = m * m * m;
    w1 = 3 * (m * m * t);
    w2 = 3 * (t * t * m);
    w3 = t * t * t;
    2 * (weighted(w0, start) + weighted(w1, control_a) + weighted(w2, control_b) + weighted(
        w3,
        anchor,
    ))
}

/// The point of a quadratic Bézier curve at `i` sixteenths of its parameter.
pub fn quadratic_point(
    start: TwipsPoint,
    control: TwipsPoint,
    anchor: TwipsPoint,
    i: u32,
) -> (r: Point)
    requires
        i <= 16,
    ensures
        r == quadratic_at(start, control, anchor, i as int),
        r.x == quadratic_coord(start.x as int, control.x as int, anchor.x as int, i as int),
        r.y == quadratic_coord(start.y as int, control.y as int, anchor.y as int, i as int),
        path_point(r),
{
    Point {
        x: quadratic_coord_at(start.x, control.x, anchor.x, i),
        y: quadratic_coord_at(start.y, control.y, anchor.y, i),
    }
}

/// The point of a cubic Bézier curve at `i` sixteenths of its parameter.
pub fn cubic_point(
    start: TwipsPoint,
    control_a: TwipsPoint,
    control_b: TwipsPoint,
    anchor: TwipsPoint,
    i: u32,
) -> (r: Point)
    requires
        i <= 16,
    ensures
        r == cubic_at(start, control_a, control_b, anchor, i as int),
        r.x == cubic_coord(
            start.x as int,
            control_a.x as int,
            control_b.x as int,
            anchor.x as int,
            i as int,
        ),
        r.y == cubic_coord(
            start.y as int,
            control_a.y as int,
            control_b.y as int,
            anchor.y as int,
            i as int,
        ),
        path_point(r),
{
    Point {
        x: cubic_coord_at(start.x, control_a.x, control_b.x, anchor.x, i),
        y: cubic_coord_at(start.y, control_a.y, control_b.y, anchor.y, i),
    }
}

/// Curves start and end exactly at their end points.
pub proof fn curves_meet_their_ends(
    start: TwipsPoint,
    a: TwipsPoint,
    b: TwipsPoint,
    anchor: TwipsPoint,
)
    ensures
        quadratic_at(start, a, anchor, 0) == Point::spec_from_twips(start),
        quadratic_at(start, a, anchor, 16) == Point::spec_from_twips(anchor),
        cubic_at(start, a, b, anchor, 0) == Point::spec_from_twips(start),
        cubic_at(start, a, b, anchor, 16) == Point::spec_from_twips(anchor),
{
    lemma_coords_at_ends(start.x as int, a.x as int, b.x as int, anchor.x as int);
    lemma_coords_at_ends(start.y as int, a.y as int, b.y as int, anchor.y as int);
}

proof fn lemma_coords_at_ends(s: int, a: int, b: int, e: int)
    ensures
        quadratic_coord(s, a, e, 0) == s * 8192,
        quadratic_coord(s, a, e, 16) == e * 8192,
        cubic_coord(s, a, b, e, 0) == s * 8192,
        cubic_coord(s, a, b, e, 16) == e * 8192,
{
    assert(32 * ((16 - 0) * (16 - 0) * s + 2 * (16 - 0) * 0 * a + 0 * 0 * e) == s * 8192)
        by (nonlinear_arith);
    assert(32 * ((16 - 16) * (16 - 16) * s + 2 * (16 - 16) * 16 * a + 16 * 16 * e) == e * 8192)
        by (nonlinear_arith);
    assert(2 * ((16 - 0) * (16 - 0) * (16 - 0) * s + 3 * (16 - 0) * (16 - 0) * 0 * a + 3 * (16 - 0)
        * 0 * 0 * b + 0 * 0 * 0 * e) == s * 8192) by (nonlinear_arith);
    assert(2 * ((16 - 16) * (16 - 16) * (16 - 16) * s + 3 * (16 - 16) * (16 - 16) * 16 * a + 3 * (16
        - 16) * 16 * 16 * b + 16 * 16 * 16 * e) == e * 8192) by (nonlinear_arith);
}

/// The number `i` sixteenths of the way from one number to another, times 16.
pub open spec fn between(a: int, b: int, i: int) -> int {
    (16 - i) * a + i * b
}

/// What repeated interpolation gives of three numbers at `i` sixteenths, times 256.
pub open spec fn interpolated_thrice(a: int, b: int, c: int, i: int) -> int {
    between(between(a, b, i), between(b, c, i), i)
}

/// What repeated interpolation gives of four numbers at `i` sixteenths, times 4096.
pub open spec fn interpolated_four_times(a: int, b: int, c: int, d: int, i: int) -> int {
    between(interpolated_thrice(a, b, c, i), interpolated_thrice(b, c, d, i), i)
}

/// Whether a point, in units of 1/8192 twip, lies `i` sixteenths along the quadratic curve
/// from `start` to `anchor` that is drawn towards `control`: where interpolating between
/// the three, and then between what that gives, leads.
pub open spec fn is_on_quadratic(
    p: Point,
    start: TwipsPoint,
    control: TwipsPoint,
    anchor: TwipsPoint,
    i: int,
) -> bool {
    &&& 256 * p.x == 8192 * interpolated_thrice(
        start.x as int,
        control.x as int,
        anchor.x as int,
        i,
    )
    &&& 256 * p.y == 8192 * interpolated_thrice(
        start.y as int,
        control.y as int,
        anchor.y as int,
        i,
    )
}

/// Whether a point, in units of 1/8192 twip, lies `i` sixteenths along the cubic curve
/// that leaves `start` towards `control_a` and arrives at `anchor` from `control_b`: where
/// interpolating between the four, three times over, leads.
pub open spec fn is_on_cubic(
    p: Point,
    start: TwipsPoint,
    control_a: TwipsPoint,
    control_b: TwipsPoint,
    anchor: TwipsPoint,
    i: int,
) -> bool {
    &&& 4096 * p.x == 8192 * interpolated_four_times(
        start.x as int,
        control_a.x as int,
        control_b.x as int,
        anchor.x as int,
        i,
    )
    &&& 4096 * p.y == 8192 * interpolated_four_times(
        start.y as int,
        control_a.y as int,
        control_b.y as int,
        anchor.y as int,
        i,
    )
}

/// Points of quadratic curves lie on them.
pub proof fn quadratic_points_lie_on_the_curve(
    start: TwipsPoint,
    control: TwipsPoint,
    anchor: TwipsPoint,
    i: int,
)
    requires
        0 <= i <= 16,
    ensures
        is_on_quadratic(quadratic_at(start, control, anchor, i), start, control, anchor, i),
{
    lemma_quadratic_coord(start.x as int, control.x as int, anchor.x as int, i);
    lemma_quadratic_coord(start.y as int, control.y as int, anchor.y as int, i);
}

/// Points of cubic curves lie on them.
pub proof fn cubic_points_lie_on_the_curve(
    start: TwipsPoint,
    control_a: TwipsPoint,
    control_b: TwipsPoint,
    anchor: TwipsPoint,
    i: int,
)
    requires
        0 <= i <= 16,
    ensures
        is_on_cubic(
            cubic_at(start, control_a, control_b, anchor, i),
            start,
            control_a,
            control_b,
            anchor,
            i,
        ),
{
    lemma_cubic_coord_small(
        start.x as int,
        control_a.x as int,
        control_b.x as int,
        anchor.x as int,
        i,
    );
    lemma_cubic_coord_small(
        start.y as int,
        control_a.y as int,
        control_b.y as int,
        anchor.y as int,
        i,
    );
    lemma_cubic_interpolates(
        start.x as int,
        control_a.x as int,
        control_b.x as int,
        anchor.x as int,
        i,
    );
    lemma_cubic_interpolates(
        start.y as int,
        control_a.y as int,
        control_b.y as int,
        anchor.y as int,
        i,
    );
}

proof fn lemma_quadratic_interpolates(s: int, c: int, e: int, i: int)
    ensures
        interpolated_thrice(s, c, e, i) == (16 - i) * (16 - i) * s + 2 * (16 - i) * i * c + i * i
            * e,
{
    let m = 16 - i;
    let (p, q) = (m * s + i * c, m * c + i * e);
    let mi = m * i;
    assert(m * p == m * m * s + mi * c) by (nonlinear_arith)
        requires
            p == m * s + i * c,
            mi == m * i,
    ;
    assert(i * q == mi * c + i * i * e) by (nonlinear_arith)
        requires
            q == m * c + i * e,
            mi == m * i,
    ;
    assert(2 * m * i * c == 2 * (mi * c)) by (nonlinear_arith)
        requires
            mi == m * i,
    ;
}

proof fn lemma_cubic_interpolates(s: int, a: int, b: int, e: int, i: int)
    ensures
        2 * interpolated_four_times(s, a, b, e, i) == cubic_coord(s, a, b, e, i),
{
    lemma_quadratic_interpolates(s, a, b, i);
    lemma_quadratic_interpolates(a, b, e, i);
    let m = 16 - i;
    let p = m * m * s + 2 * m * i * a + i * i * b;
    let q = m * m * a + 2 * m * i * b + i * i * e;
    assert(m * p == m * m * m * s + 2 * m * m * i * a + m * i * i * b) by (nonlinear_arith)
        requires
            p == m * m * s + 2 * m * i * a + i * i * b,
    ;
    assert(i * q == m * m * i * a + 2 * m * i * i * b + i * i * i * e) by (nonlinear_arith)
        requires
            q == m * m * a + 2 * m * i * b + i * i * e,
    ;
    let (x, y) = (m * m * i, m * i * i);
    assert(2 * m * m * i * a == 2 * (x * a) && m * m * i * a == x * a && 3 * m * m * i * a == 3 * (x
        * a)) by (nonlinear_arith)
        requires
            x == m * m * i,
    ;
    assert(2 * m * i * i * b == 2 * (y * b) && m * i * i * b == y * b && 3 * m * i * i * b == 3 * (y
        * b)) by (nonlinear_arith)
        requires
            y == m * i * i,
    ;
}

proof fn lemma_quadratic_coord(s: int, c: int, e: int, i: int)
    requires
        0 <= i <= 16,
        -0x8000_0000 <= s <= 0x7fff_ffff,
        -0x8000_0000 <= c <= 0x7fff_ffff,
        -0x8000_0000 <= e <= 0x7fff_ffff,
    ensures
        path_coord(quadratic_coord(s, c, e, i)),
        quadratic_coord(s, c, e, i) == 32 * interpolated_thrice(s, c, e, i),
{
    lemma_quadratic_interpolates(s, c, e, i);
    let m = 16 - i;
    let (mm, mi, ii) = (m * m, 2 * m * i, i * i);
    assert(0 <= mm <= 256 && 0 <= mi <= 512 && 0 <= ii <= 256) by (nonlinear_arith)
        requires
            0 <= i <= 16,
            m == 16 - i,
            mm == m * m,
            mi == 2 * m * i,
            ii == i * i,
    ;
    lemma_small_product(mm, s);
    lemma_small_product(mi, c);
    lemma_small_product(ii, e);
}

proof fn lemma_small_product(w: int, c: int)
    requires
        0 <= w <= 512,
        -0x8000_0000 <= c <= 0x7fff_ffff,
    ensures
        -0x100_0000_0000 <= w * c <= 0x100_0000_0000,
{
    assert(-0x100_0000_0000 <= w * c <= 0x100_0000_0000) by (nonlinear_arith)
        requires
            0 <= w <= 512,
            -0x8000_0000 <= c <= 0x7fff_ffff,
    ;
}

/// Where the last step of a path ends; a path without steps is at the origin.
pub open spec fn last_point(cmds: Seq<DrawCommand>) -> TwipsPoint {
    if cmds.len() == 0 {
        TwipsPoint { x: 0, y: 0 }
    } else {
        match cmds.last() {
            DrawCommand::MoveTo(p) => p,
            DrawCommand::LineTo(p) => p,
            DrawCommand::QuadraticCurveTo { anchor, .. } => anchor,
            DrawCommand::CubicCurveTo { anchor, .. } => anchor,
        }
    }
}

/// Whether a point, in units of 1/8192 twip, is a position in twips.
pub open spec fn is_at(p: Point, at: TwipsPoint) -> bool {
    p.x == 8192 * at.x && p.y == 8192 * at.y
}

} // verus!
