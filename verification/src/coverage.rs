//! What the triangles of a fill cover: exactly the inside of its path.
//!
//! The path's inside is told by the even-odd rule: the polygon through its on-curve
//! points, with the bulge between each quadratic curve and its chord added where it
//! lies outside of the polygon and taken away where it lies inside.
use crate::fill::{
    color_does_not_change_the_structure, control_uv, cubic_start, cubic_steps, end_uv,
    fan_covers, fan_fills_the_polygon, fill_fits, fill_geometry, lemma_cubic_grows,
    lemma_fill_valid, lemma_prefix_grows, on_curve, polygon_encloses, ray_crosses, start_uv,
    triangle_encloses, valid, vertex_at, FillState,
};
use crate::geometry::{Point, TwipsPoint};
use crate::path::DrawCommand;
use crate::vertex::BezierTexVertex;
use vstd::prelude::*;

verus! {

/// Twice the signed area of a triangle.
pub open spec fn cross(p: Point, q: Point, r: Point) -> int {
    (q.x - p.x) * (r.y - p.y) - (q.y - p.y) * (r.x - p.x)
}

/// The Loop-Blinn test at a point of a triangle: whether `u² - v` is negative, with
/// `u` and `v` interpolated between the corners. A corner weighs as much as the
/// area opposite to it, so `u` and `v` are in halves of the triangle's area.
pub open spec fn is_inside_curve(
    p: Point,
    a: BezierTexVertex,
    b: BezierTexVertex,
    c: BezierTexVertex,
) -> bool {
    let w0 = cross(p, b.position.point, c.position.point);
    let w1 = cross(p, c.position.point, a.position.point);
    let w2 = cross(p, a.position.point, b.position.point);
    let area = w0 + w1 + w2;
    let u = w0 * a.uv.u_halves + w1 * b.uv.u_halves + w2 * c.uv.u_halves;
    let v = w0 * a.uv.v_halves + w1 * b.uv.v_halves + w2 * c.uv.v_halves;
    u * u < 2 * v * area
}

/// Whether a triangle fills a point: an interior triangle fills all that it
/// encloses, a curve edge triangle what passes the test.
pub open spec fn triangle_fills(
    p: Point,
    a: BezierTexVertex,
    b: BezierTexVertex,
    c: BezierTexVertex,
) -> bool {
    &&& triangle_encloses(p, a.position.point, b.position.point, c.position.point)
    &&& a.fill_type == 0 || is_inside_curve(p, a, b, c)
}

/// Whether an odd number of the first `n` triangles of a geometry fill a point.
pub open spec fn covers(s: FillState, p: Point, n: nat) -> bool
    decreases n,
{
    if n == 0 {
        false
    } else {
        let k = 3 * (n - 1);
        covers(s, p, (n - 1) as nat) != triangle_fills(
            p,
            s.vertices[s.indices[k] as int],
            s.vertices[s.indices[k + 1] as int],
            s.vertices[s.indices[k + 2] as int],
        )
    }
}

/// One coordinate of a quadratic curve's point at `num / den` of its parameter,
/// from the start of the curve, times `den²`.
pub open spec fn curve_offset(start: int, control: int, end: int, num: int, den: int) -> int {
    2 * num * (den - num) * (control - start) + num * num * (end - start)
}

/// Whether a point lies `part / whole` of the way from the start of a quadratic
/// curve to its point at `num / den` of its parameter, short of it.
pub open spec fn is_on_the_way(
    p: Point,
    start: Point,
    control: Point,
    end: Point,
    num: int,
    den: int,
    part: int,
    whole: int,
) -> bool {
    &&& 0 < num <= den
    &&& 0 < part < whole
    &&& whole * (den * den) * (p.x - start.x) == part * curve_offset(
        start.x as int,
        control.x as int,
        end.x as int,
        num,
        den,
    )
    &&& whole * (den * den) * (p.y - start.y) == part * curve_offset(
        start.y as int,
        control.y as int,
        end.y as int,
        num,
        den,
    )
}

/// Whether a point lies in the bulge of a quadratic curve, between it and its
/// chord: seen from the start of the curve, some point of the curve lies behind it.
/// A curve whose control point is in line with its ends has no bulge.
pub open spec fn bulge_contains(p: Point, start: Point, control: Point, end: Point) -> bool {
    &&& cross(start, control, end) != 0
    &&& triangle_encloses(p, start, control, end)
    &&& exists|num: int, den: int, part: int, whole: int|
        is_on_the_way(p, start, control, end, num, den, part, whole)
}

/// Where a path has arrived. A curve needs a point to start from.
pub open spec fn arrived_at(cmds: Seq<DrawCommand>) -> Option<TwipsPoint>
    decreases cmds.len(),
{
    if cmds.len() == 0 {
        None
    } else {
        match cmds.last() {
            DrawCommand::MoveTo(_) | DrawCommand::LineTo(_) => Some(cmds.last().end()),
            _ => if arrived_at(cmds.drop_last()) is Some {
                Some(cmds.last().end())
            } else {
                None
            },
        }
    }
}

/// Whether an odd number of the bulges of a path contain a point.
pub open spec fn bulges_contain(cmds: Seq<DrawCommand>, p: Point) -> bool
    decreases cmds.len(),
{
    if cmds.len() == 0 {
        false
    } else {
        bulges_contain(cmds.drop_last(), p) != match (arrived_at(cmds.drop_last()), cmds.last()) {
            (Some(start), DrawCommand::QuadraticCurveTo { control, anchor }) => bulge_contains(
                p,
                Point::spec_from_twips(start),
                Point::spec_from_twips(control),
                Point::spec_from_twips(anchor),
            ),
            _ => false,
        }
    }
}

/// Whether a path encloses a point by the even-odd rule, each sub-path closed.
/// Cubic curves count with the line segments that they are flattened to, which depend
/// on whether the vertices carry a color (`colored`).
pub open spec fn path_encloses(cmds: Seq<DrawCommand>, p: Point, colored: bool) -> bool {
    polygon_encloses(cmds, p, colored) != bulges_contain(cmds, p)
}

// ---- One curve ----

/// Areas as weights, relative to the first corner of a triangle.
proof fn lemma_weights(p: Point, a: Point, b: Point, c: Point)
    ensures
        ({
            let (px, py) = (p.x - a.x, p.y - a.y);
            let (bx, by) = (b.x - a.x, b.y - a.y);
            let (cx, cy) = (c.x - a.x, c.y - a.y);
            &&& cross(p, c, a) == px * cy - py * cx
            &&& cross(p, a, b) == bx * py - by * px
            &&& cross(a, b, c) == bx * cy - by * cx
            &&& cross(p, b, c) + cross(p, c, a) + cross(p, a, b) == cross(a, b, c)
        }),
{
    let (px, py) = (p.x - a.x, p.y - a.y);
    let (bx, by) = (b.x - a.x, b.y - a.y);
    let (cx, cy) = (c.x - a.x, c.y - a.y);
    assert(cross(p, b, c) == (bx - px) * (cy - py) - (by - py) * (cx - px));
    assert(cross(p, c, a) == (cx - px) * (0 - py) - (cy - py) * (0 - px));
    assert(cross(p, a, b) == (0 - px) * (by - py) - (0 - py) * (bx - px));
    assert((cx - px) * (0 - py) - (cy - py) * (0 - px) == px * cy - py * cx) by (nonlinear_arith);
    assert((0 - px) * (by - py) - (0 - py) * (bx - px) == bx * py - by * px) by (nonlinear_arith);
    assert((bx - px) * (cy - py) - (by - py) * (cx - px) + (px * cy - py * cx) + (bx * py - by * px)
        == bx * cy - by * cx) by (nonlinear_arith);
}

/// A point is the average of a triangle's corners, weighted by areas.
proof fn lemma_average(px: int, py: int, bx: int, by: int, cx: int, cy: int)
    ensures
        (bx * cy - by * cx) * px == (px * cy - py * cx) * bx + (bx * py - by * px) * cx,
        (bx * cy - by * cx) * py == (px * cy - py * cx) * by + (bx * py - by * px) * cy,
{
    assert((bx * cy - by * cx) * px == (px * cy - py * cx) * bx + (bx * py - by * px) * cx)
        by (nonlinear_arith);
    assert((bx * cy - by * cx) * py == (px * cy - py * cx) * by + (bx * py - by * px) * cy)
        by (nonlinear_arith);
}

/// Three weights that balance around zero have one sign where the point that
/// weighs against the other two does not lie between them.
proof fn lemma_balance(wq: int, wr: int, ws: int, qy: int, ry: int, sy: int)
    requires
        wq * qy + wr * ry + ws * sy == 0,
        qy <= 0 < ry && 0 < sy,
        wr > 0 && ws >= 0 || wr >= 0 && ws > 0,
    ensures
        wq >= 0,
{
    assert(wr * ry + ws * sy > 0) by (nonlinear_arith)
        requires
            0 < ry,
            0 < sy,
            wr > 0 && ws >= 0 || wr >= 0 && ws > 0,
    ;
    if wq < 0 {
        assert(wq * qy >= 0) by (nonlinear_arith)
            requires
                wq < 0,
                qy <= 0,
        ;
    }
}

/// The mirror image of [`lemma_balance`].
proof fn lemma_balance_above(wq: int, wr: int, ws: int, qy: int, ry: int, sy: int)
    requires
        wq * qy + wr * ry + ws * sy == 0,
        ry <= 0 && sy <= 0 < qy,
        wr <= 0 && ws <= 0,
    ensures
        wq <= 0,
{
    assert(wr * ry >= 0) by (nonlinear_arith)
        requires
            wr <= 0,
            ry <= 0,
    ;
    assert(ws * sy >= 0) by (nonlinear_arith)
        requires
            ws <= 0,
            sy <= 0,
    ;
    if wq > 0 {
        assert(wq * qy > 0) by (nonlinear_arith)
            requires
                wq > 0,
                qy > 0,
        ;
    }
}

/// Whether three numbers have one sign.
spec fn one_sign(x: int, y: int, z: int) -> bool {
    (x >= 0 && y >= 0 && z >= 0) || (x <= 0 && y <= 0 && z <= 0)
}

/// A corner that is alone above or below a point, where the ray from the point
/// crosses exactly one of its two edges.
proof fn lemma_alone(p: Point, q: Point, r: Point, s: Point)
    requires
        (q.y <= p.y) != (r.y <= p.y),
        (q.y <= p.y) != (s.y <= p.y),
        ray_crosses(p, q, r) != ray_crosses(p, s, q),
    ensures
        one_sign(cross(p, r, s), cross(p, s, q), cross(p, q, r)),
{
    let (qx, qy) = (q.x - p.x, q.y - p.y);
    let (rx, ry) = (r.x - p.x, r.y - p.y);
    let (sx, sy) = (s.x - p.x, s.y - p.y);
    let wq = cross(p, r, s);
    let wr = cross(p, s, q);
    let ws = cross(p, q, r);
    assert(wq == rx * sy - ry * sx);
    assert(wr == sx * qy - sy * qx);
    assert(ws == qx * ry - qy * rx);
    assert(wq * qy + wr * ry + ws * sy == 0) by (nonlinear_arith)
        requires
            wq == rx * sy - ry * sx,
            wr == sx * qy - sy * qx,
            ws == qx * ry - qy * rx,
    ;
    if q.y <= p.y {
        lemma_crossing(p, q, r);
        lemma_crossing(p, q, s);
        assert(cross(p, q, s) == -wr) by (nonlinear_arith)
            requires
                cross(p, q, s) == qx * sy - qy * sx,
                wr == sx * qy - sy * qx,
        ;
        if ws > 0 {
            lemma_balance(wq, wr, ws, qy, ry, sy);
        } else {
            assert(wr < 0);
            assert((-wq) * qy + (-wr) * ry + (-ws) * sy == 0) by (nonlinear_arith)
                requires
                    wq * qy + wr * ry + ws * sy == 0,
            ;
            lemma_balance(-wq, -wr, -ws, qy, ry, sy);
        }
    } else {
        lemma_crossing(p, r, q);
        lemma_crossing(p, s, q);
        assert(cross(p, r, q) == -ws) by (nonlinear_arith)
            requires
                cross(p, r, q) == rx * qy - ry * qx,
                ws == qx * ry - qy * rx,
        ;
        if wr > 0 {
            assert((-wq) * qy + (-wr) * ry + (-ws) * sy == 0) by (nonlinear_arith)
                requires
                    wq * qy + wr * ry + ws * sy == 0,
            ;
            lemma_balance_above(-wq, -wr, -ws, qy, ry, sy);
        } else {
            lemma_balance_above(wq, wr, ws, qy, ry, sy);
        }
    }
}

/// The ray crosses an edge exactly where the point lies to the left of it.
proof fn lemma_crossing(p: Point, lo: Point, hi: Point)
    requires
        lo.y <= p.y < hi.y,
    ensures
        ray_crosses(p, lo, hi) == (cross(p, lo, hi) > 0),
        ray_crosses(p, hi, lo) == (cross(p, lo, hi) > 0),
{
    let (lx, ly) = (lo.x - p.x, lo.y - p.y);
    let (hx, hy) = (hi.x - p.x, hi.y - p.y);
    assert(cross(p, lo, hi) == lx * hy - ly * hx);
    assert((p.x - lo.x) * (hi.y - lo.y) == (0 - lx) * (hy - ly));
    assert((hi.x - lo.x) * (p.y - lo.y) == (hx - lx) * (0 - ly));
    assert((hx - lx) * (0 - ly) - (0 - lx) * (hy - ly) == lx * hy - ly * hx) by (nonlinear_arith);
}

/// Seen from a point that a triangle encloses, its edges turn one way.
proof fn lemma_enclosed(p: Point, a: Point, b: Point, c: Point)
    requires
        triangle_encloses(p, a, b, c),
    ensures
        one_sign(cross(p, b, c), cross(p, c, a), cross(p, a, b)),
{
    let (la, lb, lc) = (a.y <= p.y, b.y <= p.y, c.y <= p.y);
    if la != lb && la != lc {
        lemma_alone(p, a, b, c);
    } else if lb != la && lb != lc {
        lemma_alone(p, b, c, a);
    } else if lc != la && lc != lb {
        lemma_alone(p, c, a, b);
    }
}

/// Where the test passes, the ray from the curve's start through the point goes on
/// to the curve.
proof fn lemma_inside_is_on_the_way(p: Point, a: Point, b: Point, c: Point)
    requires
        triangle_encloses(p, a, b, c),
        ({
            let (w1, w2) = (cross(p, c, a), cross(p, a, b));
            (w1 + 2 * w2) * (w1 + 2 * w2) < 4 * w2 * cross(a, b, c)
        }),
    ensures
        cross(a, b, c) != 0,
        exists|num: int, den: int, part: int, whole: int|
            is_on_the_way(p, a, b, c, num, den, part, whole),
{
    lemma_weights(p, a, b, c);
    lemma_enclosed(p, a, b, c);
    let (px, py) = (p.x - a.x, p.y - a.y);
    let (bx, by) = (b.x - a.x, b.y - a.y);
    let (cx, cy) = (c.x - a.x, c.y - a.y);
    lemma_average(px, py, bx, by, cx, cy);
    let s = cross(a, b, c);
    let (v1, v2) = (cross(p, c, a), cross(p, a, b));
    assert((v1 + 2 * v2) * (v1 + 2 * v2) >= 0) by (nonlinear_arith);
    assert(s != 0) by (nonlinear_arith)
        requires
            0 < 4 * v2 * s,
    ;
    let (w1, w2, t) = if s > 0 {
        (v1, v2, s)
    } else {
        (-v1, -v2, -s)
    };
    assert(w1 >= 0 && w2 >= 0 && t > 0);
    assert(w2 * t == v2 * s && w2 != 0) by (nonlinear_arith)
        requires
            0 < 4 * v2 * s,
            (w2 == v2 && t == s) || (w2 == -v2 && t == -s),
    ;
    let num = 2 * w2;
    let den = w1 + 2 * w2;
    let part = den * den;
    let whole = 4 * w2 * t;
    assert(part == (v1 + 2 * v2) * (v1 + 2 * v2) && whole == 4 * v2 * s) by (nonlinear_arith)
        requires
            part == (w1 + 2 * w2) * (w1 + 2 * w2),
            whole == 4 * w2 * t,
            (w1 == v1 && w2 == v2 && t == s) || (w1 == -v1 && w2 == -v2 && t == -s),
    ;
    assert(part > 0) by (nonlinear_arith)
        requires
            part == den * den,
            den > 0,
    ;
    lemma_reaches(px, bx, cx, w1, w2, t, v1, v2, s);
    lemma_reaches(py, by, cy, w1, w2, t, v1, v2, s);
    assert(is_on_the_way(p, a, b, c, num, den, part, whole));
}

/// One coordinate of [`lemma_inside_is_on_the_way`].
proof fn lemma_reaches(
    p: int,
    b: int,
    c: int,
    w1: int,
    w2: int,
    t: int,
    v1: int,
    v2: int,
    s: int,
)
    requires
        s * p == v1 * b + v2 * c,
        (w1 == v1 && w2 == v2 && t == s) || (w1 == -v1 && w2 == -v2 && t == -s),
    ensures
        ({
            let (num, den) = (2 * w2, w1 + 2 * w2);
            4 * w2 * t * (den * den) * p == den * den * (2 * num * (den - num) * b + num * num * c)
        }),
{
    let (num, den) = (2 * w2, w1 + 2 * w2);
    assert(t * p == w1 * b + w2 * c) by (nonlinear_arith)
        requires
            s * p == v1 * b + v2 * c,
            (w1 == v1 && w2 == v2 && t == s) || (w1 == -v1 && w2 == -v2 && t == -s),
    ;
    let z = w1 * b + w2 * c;
    assert(2 * num * (den - num) * b + num * num * c == 4 * w2 * z) by (nonlinear_arith)
        requires
            num == 2 * w2,
            den - num == w1,
            z == w1 * b + w2 * c,
    ;
    let d = den * den;
    let tp = t * p;
    assert(4 * w2 * t * d * p == d * (4 * w2 * tp)) by (nonlinear_arith)
        requires
            tp == t * p,
    ;
}

/// A point on the way to the curve passes the test.
proof fn lemma_on_the_way_is_inside(
    p: Point,
    a: Point,
    b: Point,
    c: Point,
    num: int,
    den: int,
    part: int,
    whole: int,
)
    requires
        cross(a, b, c) != 0,
        is_on_the_way(p, a, b, c, num, den, part, whole),
    ensures
        ({
            let (w1, w2) = (cross(p, c, a), cross(p, a, b));
            (w1 + 2 * w2) * (w1 + 2 * w2) < 4 * w2 * cross(a, b, c)
        }),
{
    lemma_weights(p, a, b, c);
    let (px, py) = (p.x - a.x, p.y - a.y);
    let (bx, by) = (b.x - a.x, b.y - a.y);
    let (cx, cy) = (c.x - a.x, c.y - a.y);
    let s = cross(a, b, c);
    let (w1, w2) = (cross(p, c, a), cross(p, a, b));
    let k = whole * (den * den);
    let f = 2 * num * (den - num);
    let g = num * num;
    assert(k * px == part * (f * bx + g * cx));
    assert(k * py == part * (f * by + g * cy));
    // Crossed with the chord and with the first leg, only one of the two legs of the
    // way is left.
    lemma_cross_with(k, part, px, py, f, bx, by, g, cx, cy);
    assert(k * w1 == part * f * s);
    assert(k * w2 == part * g * s);
    let sum = w1 + 2 * w2;
    assert(k * sum == 2 * (part * (num * den) * s)) by (nonlinear_arith)
        requires
            sum == w1 + 2 * w2,
            k * w1 == part * f * s,
            k * w2 == part * g * s,
            f == 2 * num * (den - num),
            g == num * num,
    ;
    let e = num * den * s;
    assert(k * sum == 2 * part * e) by (nonlinear_arith)
        requires
            k * sum == 2 * (part * (num * den) * s),
            e == num * den * s,
    ;
    assert((k * sum) * (k * sum) == 4 * (part * part) * (e * e)) by (nonlinear_arith)
        requires
            k * sum == 2 * part * e,
    ;
    let h = part * g * s;
    assert(k * (4 * w2 * s) * k == 4 * s * h * k) by (nonlinear_arith)
        requires
            k * w2 == h,
    ;
    assert(s * h == part * (g * (s * s))) by (nonlinear_arith)
        requires
            h == part * g * s,
    ;
    let gs = g * (s * s);
    assert(4 * s * h * k == 4 * (part * whole) * (gs * (den * den))) by (nonlinear_arith)
        requires
            s * h == part * gs,
            k == whole * (den * den),
    ;
    assert(gs * (den * den) == e * e) by (nonlinear_arith)
        requires
            gs == g * (s * s),
            g == num * num,
            e == num * den * s,
    ;
    assert(e != 0) by (nonlinear_arith)
        requires
            e == num * den * s,
            num > 0,
            den > 0,
            s != 0,
    ;
    assert(4 * (part * part) * (e * e) < 4 * (part * whole) * (e * e)) by (nonlinear_arith)
        requires
            e != 0,
            0 < part < whole,
    ;
    assert(sum * sum < 4 * w2 * s) by (nonlinear_arith)
        requires
            (k * sum) * (k * sum) < k * (4 * w2 * s) * k,
    ;
}

/// What a sum of two legs leaves when it is crossed with either of them.
proof fn lemma_cross_with(
    k: int,
    part: int,
    px: int,
    py: int,
    f: int,
    bx: int,
    by: int,
    g: int,
    cx: int,
    cy: int,
)
    requires
        k * px == part * (f * bx + g * cx),
        k * py == part * (f * by + g * cy),
    ensures
        k * (px * cy - py * cx) == part * f * (bx * cy - by * cx),
        k * (bx * py - by * px) == part * g * (bx * cy - by * cx),
{
    let x = f * bx + g * cx;
    let y = f * by + g * cy;
    assert(k * (px * cy - py * cx) == (k * px) * cy - (k * py) * cx) by (nonlinear_arith);
    assert(k * (bx * py - by * px) == bx * (k * py) - by * (k * px)) by (nonlinear_arith);
    assert((part * x) * cy - (part * y) * cx == part * (x * cy - y * cx)) by (nonlinear_arith);
    assert(bx * (part * y) - by * (part * x) == part * (bx * y - by * x)) by (nonlinear_arith);
    assert(x * cy - y * cx == f * (bx * cy - by * cx)) by (nonlinear_arith)
        requires
            x == f * bx + g * cx,
            y == f * by + g * cy,
    ;
    assert(bx * y - by * x == g * (bx * cy - by * cx)) by (nonlinear_arith)
        requires
            x == f * bx + g * cx,
            y == f * by + g * cy,
    ;
    assert(part * (f * (bx * cy - by * cx)) == part * f * (bx * cy - by * cx))
        by (nonlinear_arith);
    assert(part * (g * (bx * cy - by * cx)) == part * g * (bx * cy - by * cx))
        by (nonlinear_arith);
}

/// A curve edge triangle fills exactly the bulge of its curve.
pub proof fn curve_triangle_fills_the_bulge(p: Point, start: Point, control: Point, end: Point)
    ensures
        triangle_fills(
            p,
            vertex_at(start, start_uv(), 1),
            vertex_at(control, control_uv(), 1),
            vertex_at(end, end_uv(), 1),
        ) == bulge_contains(p, start, control, end),
{
    lemma_weights(p, start, control, end);
    let (w0, w1, w2) = (
        cross(p, control, end),
        cross(p, end, start),
        cross(p, start, control),
    );
    let area = cross(start, control, end);
    let u = w0 * start_uv().u_halves + w1 * control_uv().u_halves + w2 * end_uv().u_halves;
    let v = w0 * start_uv().v_halves + w1 * control_uv().v_halves + w2 * end_uv().v_halves;
    assert(u == w1 + 2 * w2 && v == 2 * w2) by (nonlinear_arith)
        requires
            u == w0 * 0 + w1 * 1 + w2 * 2,
            v == w0 * 0 + w1 * 0 + w2 * 2,
    ;
    assert(2 * v * area == 4 * w2 * area) by (nonlinear_arith)
        requires
            v == 2 * w2,
    ;
    if triangle_encloses(p, start, control, end) {
        if u * u < 2 * v * area {
            lemma_inside_is_on_the_way(p, start, control, end);
        } else if bulge_contains(p, start, control, end) {
            let (num, den, part, whole) = choose|num: int, den: int, part: int, whole: int|
                is_on_the_way(p, start, control, end, num, den, part, whole);
            lemma_on_the_way_is_inside(p, start, control, end, num, den, part, whole);
        }
    }
}

// ---- Whole paths ----

/// Whether an odd number of the first `n` triangles of a geometry, among those at
/// the edge of a curve, fill a point.
spec fn curves_cover(s: FillState, p: Point, n: nat) -> bool
    decreases n,
{
    if n == 0 {
        false
    } else {
        let k = 3 * (n - 1);
        let a = s.vertices[s.indices[k] as int];
        let b = s.vertices[s.indices[k + 1] as int];
        let c = s.vertices[s.indices[k + 2] as int];
        curves_cover(s, p, (n - 1) as nat) != (a.fill_type != 0 && triangle_fills(p, a, b, c))
    }
}

/// Every triangle belongs to the fan or to a curve.
proof fn lemma_fan_and_curves(s: FillState, p: Point, n: nat)
    ensures
        covers(s, p, n) == (fan_covers(s, p, n) != curves_cover(s, p, n)),
    decreases n,
{
    if n > 0 {
        lemma_fan_and_curves(s, p, (n - 1) as nat);
    }
}

/// Triangles that are already there do not change when more is appended.
proof fn lemma_curves_stable(s: FillState, t: FillState, p: Point, n: nat)
    requires
        3 * n <= s.indices.len() <= t.indices.len(),
        s.vertices.len() <= t.vertices.len(),
        forall|i: int| 0 <= i < s.indices.len() ==> #[trigger] s.indices[i] < s.vertices.len(),
        forall|i: int| 0 <= i < s.indices.len() ==> #[trigger] t.indices[i] == s.indices[i],
        forall|i: int| 0 <= i < s.vertices.len() ==> #[trigger] t.vertices[i] == s.vertices[i],
    ensures
        curves_cover(s, p, n) == curves_cover(t, p, n),
    decreases n,
{
    if n > 0 {
        lemma_curves_stable(s, t, p, (n - 1) as nat);
        let k = 3 * (n - 1);
        assert(s.indices[k] < s.vertices.len() && t.indices[k] == s.indices[k]);
        assert(s.indices[k + 1] < s.vertices.len() && t.indices[k + 1] == s.indices[k + 1]);
        assert(s.indices[k + 2] < s.vertices.len() && t.indices[k + 2] == s.indices[k + 2]);
    }
}

/// The geometry so far is valid, and its fan starts at an interior vertex.
spec fn fan_is_interior(s: FillState) -> bool {
    valid(s) && (s.origin matches Some(i) ==> s.vertices[i].fill_type == 0)
}

/// An on-curve vertex adds to the fan only.
proof fn lemma_on_curve_adds_to_fan(s: FillState, p: Point, to: Point, t: FillState)
    requires
        fan_is_interior(s),
        s.vertices.len() < u32::MAX,
        t.vertices == on_curve(s, to).vertices,
        t.indices == on_curve(s, to).indices,
        t.origin == s.origin,
        t.prev == Some(s.vertices.len() as int) || t.prev == s.prev,
    ensures
        fan_is_interior(t),
        curves_cover(t, p, t.indices.len() / 3) == curves_cover(s, p, s.indices.len() / 3),
{
    let n = s.indices.len() / 3;
    lemma_curves_stable(s, t, p, n);
    if let (Some(i), Some(j)) = (s.origin, s.prev) {
        assert(t.vertices[i] == s.vertices[i]);
        if i != j {
            assert(t.indices[s.indices.len() as int] == i);
            assert(t.indices.len() / 3 == n + 1);
        }
    }
}

/// A cubic curve adds to the fan only.
proof fn lemma_cubic_adds_to_fan(
    s: FillState,
    p: Point,
    control_a: TwipsPoint,
    control_b: TwipsPoint,
    anchor: TwipsPoint,
    n: nat,
)
    requires
        fan_is_interior(s),
        s.vertices.len() + n <= u32::MAX,
    ensures
        ({
            let t = cubic_steps(s, control_a, control_b, anchor, n);
            &&& fan_is_interior(t)
            &&& curves_cover(t, p, t.indices.len() / 3) == curves_cover(
                s,
                p,
                s.indices.len() / 3,
            )
        }),
    decreases n,
{
    if n > 0 {
        let m = (n - 1) as nat;
        lemma_cubic_adds_to_fan(s, p, control_a, control_b, anchor, m);
        lemma_cubic_grows(s, control_a, control_b, anchor, m);
        lemma_on_curve_adds_to_fan(
            cubic_steps(s, control_a, control_b, anchor, m),
            p,
            crate::path::cubic_at(cubic_start(s), control_a, control_b, anchor, n as int),
            cubic_steps(s, control_a, control_b, anchor, n),
        );
    }
}

/// The curve edge triangles of a path fill its bulges.
proof fn lemma_curves(cmds: Seq<DrawCommand>, p: Point, colored: bool)
    requires
        fill_fits(cmds),
    ensures
        ({
            let s = fill_geometry(cmds, colored);
            &&& fan_is_interior(s)
            &&& (s.prev is Some) == (arrived_at(cmds) is Some)
            &&& arrived_at(cmds) matches Some(at) ==> s.cursor == at
            &&& curves_cover(s, p, s.indices.len() / 3) == bulges_contain(cmds, p)
        }),
    decreases cmds.len(),
{
    if cmds.len() > 0 {
        assert(cmds.take(cmds.len() - 1) == cmds.drop_last());
        lemma_prefix_grows(cmds, cmds.len() - 1);
        lemma_curves(cmds.drop_last(), p, colored);
        lemma_fill_valid(cmds, colored);
        color_does_not_change_the_structure(cmds);
        let s = fill_geometry(cmds.drop_last(), colored);
        let t = fill_geometry(cmds, colored);
        let n = s.indices.len() / 3;
        match cmds.last() {
            DrawCommand::MoveTo(_) => {
                lemma_curves_stable(s, t, p, n);
            },
            DrawCommand::LineTo(q) => {
                lemma_on_curve_adds_to_fan(s, p, Point::spec_from_twips(q), t);
            },
            DrawCommand::QuadraticCurveTo { control, anchor } => {
                let to = Point::spec_from_twips(anchor);
                if s.prev is Some {
                    let u = FillState {
                        prev: Some(s.vertices.len() as int),
                        ..on_curve(s, to)
                    };
                    lemma_on_curve_adds_to_fan(s, p, to, u);
                    let m = u.indices.len() / 3;
                    lemma_curves_stable(u, t, p, m);
                    let k = u.indices.len() as int;
                    let v = u.vertices.len() as int;
                    assert(t.indices[k] == v && t.indices[k + 1] == v + 1 && t.indices[k + 2] == v
                        + 2);
                    assert(t.indices.len() / 3 == m + 1);
                    assert(t.vertices[v].fill_type == 1);
                    curve_triangle_fills_the_bulge(
                        p,
                        Point::spec_from_twips(s.cursor),
                        Point::spec_from_twips(control),
                        to,
                    );
                    if let Some(i) = s.origin {
                        assert(t.vertices[i] == u.vertices[i]);
                    }
                } else {
                    lemma_on_curve_adds_to_fan(s, p, to, t);
                }
            },
            DrawCommand::CubicCurveTo { control_a, control_b, anchor } => {
                if s.prev is Some {
                    let u = cubic_steps(s, control_a, control_b, anchor, 16);
                    lemma_cubic_grows(s, control_a, control_b, anchor, 16);
                    lemma_cubic_adds_to_fan(s, p, control_a, control_b, anchor, 16);
                    lemma_curves_stable(u, t, p, u.indices.len() / 3);
                }
            },
        }
    } else {
        assert(fill_geometry(cmds, colored).indices.len() / 3 == 0);
    }
}

/// The fan triangles and the curve edge triangles of a path together cover, by the
/// even-odd rule, exactly what the path encloses.
pub proof fn fill_is_exact(cmds: Seq<DrawCommand>, p: Point, colored: bool)
    requires
        fill_fits(cmds),
    ensures
        ({
            let s = fill_geometry(cmds, colored);
            covers(s, p, s.indices.len() / 3) == path_encloses(cmds, p, colored)
        }),
{
    let s = fill_geometry(cmds, colored);
    lemma_fan_and_curves(s, p, s.indices.len() / 3);
    lemma_curves(cmds, p, colored);
    fan_fills_the_polygon(cmds, p, colored);
}

} // verus!
