use std::collections::HashMap;
use wgpu_bezier::commands::BitmapHandle;
use wgpu_bezier::fill::{
    build_fill_geometry_color, build_fill_geometry_tex, check_fill,
};
use wgpu_bezier::geometry::{Color, Point, Ratio, TwipsPoint};
use wgpu_bezier::gradient::{
    FixedMatrix, Gradient, GradientInterpolation, GradientRecord, GradientSpread,
};
use wgpu_bezier::mesh::{
    bitmap_ids, build_analytic_quad_tex, build_fill_draw, build_mesh, build_stroke_draw,
    check_shape, stroke_half_width, DistilledShape, DrawPath, DrawType, FillStyle, LineStyle,
    Vertices,
};
use wgpu_bezier::path::{cubic_point, quadratic_point, DrawCommand, FillRule};
use wgpu_bezier::rounding::read_back_twips;
use wgpu_bezier::segments::{collect_quadratic_segments, GpuQuadraticSegment};
use wgpu_bezier::stroke::{
    check_measured, expand_strokes, flatten_commands_to_polylines, join_bends, Bend, JoinMeasure,
    LineCapStyle, LineJoinStyle, StrokeShape,
};
use wgpu_bezier::vertex::{
    cap_arc_turn, normal_turn, AnalyticParams, BezierTexVertex, Bounds, Direction, Offset,
    Position, Side, Uv,
};

const UNIT: i64 = 8192;

fn tw(x: i32, y: i32) -> TwipsPoint {
    TwipsPoint { x, y }
}

fn at(x: i64, y: i64) -> Point {
    Point { x: x * UNIT, y: y * UNIT }
}

fn move_to(x: i32, y: i32) -> DrawCommand {
    DrawCommand::MoveTo(tw(x, y))
}

fn line_to(x: i32, y: i32) -> DrawCommand {
    DrawCommand::LineTo(tw(x, y))
}

fn curve_to(cx: i32, cy: i32, x: i32, y: i32) -> DrawCommand {
    DrawCommand::QuadraticCurveTo { control: tw(cx, cy), anchor: tw(x, y) }
}

fn cubic_to(a: (i32, i32), b: (i32, i32), c: (i32, i32)) -> DrawCommand {
    DrawCommand::CubicCurveTo { control_a: tw(a.0, a.1), control_b: tw(b.0, b.1), anchor: tw(c.0, c.1) }
}

fn vertex(point: Point, u_halves: u8, v_halves: u8, fill_type: i32) -> BezierTexVertex {
    BezierTexVertex {
        position: Position { point, offset: Offset::Zero },
        uv: Uv { u_halves, v_halves },
        fill_type,
    }
}

fn white() -> Color {
    Color { r: 255, g: 255, b: 255, a: 255 }
}

// ---- Curves ----

#[test]
fn curve_points_are_exact() {
    let (p0, c, a) = (tw(0, 0), tw(10, 20), tw(20, 0));
    assert_eq!(quadratic_point(p0, c, a, 0), at(0, 0));
    assert_eq!(quadratic_point(p0, c, a, 8), at(10, 10));
    assert_eq!(quadratic_point(p0, c, a, 16), at(20, 0));
    // A sixteenth of the way: (2 * 15 * 10 + 20) / 256 and 2 * 15 * 20 / 256.
    assert_eq!(quadratic_point(p0, c, a, 1), Point { x: 32 * 320, y: 32 * 600 });
    let (ca, cb) = (tw(0, 30), tw(30, 30));
    assert_eq!(cubic_point(p0, ca, cb, tw(30, 0), 0), at(0, 0));
    assert_eq!(cubic_point(p0, ca, cb, tw(30, 0), 8), Point { x: 15 * UNIT, y: 22 * UNIT + UNIT / 2 });
    assert_eq!(cubic_point(p0, ca, cb, tw(30, 0), 16), at(30, 0));
    assert_eq!(
        cubic_point(p0, ca, cb, tw(30, 0), 1),
        Point { x: 2 * (3 * 15 * 30 + 30), y: 2 * (3 * 225 * 30 + 3 * 15 * 30) }
    );
}

#[test]
fn extreme_curves_do_not_overflow() {
    let (lo, hi) = (tw(i32::MIN, i32::MIN), tw(i32::MAX, i32::MAX));
    for i in 0..=16 {
        quadratic_point(lo, hi, lo, i);
        cubic_point(hi, hi, lo, hi, i);
    }
    assert_eq!(cubic_point(lo, lo, lo, lo, 5), at(i32::MIN as i64, i32::MIN as i64));
}

// ---- Fills ----

#[test]
fn polygons_become_fans() {
    let commands = vec![move_to(0, 0), line_to(20, 0), line_to(20, 20), line_to(0, 20)];
    assert!(check_fill(&commands));
    let (vertices, indices) = build_fill_geometry_tex(&commands);
    assert_eq!(
        vertices,
        vec![
            vertex(at(0, 0), 0, 0, 0),
            vertex(at(20, 0), 0, 0, 0),
            vertex(at(20, 20), 0, 0, 0),
            vertex(at(0, 20), 0, 0, 0),
        ]
    );
    assert_eq!(indices, vec![0, 1, 2, 0, 2, 3]);
}

#[test]
fn curves_add_a_loop_blinn_triangle() {
    let commands = vec![move_to(0, 0), line_to(40, 0), curve_to(60, 20, 40, 40)];
    let (vertices, indices) = build_fill_geometry_tex(&commands);
    assert_eq!(
        vertices,
        vec![
            vertex(at(0, 0), 0, 0, 0),
            vertex(at(40, 0), 0, 0, 0),
            vertex(at(40, 40), 0, 0, 0),
            vertex(at(40, 0), 0, 0, 1),
            vertex(at(60, 20), 1, 0, 1),
            vertex(at(40, 40), 2, 2, 1),
        ]
    );
    assert_eq!(indices, vec![0, 1, 2, 3, 4, 5]);
}

#[test]
fn curves_right_after_a_move_have_no_fan_triangle() {
    let (vertices, indices) =
        build_fill_geometry_tex(&vec![move_to(0, 0), curve_to(10, 10, 20, 0), line_to(10, -10)]);
    assert_eq!(vertices.len(), 6);
    // The fan goes on from the curve's end.
    assert_eq!(indices, vec![2, 3, 4, 0, 1, 5]);
}

#[test]
fn paths_without_a_start_have_no_fans() {
    let (vertices, indices) =
        build_fill_geometry_tex(&vec![curve_to(1, 1, 2, 2), line_to(10, 0), curve_to(5, 5, 0, 9)]);
    assert_eq!(vertices.len(), 6);
    assert_eq!(indices, vec![3, 4, 5]);
    assert_eq!(vertices[3], vertex(at(10, 0), 0, 0, 1));
    let (vertices, indices) = build_fill_geometry_tex(&vec![cubic_to((1, 1), (2, 2), (3, 3))]);
    assert!(vertices.is_empty() && indices.is_empty());
}

#[test]
fn cubics_are_subdivided() {
    let commands = vec![move_to(0, 0), cubic_to((0, 30), (30, 30), (30, 0))];
    let (vertices, indices) = build_fill_geometry_tex(&commands);
    assert_eq!(vertices.len(), 17);
    assert_eq!(indices.len(), 15 * 3);
    assert_eq!(vertices[8], vertex(Point { x: 15 * UNIT, y: 22 * UNIT + UNIT / 2 }, 0, 0, 0));
    assert_eq!(vertices[16], vertex(at(30, 0), 0, 0, 0));
    assert_eq!(&indices[..6], &[0, 1, 2, 0, 2, 3]);
}

#[test]
fn subpaths_have_their_own_fans() {
    let commands = vec![
        move_to(0, 0),
        line_to(1, 0),
        line_to(1, 1),
        move_to(5, 5),
        line_to(6, 5),
        line_to(6, 6),
    ];
    let (_, indices) = build_fill_geometry_tex(&commands);
    assert_eq!(indices, vec![0, 1, 2, 3, 4, 5]);
}

#[test]
fn color_fills_have_the_same_geometry() {
    let commands = vec![move_to(0, 0), line_to(40, 0), curve_to(60, 20, 40, 40)];
    let color = Color { r: 1, g: 2, b: 3, a: 4 };
    let (tex, tex_indices) = build_fill_geometry_tex(&commands);
    let (colored, indices) = build_fill_geometry_color(&commands, color);
    assert_eq!(indices, tex_indices);
    assert_eq!(colored.len(), tex.len());
    for (c, t) in colored.iter().zip(&tex) {
        assert_eq!(*c, t.with_color(color));
        assert_eq!((c.position, c.uv, c.fill_type, c.color), (t.position, t.uv, t.fill_type, color));
    }
}

/// A coordinate that goes through pixels in single precision.
fn through_pixels(twips: i32) -> i32 {
    let pixels = swf::Twips::new(twips).to_pixels() as f32;
    swf::Twips::from_pixels(pixels as f64).get()
}

#[test]
fn coordinates_are_read_back_from_single_precision() {
    assert_eq!([6, 7, 9, 13, 20, -7].map(read_back_twips), [6, 6, 8, 12, 20, -6]);
    for twips in -100_000..100_000 {
        assert_eq!(read_back_twips(twips), through_pixels(twips));
    }
    // All magnitudes, with low and high bits set.
    let mut seed: u32 = 1;
    for i in 0..200_000u32 {
        seed = seed.wrapping_mul(1664525).wrapping_add(1013904223);
        let twips = (seed as i32) >> (i % 31);
        assert_eq!(read_back_twips(twips), through_pixels(twips));
    }
    for power in 0..31 {
        for offset in -3..=3 {
            let twips = (1i32 << power).wrapping_add(offset);
            assert_eq!(read_back_twips(twips), through_pixels(twips));
        }
    }
    for twips in [i32::MIN, i32::MIN + 1, i32::MAX, i32::MAX - 1, 0] {
        assert_eq!(read_back_twips(twips), through_pixels(twips));
    }
    assert_eq!(read_back_twips(i32::MAX), i32::MAX);
    assert_eq!(read_back_twips(i32::MIN), i32::MIN);
}

#[test]
fn colored_cubics_start_where_their_vertex_was_stored() {
    let commands = vec![move_to(0, 0), line_to(7, 9), cubic_to((0, 30), (30, 30), (30, 0))];
    let (tex, tex_indices) = build_fill_geometry_tex(&commands);
    let (colored, indices) = build_fill_geometry_color(&commands, white());
    assert_eq!(indices, tex_indices);
    // The vertex itself stays, and so does the end of the curve.
    assert_eq!(colored[1], tex[1].with_color(white()));
    assert_eq!(colored[17], tex[17].with_color(white()));
    for i in 1..=16 {
        let at = |x, y| cubic_point(tw(x, y), tw(0, 30), tw(30, 30), tw(30, 0), i);
        assert_eq!(tex[1 + i as usize].position.point, at(7, 9));
        assert_eq!(colored[1 + i as usize].position.point, at(6, 8));
    }
    // A draw in a solid color has the colored geometry.
    let fill = |style| {
        build_fill_draw(&commands, FillRule::EvenOdd, &style, &HashMap::new(), false).unwrap()
    };
    match fill(FillStyle::Color(white())).vertices {
        Vertices::Color(v) => assert_eq!(v, colored),
        Vertices::Tex(_) => panic!("a colored draw"),
    }
}

fn crosses(p: (f64, f64), a: (f64, f64), b: (f64, f64)) -> bool {
    (a.1 <= p.1) != (b.1 <= p.1) && p.0 < a.0 + (p.1 - a.1) * (b.0 - a.0) / (b.1 - a.1)
}

#[test]
fn fans_fill_by_the_even_odd_rule() {
    // A self-intersecting star with a hole next to it.
    let star = [(0, -100), (60, 80), (-95, -30), (95, -30), (-60, 80)];
    let hole = [(-20, -10), (25, -12), (22, 31), (-19, 28)];
    let mut commands = Vec::new();
    for ring in [&star[..], &hole[..]] {
        commands.push(move_to(ring[0].0, ring[0].1));
        commands.extend(ring[1..].iter().map(|p| line_to(p.0, p.1)));
    }
    let (vertices, indices) = build_fill_geometry_tex(&commands);
    let corner = |i: u32| {
        let p = vertices[i as usize].position.point;
        (p.x as f64 / UNIT as f64, p.y as f64 / UNIT as f64)
    };
    for x in -20..20 {
        for y in -20..20 {
            let p = (x as f64 * 5.0 + 0.31, y as f64 * 5.0 + 0.17);
            let mut inside = false;
            for ring in [&star[..], &hole[..]] {
                for i in 0..ring.len() {
                    let (a, b) = (ring[i], ring[(i + 1) % ring.len()]);
                    inside ^= crosses(p, (a.0 as f64, a.1 as f64), (b.0 as f64, b.1 as f64));
                }
            }
            let mut covered = false;
            for t in indices.chunks(3) {
                let (a, b, c) = (corner(t[0]), corner(t[1]), corner(t[2]));
                covered ^= crosses(p, a, b) ^ crosses(p, b, c) ^ crosses(p, c, a);
            }
            assert_eq!(covered, inside);
        }
    }
}

type Xy = (f64, f64);

/// The corners of each triangle, and whether it is at the edge of a curve.
fn triangles(commands: &Vec<DrawCommand>) -> Vec<([Xy; 3], bool)> {
    let (vertices, indices) = build_fill_geometry_tex(commands);
    let corner = |i: u32| {
        let p = vertices[i as usize].position.point;
        (p.x as f64 / UNIT as f64, p.y as f64 / UNIT as f64)
    };
    indices
        .chunks(3)
        .map(|t| {
            ([corner(t[0]), corner(t[1]), corner(t[2])], vertices[t[0] as usize].fill_type == 1)
        })
        .collect()
}

/// `u² - v` at a point of a curve triangle.
fn curve_value(p: Xy, [a, b, c]: [Xy; 3]) -> f64 {
    let cross = |q: Xy, r: Xy| (q.0 - p.0) * (r.1 - p.1) - (q.1 - p.1) * (r.0 - p.0);
    let (w0, w1, w2) = (cross(b, c), cross(c, a), cross(a, b));
    let area = w0 + w1 + w2;
    let u = (0.5 * w1 + w2) / area;
    u * u - w2 / area
}

#[test]
fn curved_fills_are_exact() {
    // A blob that bulges in and out, and a curved hole.
    let rings: [&[(i32, i32, i32, i32)]; 2] = [
        &[(120, -150, 100, 0), (30, 40, 80, 90), (-20, 160, -70, 70), (20, 0, -60, -80)],
        &[(10, 40, 30, -20), (0, -60, -20, -30)],
    ];
    let starts = [(-60, -80), (-20, -30)];
    let mut commands = Vec::new();
    let mut outline: Vec<(Xy, Xy)> = Vec::new();
    for (ring, start) in rings.iter().zip(starts) {
        commands.push(move_to(start.0, start.1));
        let mut from = (start.0 as f64, start.1 as f64);
        for &(cx, cy, x, y) in ring.iter() {
            commands.push(curve_to(cx, cy, x, y));
            let (control, to) = ((cx as f64, cy as f64), (x as f64, y as f64));
            let at = |t: f64| {
                let (a, b, c) = ((1.0 - t) * (1.0 - t), 2.0 * t * (1.0 - t), t * t);
                (a * from.0 + b * control.0 + c * to.0, a * from.1 + b * control.1 + c * to.1)
            };
            for i in 0..500 {
                outline.push((at(i as f64 / 500.0), at((i + 1) as f64 / 500.0)));
            }
            from = to;
        }
    }
    let all = triangles(&commands);
    let (mut inside_count, mut outside_count) = (0, 0);
    for x in -30..30 {
        for y in -30..30 {
            let p = (x as f64 * 5.0 + 0.37, y as f64 * 5.0 + 0.21);
            let inside = outline.iter().filter(|(a, b)| crosses(p, *a, *b)).count() % 2 == 1;
            let mut covered = false;
            for (corners, is_curve) in &all {
                let [a, b, c] = *corners;
                let enclosed = crosses(p, a, b) ^ crosses(p, b, c) ^ crosses(p, c, a);
                covered ^= enclosed && (!is_curve || curve_value(p, *corners) < 0.0);
            }
            assert_eq!(covered, inside, "at {:?}", p);
            if inside {
                inside_count += 1;
            } else {
                outside_count += 1;
            }
        }
    }
    assert!(inside_count > 100 && outside_count > 100);
}

// ---- Analytic segments ----

fn segment(start: Point, control: Point, end: Point) -> GpuQuadraticSegment {
    GpuQuadraticSegment { start, control, end }
}

#[test]
fn lines_become_segments_with_their_midpoint() {
    let (segments, bounds) = collect_quadratic_segments(&vec![
        move_to(0, 0),
        line_to(3, 5),
        curve_to(40, -7, 20, 1),
    ]);
    assert_eq!(
        segments,
        vec![
            segment(at(0, 0), Point { x: 12288, y: 20480 }, at(3, 5)),
            segment(at(3, 5), at(40, -7), at(20, 1)),
            segment(at(20, 1), Point { x: 10 * UNIT, y: 4096 }, at(0, 0)),
        ]
    );
    assert_eq!(
        bounds,
        Bounds { min_x: 0, min_y: -7 * UNIT, max_x: 40 * UNIT, max_y: 5 * UNIT }
    );
}

#[test]
fn every_subpath_is_closed() {
    let (segments, _) = collect_quadratic_segments(&vec![
        move_to(-5, 0),
        line_to(-5, -9),
        move_to(10, 10),
        line_to(20, 10),
        line_to(10, 10),
    ]);
    assert_eq!(segments.len(), 4);
    assert_eq!(segments[1], segment(at(-5, -9), Point { x: -5 * UNIT, y: -36864 }, at(-5, 0)));
    let dx: i64 = segments.iter().map(|s| s.end.x - s.start.x).sum();
    let dy: i64 = segments.iter().map(|s| s.end.y - s.start.y).sum();
    assert_eq!((dx, dy), (0, 0));
}

#[test]
fn paths_without_points_have_empty_bounds() {
    let empty = Bounds { min_x: 0, min_y: 0, max_x: 0, max_y: 0 };
    let (segments, bounds) = collect_quadratic_segments(&vec![]);
    assert!(segments.is_empty());
    assert_eq!(bounds, empty);
    // Steps before the first move draw nothing.
    let (segments, bounds) =
        collect_quadratic_segments(&vec![line_to(9, 9), curve_to(1, 1, 2, 2)]);
    assert!(segments.is_empty());
    assert_eq!(bounds, empty);
    let (segments, bounds) = collect_quadratic_segments(&vec![move_to(7, 8)]);
    assert!(segments.is_empty());
    assert_eq!(bounds.min_x, 7 * UNIT);
    assert_eq!(bounds.max_y, 8 * UNIT);
}

#[test]
fn cubic_segments_stay_in_bounds() {
    let (segments, b) =
        collect_quadratic_segments(&vec![move_to(0, 0), cubic_to((0, 31), (33, 30), (30, 0))]);
    assert_eq!(segments.len(), 17);
    for s in &segments {
        for p in [s.start, s.control, s.end] {
            assert!(b.min_x <= p.x && p.x <= b.max_x && b.min_y <= p.y && p.y <= b.max_y);
        }
    }
    assert_eq!(segments[15].end, at(30, 0));
    assert_eq!(segments[16].end, at(0, 0));
}

// ---- Strokes ----

fn shape(is_closed: bool, cap: LineCapStyle, join_style: LineJoinStyle) -> StrokeShape {
    StrokeShape { is_closed, start_cap: cap, end_cap: cap, join_style }
}

fn measure(miter_fits: bool, arc_steps: u32) -> JoinMeasure {
    JoinMeasure { negligible: false, miter_fits, arc_steps }
}

fn off(point: Point, offset: Offset) -> BezierTexVertex {
    BezierTexVertex {
        position: Position { point, offset },
        uv: Uv { u_halves: 0, v_halves: 0 },
        fill_type: 0,
    }
}

fn normal(direction: Direction, side: Side) -> Offset {
    Offset::Normal { direction, side }
}

#[test]
fn paths_flatten_to_polylines() {
    let paths = flatten_commands_to_polylines(&vec![
        move_to(1, 1),
        move_to(0, 0),
        line_to(10, 0),
        curve_to(20, 0, 20, 10),
        move_to(50, 50),
        move_to(5, 5),
        line_to(6, 6),
    ]);
    assert_eq!(paths.len(), 2);
    assert_eq!(paths[0].len(), 18);
    assert_eq!(paths[0][0], at(0, 0));
    assert_eq!(paths[0][1], at(10, 0));
    assert_eq!(paths[0][9], Point { x: 17 * UNIT + UNIT / 2, y: 2 * UNIT + UNIT / 2 });
    assert_eq!(paths[0][17], at(20, 10));
    assert_eq!(paths[1], vec![at(5, 5), at(6, 6)]);
}

#[test]
fn curves_without_a_start_begin_at_the_origin() {
    let paths = flatten_commands_to_polylines(&vec![curve_to(16, 0, 32, 0)]);
    assert_eq!(paths.len(), 1);
    assert_eq!(paths[0].len(), 16);
    assert_eq!(paths[0][0], at(2, 0));
    let paths = flatten_commands_to_polylines(&vec![cubic_to((0, 30), (30, 30), (30, 0))]);
    assert_eq!(paths[0][7], Point { x: 15 * UNIT, y: 22 * UNIT + UNIT / 2 });
    assert!(flatten_commands_to_polylines(&vec![line_to(1, 1)]).is_empty());
}

#[test]
fn a_segment_becomes_a_rectangle() {
    let paths = vec![vec![at(0, 0), at(10, 0)]];
    let s = shape(false, LineCapStyle::Butt, LineJoinStyle::Bevel);
    let (vertices, indices) = expand_strokes(&paths, &s, &vec![vec![]]).unwrap();
    let d = Direction { dx: 10 * UNIT, dy: 0 };
    assert_eq!(
        vertices,
        vec![
            off(at(0, 0), normal(d, Side::Plus)),
            off(at(0, 0), normal(d, Side::Minus)),
            off(at(10, 0), normal(d, Side::Plus)),
            off(at(10, 0), normal(d, Side::Minus)),
        ]
    );
    assert_eq!(indices, vec![0, 1, 2, 1, 3, 2]);
}

#[test]
fn square_caps_extend_both_ends() {
    let paths = vec![vec![at(0, 0), at(10, 0)]];
    let s = shape(false, LineCapStyle::Square, LineJoinStyle::Bevel);
    let (vertices, indices) = expand_strokes(&paths, &s, &vec![vec![]]).unwrap();
    let d = Direction { dx: 10 * UNIT, dy: 0 };
    let corner = |side, forward| Offset::Corner { direction: d, side, forward };
    assert_eq!(
        &vertices[4..8],
        &[
            off(at(0, 0), normal(d, Side::Plus)),
            off(at(0, 0), normal(d, Side::Minus)),
            off(at(0, 0), corner(Side::Plus, false)),
            off(at(0, 0), corner(Side::Minus, false)),
        ]
    );
    assert_eq!(vertices[10], off(at(10, 0), corner(Side::Plus, true)));
    assert_eq!(&indices[6..12], &[4, 5, 6, 5, 7, 6]);
    assert_eq!(&indices[12..], &[8, 9, 10, 9, 11, 10]);
}

#[test]
fn round_caps_are_fans() {
    let paths = vec![vec![at(0, 0), at(0, 10)]];
    let s = shape(false, LineCapStyle::Round, LineJoinStyle::Bevel);
    let (vertices, indices) = expand_strokes(&paths, &s, &vec![vec![]]).unwrap();
    assert_eq!(vertices.len(), 4 + 10 + 10);
    assert_eq!(indices.len(), 6 + 24 + 24);
    let direction = Direction { dx: 0, dy: 10 * UNIT };
    assert_eq!(vertices[4], off(at(0, 0), Offset::Zero));
    let arc = |forward, step| Offset::CapArc { direction, forward, step };
    assert_eq!(vertices[5], off(at(0, 0), arc(false, 0)));
    assert_eq!(vertices[13], off(at(0, 0), arc(false, 8)));
    assert_eq!(&indices[6..12], &[4, 5, 6, 4, 6, 7]);
    assert_eq!(&indices[27..30], &[4, 12, 13]);
    assert_eq!(vertices[14], off(at(0, 10), Offset::Zero));
    assert_eq!(vertices[15], off(at(0, 10), arc(true, 0)));
    assert_eq!(vertices[23], off(at(0, 10), arc(true, 8)));
}

/// The vector of an offset, for a half-width of one.
fn vector(offset: Offset) -> (f64, f64) {
    let angle = |d: Direction, eighths: i64| {
        (d.dy as f64).atan2(d.dx as f64) + std::f64::consts::PI * eighths as f64 / 8.0
    };
    let normal_angle = |d, side| angle(d, normal_turn(side));
    match offset {
        Offset::Zero => (0.0, 0.0),
        Offset::Normal { direction, side } => {
            let a = normal_angle(direction, side);
            (a.cos(), a.sin())
        }
        Offset::CapArc { direction, forward, step } => {
            let a = angle(direction, cap_arc_turn(forward, step));
            (a.cos(), a.sin())
        }
        Offset::Miter { incoming, outgoing, side } => {
            let (a, b) = (normal_angle(incoming, side), normal_angle(outgoing, side));
            let (x, y) = (a.cos() + b.cos(), a.sin() + b.sin());
            let scale = 2.0 / (x * x + y * y);
            (x * scale, y * scale)
        }
        Offset::JoinArc { incoming, outgoing, side, step, steps } => {
            let cross = incoming.dx * outgoing.dy - incoming.dy * outgoing.dx;
            let dot = incoming.dx * outgoing.dx + incoming.dy * outgoing.dy;
            let sweep = (cross as f64).atan2(dot as f64);
            let a = normal_angle(incoming, side) + sweep * step as f64 / steps as f64;
            (a.cos(), a.sin())
        }
        Offset::Corner { direction, side, forward } => {
            let (n, d) = (normal_angle(direction, side), angle(direction, 0));
            let outward = if forward { 1.0 } else { -1.0 };
            (n.cos() + d.cos() * outward, n.sin() + d.sin() * outward)
        }
    }
}

fn near(a: (f64, f64), b: (f64, f64)) -> bool {
    (a.0 - b.0).abs() < 1e-9 && (a.1 - b.1).abs() < 1e-9
}

#[test]
fn round_caps_bulge_outward_at_both_ends() {
    let paths = vec![vec![at(0, 0), at(10, 0)]];
    let s = shape(false, LineCapStyle::Round, LineJoinStyle::Bevel);
    let (vertices, _) = expand_strokes(&paths, &s, &vec![vec![]]).unwrap();
    for (first, outward) in [(5, -1.0), (15, 1.0)] {
        let rim: Vec<(f64, f64)> =
            vertices[first..first + 9].iter().map(|v| vector(v.position.offset)).collect();
        assert!(near(rim[0], (0.0, 1.0)));
        assert!(near(rim[4], (outward, 0.0)));
        assert!(near(rim[8], (0.0, -1.0)));
        assert!(rim.iter().all(|v| v.0 * outward > -1e-9));
    }
}

#[test]
fn square_caps_reach_one_half_width_beyond_the_ends() {
    let paths = vec![vec![at(0, 0), at(10, 0)]];
    let s = shape(false, LineCapStyle::Square, LineJoinStyle::Bevel);
    let (vertices, _) = expand_strokes(&paths, &s, &vec![vec![]]).unwrap();
    for (first, outward) in [(4, -1.0), (8, 1.0)] {
        let corners: Vec<(f64, f64)> =
            vertices[first..first + 4].iter().map(|v| vector(v.position.offset)).collect();
        let expected = [(0.0, 1.0), (0.0, -1.0), (outward, 1.0), (outward, -1.0)];
        for (a, b) in corners.iter().zip(expected) {
            assert!(near(*a, b));
        }
    }
}

#[test]
fn joins_fill_the_outer_side_of_the_turn() {
    // From +x to +y the outer side is that of -y and +x.
    let turns = [(at(10, 10), 1.0), (at(10, -10), -1.0)];
    for (end, sign) in turns {
        let paths = vec![vec![at(0, 0), at(10, 0), end]];
        let corners = |style| {
            let s = shape(false, LineCapStyle::Butt, style);
            let measures = vec![vec![measure(true, 4)]];
            let (vertices, _) = expand_strokes(&paths, &s, &measures).unwrap();
            let corners: Vec<(f64, f64)> =
                vertices[8..].iter().map(|v| vector(v.position.offset)).collect();
            corners
        };
        let expect = |corners: Vec<(f64, f64)>, expected: &[(f64, f64)]| {
            assert_eq!(corners.len(), expected.len());
            for (a, b) in corners.iter().zip(expected) {
                assert!(near(*a, (b.0, b.1 * sign)));
            }
        };
        expect(
            corners(LineJoinStyle::Miter(1024)),
            &[(0.0, 0.0), (0.0, -1.0), (1.0, -1.0), (1.0, 0.0)],
        );
        expect(corners(LineJoinStyle::Bevel), &[(0.0, 0.0), (0.0, -1.0), (1.0, 0.0)]);
        let arc = |eighths: f64| {
            let a = std::f64::consts::PI * eighths / 8.0;
            (a.sin(), -a.cos())
        };
        expect(
            corners(LineJoinStyle::Round),
            &[(0.0, 0.0), arc(0.0), arc(1.0), arc(2.0), arc(3.0), arc(4.0)],
        );
    }
}

#[test]
fn polylines_are_appended_in_order() {
    let (a, b) = (vec![at(0, 0), at(10, 0), at(10, 10)], vec![at(50, 0), at(60, 0)]);
    let s = shape(false, LineCapStyle::Square, LineJoinStyle::Bevel);
    let joins = vec![vec![measure(true, 4)], vec![], vec![]];
    let only_a = expand_strokes(&vec![a.clone()], &s, &vec![joins[0].clone()]).unwrap();
    let paths = vec![a, vec![at(7, 7)], b];
    let (vertices, indices) = expand_strokes(&paths, &s, &joins).unwrap();
    assert_eq!(&vertices[..only_a.0.len()], &only_a.0[..]);
    assert_eq!(&indices[..only_a.1.len()], &only_a.1[..]);
    let v = only_a.0.len();
    let d = Direction { dx: 10 * UNIT, dy: 0 };
    assert_eq!(vertices[v], off(at(50, 0), normal(d, Side::Plus)));
    assert_eq!(vertices[v + 3], off(at(60, 0), normal(d, Side::Minus)));
    let added = &indices[only_a.1.len()..];
    assert_eq!(added.len(), 18);
    assert!(added.iter().all(|i| v <= *i as usize && (*i as usize) < vertices.len()));
}

#[test]
fn joins_follow_their_style() {
    let paths = vec![vec![at(0, 0), at(10, 0), at(10, 10)]];
    let incoming = Direction { dx: 10 * UNIT, dy: 0 };
    let outgoing = Direction { dx: 0, dy: 10 * UNIT };
    let side = Side::Minus;
    let point = at(10, 0);
    let join = |style, m| {
        let s = shape(false, LineCapStyle::Butt, style);
        let (vertices, indices) = expand_strokes(&paths, &s, &vec![vec![m]]).unwrap();
        (vertices[8..].to_vec(), indices[12..].to_vec())
    };
    let bevel = (
        vec![
            off(point, Offset::Zero),
            off(point, normal(incoming, side)),
            off(point, normal(outgoing, side)),
        ],
        vec![8, 9, 10],
    );
    assert_eq!(join(LineJoinStyle::Bevel, measure(true, 4)), bevel);
    assert_eq!(join(LineJoinStyle::Miter(768), measure(false, 4)), bevel);
    assert_eq!(
        join(LineJoinStyle::Miter(768), measure(true, 4)),
        (
            vec![
                off(point, Offset::Zero),
                off(point, normal(incoming, side)),
                off(point, Offset::Miter { incoming, outgoing, side }),
                off(point, normal(outgoing, side)),
            ],
            vec![8, 9, 10, 8, 10, 11],
        )
    );
    let (vertices, indices) = join(LineJoinStyle::Round, measure(true, 4));
    assert_eq!(vertices.len(), 6);
    assert_eq!(
        vertices[5],
        off(point, Offset::JoinArc { incoming, outgoing, side, step: 4, steps: 4 })
    );
    assert_eq!(indices, vec![8, 9, 10, 8, 10, 11, 8, 11, 12, 8, 12, 13]);
    // At least two steps.
    let (vertices, indices) = join(LineJoinStyle::Round, measure(true, 1));
    assert_eq!(vertices.len(), 4);
    assert_eq!(indices.len(), 6);
    let nothing = JoinMeasure { negligible: true, miter_fits: true, arc_steps: 4 };
    assert_eq!(join(LineJoinStyle::Round, nothing), (vec![], vec![]));
}

#[test]
fn left_turns_join_on_the_other_side() {
    let paths = vec![vec![at(0, 0), at(10, 0), at(10, -10)]];
    let s = shape(false, LineCapStyle::Butt, LineJoinStyle::Bevel);
    let (vertices, _) = expand_strokes(&paths, &s, &vec![vec![measure(true, 4)]]).unwrap();
    let incoming = Direction { dx: 10 * UNIT, dy: 0 };
    assert_eq!(vertices[9], off(at(10, 0), normal(incoming, Side::Plus)));
}

#[test]
fn straight_and_reversed_segments_have_no_join() {
    for end in [at(20, 0), at(5, 0)] {
        let paths = vec![vec![at(0, 0), at(10, 0), end]];
        let s = shape(false, LineCapStyle::Butt, LineJoinStyle::Bevel);
        let (vertices, _) = expand_strokes(&paths, &s, &vec![vec![measure(true, 4)]]).unwrap();
        assert_eq!(vertices.len(), 8);
    }
}

#[test]
fn segments_without_length_keep_the_direction() {
    let s = shape(false, LineCapStyle::Butt, LineJoinStyle::Bevel);
    let bends = join_bends(&vec![at(0, 0), at(0, 0), at(0, 5), at(0, 5), at(3, 5)], &s);
    let right = Direction { dx: 1, dy: 0 };
    let down = Direction { dx: 0, dy: 5 * UNIT };
    let last = Direction { dx: 3 * UNIT, dy: 0 };
    assert_eq!(
        bends,
        vec![
            Bend { incoming: right, outgoing: down },
            Bend { incoming: down, outgoing: down },
            Bend { incoming: down, outgoing: last },
        ]
    );
}

#[test]
fn closed_strokes_join_their_start() {
    let points = vec![at(0, 0), at(10, 0), at(10, 10), at(0, 0)];
    let s = shape(true, LineCapStyle::Round, LineJoinStyle::Bevel);
    let bends = join_bends(&points, &s);
    assert_eq!(bends.len(), 3);
    assert_eq!(bends[2].incoming, Direction { dx: -10 * UNIT, dy: -10 * UNIT });
    assert_eq!(bends[2].outgoing, Direction { dx: 10 * UNIT, dy: 0 });
    let measures = vec![vec![measure(true, 4); 3]];
    let paths = vec![points];
    assert!(check_measured(&paths, &s, &measures));
    assert!(!check_measured(&paths, &s, &vec![vec![measure(true, 4); 2]]));
    assert!(!check_measured(&paths, &s, &vec![]));
    let (vertices, indices) = expand_strokes(&paths, &s, &measures).unwrap();
    // Three rectangles and three bevels, and no caps.
    assert_eq!(vertices.len(), 12 + 9);
    assert_eq!(indices.len(), 18 + 9);
    assert_eq!(vertices[18], off(at(0, 0), Offset::Zero));
    // Which caps are asked for does not matter.
    let square = shape(true, LineCapStyle::Square, LineJoinStyle::Bevel);
    assert_eq!(expand_strokes(&paths, &square, &measures).unwrap(), (vertices, indices));
}

#[test]
fn a_closed_single_segment_keeps_its_caps() {
    let paths = vec![vec![at(0, 0), at(10, 0)]];
    let s = shape(true, LineCapStyle::Square, LineJoinStyle::Bevel);
    let (vertices, _) = expand_strokes(&paths, &s, &vec![vec![]]).unwrap();
    assert_eq!(vertices.len(), 12);
}

#[test]
fn stroke_indices_name_vertices() {
    let paths = flatten_commands_to_polylines(&vec![
        move_to(0, 0),
        curve_to(100, 0, 100, 100),
        cubic_to((100, 200), (0, 200), (0, 100)),
        move_to(7, 7),
        line_to(9, 9),
    ]);
    let s = shape(false, LineCapStyle::Round, LineJoinStyle::Round);
    let measures: Vec<Vec<JoinMeasure>> =
        paths.iter().map(|p| vec![measure(false, 3); join_bends(p, &s).len()]).collect();
    let (vertices, indices) = expand_strokes(&paths, &s, &measures).unwrap();
    assert_eq!(indices.len() % 3, 0);
    assert!(indices.iter().all(|i| (*i as usize) < vertices.len()));
}

// ---- Meshes ----

fn gradient() -> Gradient {
    Gradient {
        matrix: FixedMatrix { a: 65536, b: 0, c: 0, d: 65536, tx: 0, ty: 0 },
        spread: GradientSpread::Reflect,
        interpolation: GradientInterpolation::LinearRgb,
        records: vec![
            GradientRecord { ratio: 0, color: Color { r: 0, g: 0, b: 0, a: 255 } },
            GradientRecord { ratio: 255, color: white() },
        ],
    }
}

fn bitmap_style(id: u16) -> FillStyle {
    FillStyle::Bitmap {
        id,
        matrix: FixedMatrix { a: 65536 * 20, b: 0, c: 0, d: 65536 * 20, tx: 0, ty: 0 },
        is_smoothed: true,
        is_repeating: false,
    }
}

fn square() -> Vec<DrawCommand> {
    vec![move_to(0, 0), line_to(20, 0), line_to(20, 20), line_to(0, 20), line_to(0, 0)]
}

fn line_style(width: i32, cap: LineCapStyle, join_style: LineJoinStyle) -> LineStyle {
    LineStyle {
        width,
        fill_style: FillStyle::Color(white()),
        start_cap: cap,
        end_cap: cap,
        join_style,
    }
}

#[test]
fn hairlines_are_one_pixel_wide() {
    assert_eq!(stroke_half_width(0), 10 * UNIT);
    assert_eq!(stroke_half_width(-5), 10 * UNIT);
    assert_eq!(stroke_half_width(20), 10 * UNIT);
    assert_eq!(stroke_half_width(21), 10 * UNIT + 4096);
    assert_eq!(stroke_half_width(i32::MAX), i32::MAX as i64 * 4096);
}

#[test]
fn solid_fills_carry_their_color() {
    let draw = build_fill_draw(
        &square(),
        FillRule::NonZero,
        &FillStyle::Color(white()),
        &HashMap::new(),
        false,
    )
    .unwrap();
    assert!(matches!(draw.draw_type, DrawType::Color));
    assert!(!draw.is_stroke);
    assert_eq!(draw.fill_rule, Some(FillRule::NonZero));
    assert_eq!(draw.num_indices, 9);
    assert!(draw.analytic_params.is_none());
    match &draw.vertices {
        Vertices::Color(v) => {
            assert_eq!(v.len(), 5);
            assert!(v.iter().all(|v| v.color == white()));
        }
        _ => panic!("colored vertices"),
    }
}

#[test]
fn empty_paths_have_no_draw() {
    let none = HashMap::new();
    let color = FillStyle::Color(white());
    assert!(build_fill_draw(&vec![], FillRule::EvenOdd, &color, &none, false).is_none());
    assert!(build_fill_draw(&vec![], FillRule::EvenOdd, &color, &none, true).is_none());
    let line = vec![move_to(0, 0), line_to(9, 9)];
    assert!(build_fill_draw(&line, FillRule::EvenOdd, &color, &none, false).is_none());
    assert!(build_fill_draw(&line, FillRule::EvenOdd, &color, &none, true).is_some());
    let point = vec![move_to(0, 0)];
    assert!(build_fill_draw(&point, FillRule::EvenOdd, &color, &none, true).is_none());
    let style = line_style(20, LineCapStyle::Round, LineJoinStyle::Round);
    assert!(build_stroke_draw(&point, &style, false, &vec![], &none, false).is_none());
    assert!(build_stroke_draw(&point, &style, false, &vec![], &none, true).is_none());
}

#[test]
fn analytic_fills_draw_their_bounds() {
    let draw = build_fill_draw(
        &square(),
        FillRule::NonZero,
        &FillStyle::RadialGradient(gradient()),
        &HashMap::new(),
        true,
    )
    .unwrap();
    let bounds = Bounds { min_x: 0, min_y: 0, max_x: 20 * UNIT, max_y: 20 * UNIT };
    assert_eq!(draw.indices, vec![0, 1, 2, 0, 2, 3]);
    assert_eq!(
        draw.analytic_params,
        Some(AnalyticParams {
            bounds,
            num_segments: 4,
            mode: 0,
            fill_rule: 1,
            half_width: 0,
            cap_join_flags: 0,
        })
    );
    let fill = draw.analytic_fill.unwrap();
    assert_eq!((fill.segments.len(), fill.num_segments, fill.bounds), (4, 4, bounds));
    let (vertices, indices) = build_analytic_quad_tex(&bounds);
    assert_eq!(indices, draw.indices);
    match &draw.vertices {
        Vertices::Tex(v) => assert_eq!(*v, vertices),
        _ => panic!("textured vertices"),
    }
    assert_eq!(vertices[2], vertex(at(20, 20), 0, 0, 0));
    match draw.draw_type {
        DrawType::Gradient { fill } => {
            assert_eq!(fill.lut.len(), 256);
            assert_eq!(fill.uniforms.shape, 2);
            assert_eq!(fill.uniforms.repeat, 2);
            assert_eq!(fill.uniforms.interpolation, 1);
            assert_eq!(fill.uniforms.focal_point, Ratio { num: 0, den: 256 });
        }
        _ => panic!("a gradient"),
    }
}

#[test]
fn only_round_strokes_are_analytic() {
    let none = HashMap::new();
    let round = line_style(40, LineCapStyle::Round, LineJoinStyle::Round);
    let draw = build_stroke_draw(&square(), &round, true, &vec![], &none, true).unwrap();
    let grown = Bounds {
        min_x: -20 * UNIT,
        min_y: -20 * UNIT,
        max_x: 40 * UNIT,
        max_y: 40 * UNIT,
    };
    assert!(draw.is_stroke && draw.fill_rule.is_none() && draw.analytic_fill.is_none());
    assert_eq!(draw.half_width, 20 * UNIT);
    assert_eq!(
        draw.analytic_params,
        Some(AnalyticParams {
            bounds: grown,
            num_segments: 4,
            mode: 1,
            fill_rule: 0,
            half_width: 20 * UNIT,
            cap_join_flags: 0,
        })
    );
    let stroke = draw.analytic_stroke.unwrap();
    assert!(stroke.is_closed);
    assert_eq!(stroke.start_cap, LineCapStyle::Round);

    let square_cap = line_style(40, LineCapStyle::Square, LineJoinStyle::Round);
    let joins = vec![vec![measure(true, 4); 3]];
    let draw = build_stroke_draw(&square(), &square_cap, false, &joins, &none, true).unwrap();
    assert!(draw.analytic_stroke.is_none() && draw.analytic_params.is_none());
    // Four rectangles, three round joins and two square caps.
    assert_eq!(draw.num_indices, 4 * 6 + 3 * 12 + 2 * 6);
}

#[test]
fn bitmap_fills_need_their_bitmap() {
    let mut handles = HashMap::new();
    let style = bitmap_style(3);
    assert!(build_fill_draw(&square(), FillRule::EvenOdd, &style, &handles, false).is_none());
    handles.insert(3, BitmapHandle { key: 77, width: 10, height: 5 });
    let draw =
        build_fill_draw(&square(), FillRule::EvenOdd, &style, &handles, false).unwrap();
    match draw.draw_type {
        DrawType::Bitmap { fill } => {
            assert_eq!(fill.bitmap.key, 77);
            assert!(fill.is_smoothed && !fill.is_repeating);
            let m = fill.texture_transforms.u_matrix;
            let value = |r: Ratio| r.num as f64 / r.den as f64;
            assert_eq!(value(m[0][0]), 0.1);
            assert_eq!(value(m[1][1]), 0.2);
            assert_eq!(value(m[3][3]), 1.0);
        }
        _ => panic!("a bitmap"),
    }
}

#[test]
fn meshes_keep_the_order_of_paths() {
    let shape = DistilledShape {
        paths: vec![
            DrawPath::Fill {
                style: bitmap_style(1),
                commands: square(),
                winding_rule: FillRule::EvenOdd,
            },
            DrawPath::Fill {
                style: FillStyle::FocalGradient { gradient: gradient(), focal_point: 300 },
                commands: square(),
                winding_rule: FillRule::EvenOdd,
            },
            DrawPath::Stroke {
                style: LineStyle {
                    fill_style: bitmap_style(2),
                    ..line_style(0, LineCapStyle::Butt, LineJoinStyle::Bevel)
                },
                commands: vec![move_to(0, 0), line_to(9, 0)],
                is_closed: false,
                joins: vec![vec![]],
            },
        ],
    };
    assert!(check_shape(&shape, false));
    assert_eq!(bitmap_ids(&shape), vec![1, 2]);
    let mut handles = HashMap::new();
    let mesh = build_mesh(12, &shape, &handles, false);
    assert_eq!(mesh.id, 12);
    assert_eq!(mesh.draws.len(), 1);
    match &mesh.draws[0].draw_type {
        DrawType::Gradient { fill } => {
            assert_eq!(fill.uniforms.focal_point, Ratio { num: 98, den: 100 });
            assert_eq!(fill.uniforms.shape, 3);
        }
        _ => panic!("the gradient"),
    }
    handles.insert(1, BitmapHandle { key: 1, width: 1, height: 1 });
    handles.insert(2, BitmapHandle { key: 2, width: 1, height: 1 });
    let mesh = build_mesh(12, &shape, &handles, false);
    let strokes: Vec<bool> = mesh.draws.iter().map(|d| d.is_stroke).collect();
    assert_eq!(strokes, vec![false, false, true]);
}

#[test]
fn unmeasured_strokes_are_found() {
    let stroke = |joins| DistilledShape {
        paths: vec![DrawPath::Stroke {
            style: line_style(20, LineCapStyle::Round, LineJoinStyle::Round),
            commands: square(),
            is_closed: false,
            joins,
        }],
    };
    assert!(!check_shape(&stroke(vec![]), false));
    assert!(check_shape(&stroke(vec![]), true));
    assert!(check_shape(&stroke(vec![vec![measure(true, 4); 3]]), false));
    assert!(!check_shape(&stroke(vec![vec![measure(true, u32::MAX); 3]]), false));
}

#[test]
fn index_contents_are_native_bytes() {
    let draw = build_fill_draw(
        &square(),
        FillRule::EvenOdd,
        &FillStyle::Color(white()),
        &HashMap::new(),
        false,
    )
    .unwrap();
    let mut expected = Vec::new();
    for i in &draw.indices {
        expected.extend(i.to_ne_bytes());
    }
    assert_eq!(draw.index_contents(), &expected[..]);
    assert_eq!(draw.index_contents().len(), 36);
}

#[test]
fn segments_form_closed_contours_in_the_least_box() {
    let (segments, bounds) = collect_quadratic_segments(&vec![
        line_to(-100, -100),
        move_to(0, 0),
        line_to(10, 0),
        cubic_to((10, 5), (5, 10), (0, 10)),
        move_to(40, 40),
        curve_to(60, 20, 50, 50),
        move_to(20, 80),
    ]);
    // Two lines, sixteen lines of a cubic curve, a quadratic curve and its closing line.
    assert_eq!(segments.len(), 20);
    for contour in [&segments[..18], &segments[18..]] {
        assert_eq!(contour[0].start, contour[contour.len() - 1].end);
        for pair in contour.windows(2) {
            assert_eq!(pair[0].end, pair[1].start);
        }
    }
    assert_eq!(segments[18].start, at(40, 40));
    assert_eq!(
        bounds,
        Bounds { min_x: 0, min_y: 0, max_x: 60 * UNIT, max_y: 80 * UNIT }
    );
}

#[test]
fn paint_does_not_change_the_geometry_of_strokes() {
    let commands = vec![move_to(0, 0), line_to(100, 0), line_to(100, 100)];
    let joins = vec![vec![measure(true, 4)]];
    let handles = HashMap::from([(3, BitmapHandle { key: 1, width: 8, height: 8 })]);
    let draw = |fill_style| {
        let style = LineStyle {
            width: 40,
            start_cap: LineCapStyle::Round,
            end_cap: LineCapStyle::Square,
            join_style: LineJoinStyle::Miter(768),
            fill_style,
        };
        build_stroke_draw(&commands, &style, false, &joins, &handles, false).unwrap()
    };
    let color = draw(FillStyle::Color(white()));
    let bitmap = draw(FillStyle::Bitmap {
        id: 3,
        matrix: FixedMatrix { a: 65536, b: 0, c: 0, d: 65536, tx: 0, ty: 0 },
        is_smoothed: true,
        is_repeating: false,
    });
    assert_eq!(color.indices, bitmap.indices);
    match (color.vertices, bitmap.vertices) {
        (Vertices::Color(c), Vertices::Tex(t)) => {
            assert_eq!(c.len(), t.len());
            for (c, t) in c.iter().zip(&t) {
                assert_eq!(*c, t.with_color(white()));
            }
        }
        _ => panic!("one colored and one textured draw"),
    }
}
