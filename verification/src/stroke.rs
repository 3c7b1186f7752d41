//! Stroke geometry: quads for the segments of a flattened path, joins between
//! them and caps at their ends.
//!
//! Where a vertex lies off the path is given by an [`Offset`]: a direction and how
//! to leave it. Turning a direction into a unit vector or an angle is left to the
//! place where vertices are rounded for the GPU, and so is the measuring of a
//! join that depends on it ([`JoinMeasure`]).
use crate::geometry::{Point, TwipsPoint};
use crate::path::{
    cubic_at, cubic_point, cubic_points_lie_on_the_curve, is_at, is_on_cubic, is_on_quadratic,
    last_point, path_coord, quadratic_at, quadratic_point, quadratic_points_lie_on_the_curve,
    DrawCommand,
};
use crate::vertex::{
    offset_vector, side_normal, BezierTexVertex, Direction, Offset, Position, Side, Uv,
};
use vstd::prelude::*;

verus! {

/// Number of segments used to approximate a round cap, or a round join that turns by
/// as much.
pub const ROUND_CAP_SEGMENTS: u32 = 8;

/// The shape of a stroke's ends.
#[derive(Clone, Copy, PartialEq, Eq, Structural, Debug)]
pub enum LineCapStyle {
    Round,
    /// The stroke ends with its last segment.
    Butt,
    Square,
}

/// The shape of a stroke's corners.
#[derive(Clone, Copy, PartialEq, Eq, Structural, Debug)]
pub enum LineJoinStyle {
    Round,
    Bevel,
    /// A miter that may be as long as this many half-widths, in 8.8 fixed point.
    Miter(i16),
}

/// What has been measured of a join between two directions.
#[derive(Clone, Copy, PartialEq, Eq, Structural, Debug)]
pub struct JoinMeasure {
    /// The directions are too nearly parallel for a join to show.
    pub negligible: bool,
    /// A miter would stay within its limit.
    pub miter_fits: bool,
    /// How many eighths of a half turn the arc of a round join takes, rounded up.
    pub arc_steps: u32,
}

// ---- Flattening ----

/// A path as polylines: those that are done, the points of the current one, and
/// where it has arrived.
pub ghost struct Flattened {
    pub done: Seq<Seq<Point>>,
    pub points: Seq<Point>,
    pub cursor: TwipsPoint,
}

/// The points of a quadratic curve after its start.
pub open spec fn quadratic_points(
    start: TwipsPoint,
    control: TwipsPoint,
    anchor: TwipsPoint,
) -> Seq<Point> {
    Seq::new(16, |i: int| quadratic_at(start, control, anchor, i + 1))
}

/// The points of a cubic curve after its start.
pub open spec fn cubic_points(
    start: TwipsPoint,
    control_a: TwipsPoint,
    control_b: TwipsPoint,
    anchor: TwipsPoint,
) -> Seq<Point> {
    Seq::new(16, |i: int| cubic_at(start, control_a, control_b, anchor, i + 1))
}

/// Ends the current polyline. One with less than two points is dropped.
pub open spec fn end_polyline(s: Flattened) -> Seq<Seq<Point>> {
    if s.points.len() >= 2 {
        s.done.push(s.points)
    } else {
        s.done
    }
}

/// Appends one step of the path.
pub open spec fn flatten_step(s: Flattened, cmd: DrawCommand) -> Flattened {
    match cmd {
        DrawCommand::MoveTo(p) => Flattened {
            done: end_polyline(s),
            points: seq![Point::spec_from_twips(p)],
            cursor: p,
        },
        DrawCommand::LineTo(p) => Flattened {
            points: s.points.push(Point::spec_from_twips(p)),
            cursor: p,
            ..s
        },
        DrawCommand::QuadraticCurveTo { control, anchor } => Flattened {
            points: s.points + quadratic_points(s.cursor, control, anchor),
            cursor: anchor,
            ..s
        },
        DrawCommand::CubicCurveTo { control_a, control_b, anchor } => Flattened {
            points: s.points + cubic_points(s.cursor, control_a, control_b, anchor),
            cursor: anchor,
            ..s
        },
    }
}

/// A path as polylines, the last of them not yet ended. A path that does not begin
/// with a MoveTo begins at the origin.
pub open spec fn flatten(cmds: Seq<DrawCommand>) -> Flattened
    decreases cmds.len(),
{
    if cmds.len() == 0 {
        Flattened { done: seq![], points: seq![], cursor: TwipsPoint { x: 0, y: 0 } }
    } else {
        flatten_step(flatten(cmds.drop_last()), cmds.last())
    }
}

/// A path as polylines.
pub open spec fn polylines(cmds: Seq<DrawCommand>) -> Seq<Seq<Point>> {
    end_polyline(flatten(cmds))
}

/// The contents of nested vectors.
pub open spec fn nested<T>(v: Seq<Vec<T>>) -> Seq<Seq<T>> {
    v.map_values(|inner: Vec<T>| inner@)
}

/// Whether all points lie where a path can lie.
pub open spec fn in_range(points: Seq<Point>) -> bool {
    forall|i: int|
        0 <= i < points.len() ==> path_coord((#[trigger] points[i]).x as int) && path_coord(
            points[i].y as int,
        )
}

/// Appends the points of a quadratic curve.
fn push_quadratic(
    start: TwipsPoint,
    control: TwipsPoint,
    anchor: TwipsPoint,
    points: &mut Vec<Point>,
)
    requires
        in_range(old(points)@),
    ensures
        in_range(final(points)@),
        final(points)@ == old(points)@ + quadratic_points(start, control, anchor),
{
    let ghost before = points@;
    let mut i: u32 = 1;
    while i <= 16
        invariant
            1 <= i <= 17,
            in_range(points@),
            points@ == before + quadratic_points(start, control, anchor).take(i - 1),
        decreases 17 - i,
    {
        let p = quadratic_point(start, control, anchor, i);
        points.push(p);
        assert(quadratic_points(start, control, anchor).take(i as int) == quadratic_points(
            start,
            control,
            anchor,
        ).take(i - 1).push(p));
        i += 1;
    }
    assert(quadratic_points(start, control, anchor).take(16) == quadratic_points(
        start,
        control,
        anchor,
    ));
}

/// Appends the points of a cubic curve.
fn push_cubic(
    start: TwipsPoint,
    control_a: TwipsPoint,
    control_b: TwipsPoint,
    anchor: TwipsPoint,
    points: &mut Vec<Point>,
)
    requires
        in_range(old(points)@),
    ensures
        in_range(final(points)@),
        final(points)@ == old(points)@ + cubic_points(start, control_a, control_b, anchor),
{
    let ghost before = points@;
    let ghost all = cubic_points(start, control_a, control_b, anchor);
    let mut i: u32 = 1;
    while i <= 16
        invariant
            1 <= i <= 17,
            all == cubic_points(start, control_a, control_b, anchor),
            in_range(points@),
            points@ == before + all.take(i - 1),
        decreases 17 - i,
    {
        let p = cubic_point(start, control_a, control_b, anchor, i);
        points.push(p);
        assert(all.take(i as int) == all.take(i - 1).push(p));
        i += 1;
    }
    assert(all.take(16) == all);
}

/// Flatten draw commands into polyline sub-paths.
pub fn flatten_commands_to_polylines(commands: &Vec<DrawCommand>) -> (r: Vec<Vec<Point>>)
    ensures
        nested(r@) == polylines(commands@),
        forall|i: int| 0 <= i < r@.len() ==> (#[trigger] r@[i])@.len() >= 2 && in_range(r@[i]@),
{
    let mut done: Vec<Vec<Point>> = Vec::new();
    let mut points: Vec<Point> = Vec::new();
    let mut cursor = TwipsPoint { x: 0, y: 0 };
    let mut i: usize = 0;
    proof {
        assert(commands@.take(0) == Seq::<DrawCommand>::empty());
        assert(nested(done@) == flatten(commands@.take(0)).done);
    }
    while i < commands.len()
        invariant
            i <= commands.len(),
            nested(done@) == flatten(commands@.take(i as int)).done,
            points@ == flatten(commands@.take(i as int)).points,
            cursor == flatten(commands@.take(i as int)).cursor,
            in_range(points@),
            forall|j: int|
                0 <= j < done@.len() ==> (#[trigger] done@[j])@.len() >= 2 && in_range(done@[j]@),
        decreases commands.len() - i,
    {
        assert(commands@.take(i + 1).drop_last() == commands@.take(i as int));
        match &commands[i] {
            DrawCommand::MoveTo(point) => {
                let ghost before = done@;
                if points.len() >= 2 {
                    done.push(points);
                    assert(nested(done@) == nested(before).push(points@));
                }
                points = Vec::new();
                points.push(Point::from_twips(*point));
                cursor = *point;
                assert(points@ == seq![Point::spec_from_twips(*point)]);
            },
            DrawCommand::LineTo(point) => {
                points.push(Point::from_twips(*point));
                cursor = *point;
            },
            DrawCommand::QuadraticCurveTo { control, anchor } => {
                push_quadratic(cursor, *control, *anchor, &mut points);
                cursor = *anchor;
            },
            DrawCommand::CubicCurveTo { control_a, control_b, anchor } => {
                push_cubic(cursor, *control_a, *control_b, *anchor, &mut points);
                cursor = *anchor;
            },
        }
        i += 1;
    }
    assert(commands@.take(i as int) == commands@);
    if points.len() >= 2 {
        let ghost before = done@;
        done.push(points);
        assert(nested(done@) == nested(before).push(points@));
    }
    done
}

// ---- Directions ----

/// The direction of the segment from point `i` of a polyline. A segment without
/// length has the direction of the one before it; the first one that of the x
/// axis.
pub open spec fn direction_of(points: Seq<Point>, i: int) -> Direction
    decreases i,
{
    if points[i] != points[i + 1] {
        Direction {
            dx: (points[i + 1].x - points[i].x) as i64,
            dy: (points[i + 1].y - points[i].y) as i64,
        }
    } else if i <= 0 {
        Direction { dx: 1, dy: 0 }
    } else {
        direction_of(points, i - 1)
    }
}

/// The directions of all segments of a polyline.
pub open spec fn directions_of(points: Seq<Point>) -> Seq<Direction> {
    Seq::new((points.len() - 1) as nat, |i: int| direction_of(points, i))
}

/// Whether the components of a direction can be multiplied.
pub open spec fn direction_in_range(d: Direction) -> bool {
    -0x20_0000_0000_0000 <= d.dx <= 0x20_0000_0000_0000 && -0x20_0000_0000_0000 <= d.dy
        <= 0x20_0000_0000_0000
}

/// The directions of all segments of a polyline.
fn segment_directions(points: &Vec<Point>) -> (r: Vec<Direction>)
    requires
        points@.len() >= 2,
        in_range(points@),
    ensures
        r@ == directions_of(points@),
        forall|i: int| 0 <= i < r@.len() ==> direction_in_range(#[trigger] r@[i]),
{
    let mut directions: Vec<Direction> = Vec::new();
    let mut last = Direction { dx: 1, dy: 0 };
    let mut i: usize = 0;
    while i < points.len() - 1
        invariant
            points@.len() >= 2,
            i < points.len(),
            in_range(points@),
            directions@ == directions_of(points@).take(i as int),
            direction_in_range(last),
            i == 0 ==> last == (Direction { dx: 1, dy: 0 }),
            i > 0 ==> last == direction_of(points@, i - 1),
            forall|j: int|
                0 <= j < directions@.len() ==> direction_in_range(#[trigger] directions@[j]),
        decreases points.len() - i,
    {
        let (p0, p1) = (points[i], points[i + 1]);
        assert(points@[i as int] == p0 && points@[i + 1] == p1);
        if p0 != p1 {
            last = Direction { dx: p1.x - p0.x, dy: p1.y - p0.y };
        }
        directions.push(last);
        assert(directions_of(points@).take(i + 1) == directions_of(points@).take(i as int).push(
            last,
        ));
        i += 1;
    }
    assert(directions_of(points@).take(i as int) == directions_of(points@));
    directions
}

/// The side on which a join between two directions lies, the outer one of the turn:
/// away from the normals, where the path turns from x towards y. None where the
/// directions are parallel.
pub open spec fn bend_side(incoming: Direction, outgoing: Direction) -> Option<Side> {
    let cross = incoming.dx * outgoing.dy - incoming.dy * outgoing.dx;
    if cross > 0 {
        Some(Side::Minus)
    } else if cross < 0 {
        Some(Side::Plus)
    } else {
        None
    }
}

/// The side on which a join lies.
fn side_of_bend(incoming: Direction, outgoing: Direction) -> (r: Option<Side>)
    requires
        direction_in_range(incoming),
        direction_in_range(outgoing),
    ensures
        r == bend_side(incoming, outgoing),
{
    proof {
        lemma_product(incoming.dx as int, outgoing.dy as int);
        lemma_product(incoming.dy as int, outgoing.dx as int);
    }
    let cross: i128 = incoming.dx as i128 * outgoing.dy as i128 - incoming.dy as i128
        * outgoing.dx as i128;
    if cross > 0 {
        Some(Side::Minus)
    } else if cross < 0 {
        Some(Side::Plus)
    } else {
        None
    }
}

/// The product of the lengths of two vectors and the cosine of the angle between them.
pub open spec fn dot(a: (int, int), b: (int, int)) -> int {
    a.0 * b.0 + a.1 * b.1
}

/// A join lies on the outer side of the turn: there the normal of the incoming
/// segment points away from where the path goes on, and the normal of the outgoing
/// segment away from where the path came from. Directions that are not parallel have
/// such a side.
pub proof fn joins_lie_on_the_outer_side(incoming: Direction, outgoing: Direction)
    ensures
        bend_side(incoming, outgoing) is None <==> incoming.dx * outgoing.dy == incoming.dy
            * outgoing.dx,
        bend_side(incoming, outgoing) matches Some(side) ==> {
            &&& dot(side_normal(incoming, side), (outgoing.dx as int, outgoing.dy as int)) < 0
            &&& dot(side_normal(outgoing, side), (incoming.dx as int, incoming.dy as int)) > 0
        },
{
    let (a, b) = (incoming, outgoing);
    assert((-a.dy) * b.dx == -(a.dy * b.dx)) by (nonlinear_arith);
    assert((-a.dx) * b.dy == -(a.dx * b.dy)) by (nonlinear_arith);
    assert((-b.dy) * a.dx == -(a.dx * b.dy)) by (nonlinear_arith);
    assert((-b.dx) * a.dy == -(a.dy * b.dx)) by (nonlinear_arith);
    assert(b.dy * a.dx == a.dx * b.dy) by (nonlinear_arith);
    assert(b.dx * a.dy == a.dy * b.dx) by (nonlinear_arith);
}

proof fn lemma_product(a: int, b: int)
    requires
        -0x20_0000_0000_0000 <= a <= 0x20_0000_0000_0000,
        -0x20_0000_0000_0000 <= b <= 0x20_0000_0000_0000,
    ensures
        -0x400_0000_0000_0000_0000_0000_0000 <= a * b <= 0x400_0000_0000_0000_0000_0000_0000,
{
    let m = 0x20_0000_0000_0000int;
    assert(-(m * m) <= a * b <= m * m) by (nonlinear_arith)
        requires
            -m <= a <= m,
            -m <= b <= m,
    ;
    assert(m * m == 0x400_0000_0000_0000_0000_0000_0000int) by (nonlinear_arith)
        requires
            m == 0x20_0000_0000_0000int,
    ;
}

// ---- Pieces ----

/// A part of a stroke: vertices, and triangles that name them by their position in
/// the part.
pub ghost struct PieceView {
    pub vertices: Seq<BezierTexVertex>,
    pub indices: Seq<u32>,
}

/// A part of a stroke.
struct Piece {
    vertices: Vec<BezierTexVertex>,
    indices: Vec<u32>,
}

impl View for Piece {
    type V = PieceView;

    closed spec fn view(&self) -> PieceView {
        PieceView { vertices: self.vertices@, indices: self.indices@ }
    }
}

/// A vertex of a stroke.
pub open spec fn stroke_vertex(point: Point, offset: Offset) -> BezierTexVertex {
    BezierTexVertex {
        position: Position { point, offset },
        uv: Uv { u_halves: 0, v_halves: 0 },
        fill_type: 0,
    }
}

/// A part without triangles.
pub open spec fn no_piece() -> PieceView {
    PieceView { vertices: seq![], indices: seq![] }
}

/// The rectangle of one segment.
pub open spec fn segment_piece(p0: Point, p1: Point, direction: Direction) -> PieceView {
    let plus = Offset::Normal { direction, side: Side::Plus };
    let minus = Offset::Normal { direction, side: Side::Minus };
    PieceView {
        vertices: seq![
            stroke_vertex(p0, plus),
            stroke_vertex(p0, minus),
            stroke_vertex(p1, plus),
            stroke_vertex(p1, minus),
        ],
        indices: seq![0, 1, 2, 1, 3, 2],
    }
}

/// A fan of `steps` triangles around a vertex.
pub open spec fn fan_indices(steps: nat) -> Seq<u32> {
    Seq::new(
        3 * steps,
        |k: int|
            if k % 3 == 0 {
                0u32
            } else if k % 3 == 1 {
                (k / 3 + 1) as u32
            } else {
                (k / 3 + 2) as u32
            },
    )
}

/// The triangle between the outer corners of two segments.
pub open spec fn bevel_piece(
    point: Point,
    incoming: Direction,
    outgoing: Direction,
    side: Side,
) -> PieceView {
    PieceView {
        vertices: seq![
            stroke_vertex(point, Offset::Zero),
            stroke_vertex(point, Offset::Normal { direction: incoming, side }),
            stroke_vertex(point, Offset::Normal { direction: outgoing, side }),
        ],
        indices: seq![0, 1, 2],
    }
}

/// The two triangles up to where the outer edges of two segments meet.
pub open spec fn miter_piece(
    point: Point,
    incoming: Direction,
    outgoing: Direction,
    side: Side,
) -> PieceView {
    PieceView {
        vertices: seq![
            stroke_vertex(point, Offset::Zero),
            stroke_vertex(point, Offset::Normal { direction: incoming, side }),
            stroke_vertex(point, Offset::Miter { incoming, outgoing, side }),
            stroke_vertex(point, Offset::Normal { direction: outgoing, side }),
        ],
        indices: seq![0, 1, 2, 0, 2, 3],
    }
}

/// An arc fan between the outer normals of two segments.
pub open spec fn round_join_piece(
    point: Point,
    incoming: Direction,
    outgoing: Direction,
    side: Side,
    steps: u32,
) -> PieceView {
    PieceView {
        vertices: seq![stroke_vertex(point, Offset::Zero)] + Seq::new(
            (steps + 1) as nat,
            |i: int|
                stroke_vertex(
                    point,
                    Offset::JoinArc { incoming, outgoing, side, step: i as u32, steps },
                ),
        ),
        indices: fan_indices(steps as nat),
    }
}

/// The join where two segments meet.
pub open spec fn join_piece(
    point: Point,
    incoming: Direction,
    outgoing: Direction,
    style: LineJoinStyle,
    measure: JoinMeasure,
) -> PieceView {
    match bend_side(incoming, outgoing) {
        Some(side) if !measure.negligible => match style {
            LineJoinStyle::Miter(_) => if measure.miter_fits {
                miter_piece(point, incoming, outgoing, side)
            } else {
                bevel_piece(point, incoming, outgoing, side)
            },
            LineJoinStyle::Bevel => bevel_piece(point, incoming, outgoing, side),
            LineJoinStyle::Round => round_join_piece(
                point,
                incoming,
                outgoing,
                side,
                if measure.arc_steps < 2 {
                    2
                } else {
                    measure.arc_steps
                },
            ),
        },
        _ => no_piece(),
    }
}

/// The cap at an end of a stroke; the direction of the stroke points outward there
/// (`forward`) or inward.
pub open spec fn cap_piece(
    point: Point,
    direction: Direction,
    forward: bool,
    style: LineCapStyle,
) -> PieceView {
    match style {
        LineCapStyle::Butt => no_piece(),
        LineCapStyle::Square => PieceView {
            vertices: seq![
                stroke_vertex(point, Offset::Normal { direction, side: Side::Plus }),
                stroke_vertex(point, Offset::Normal { direction, side: Side::Minus }),
                stroke_vertex(point, Offset::Corner { direction, side: Side::Plus, forward }),
                stroke_vertex(point, Offset::Corner { direction, side: Side::Minus, forward }),
            ],
            indices: seq![0, 1, 2, 1, 3, 2],
        },
        LineCapStyle::Round => PieceView {
            vertices: seq![stroke_vertex(point, Offset::Zero)] + Seq::new(
                9,
                |i: int|
                    stroke_vertex(point, Offset::CapArc { direction, forward, step: i as u32 }),
            ),
            indices: fan_indices(8),
        },
    }
}

/// How a stroke is drawn.
#[derive(Clone, Copy, PartialEq, Eq, Structural, Debug)]
pub struct StrokeShape {
    pub is_closed: bool,
    pub start_cap: LineCapStyle,
    pub end_cap: LineCapStyle,
    pub join_style: LineJoinStyle,
}

/// Whether a polyline ends in a join with its beginning instead of two caps.
pub open spec fn joins_its_start(points: Seq<Point>, shape: StrokeShape) -> bool {
    shape.is_closed && points.len() >= 3
}

/// How many joins a polyline has.
pub open spec fn join_count(points: Seq<Point>, shape: StrokeShape) -> int {
    if points.len() < 2 {
        0
    } else if joins_its_start(points, shape) {
        points.len() - 1
    } else {
        points.len() - 2
    }
}

/// The parts of a polyline's stroke: a rectangle for each segment, a join for each
/// point between two segments, and at the end a closing join or two caps.
pub open spec fn stroke_pieces(
    points: Seq<Point>,
    shape: StrokeShape,
    measures: Seq<JoinMeasure>,
) -> Seq<PieceView> {
    if points.len() < 2 {
        seq![]
    } else {
        let d = directions_of(points);
        let n = d.len() as int;
        Seq::new(n as nat, |i: int| segment_piece(points[i], points[i + 1], d[i])) + Seq::new(
            (n - 1) as nat,
            |i: int| join_piece(points[i + 1], d[i], d[i + 1], shape.join_style, measures[i]),
        ) + if joins_its_start(points, shape) {
            seq![join_piece(points.last(), d.last(), d[0], shape.join_style, measures[n - 1])]
        } else {
            seq![
                cap_piece(points[0], d[0], false, shape.start_cap),
                cap_piece(points.last(), d.last(), true, shape.end_cap),
            ]
        }
    }
}

/// Appends a part to a geometry.
pub open spec fn append(g: PieceView, piece: PieceView) -> PieceView {
    PieceView {
        vertices: g.vertices + piece.vertices,
        indices: g.indices + piece.indices.map_values(|i: u32| (g.vertices.len() + i) as u32),
    }
}

/// Appends parts to a geometry, in order.
pub open spec fn append_all(g: PieceView, pieces: Seq<PieceView>) -> PieceView
    decreases pieces.len(),
{
    if pieces.len() == 0 {
        g
    } else {
        append(append_all(g, pieces.drop_last()), pieces.last())
    }
}

/// The stroke geometry of polylines.
pub open spec fn stroke_geometry(
    paths: Seq<Seq<Point>>,
    shape: StrokeShape,
    measures: Seq<Seq<JoinMeasure>>,
) -> PieceView
    decreases paths.len(),
{
    if paths.len() == 0 {
        no_piece()
    } else {
        append_all(
            stroke_geometry(paths.drop_last(), shape, measures),
            stroke_pieces(paths.last(), shape, measures[paths.len() - 1]),
        )
    }
}

/// Whether all vertices of a geometry can be named by a 32-bit index, and its
/// indices counted in 32 bits.
pub open spec fn geometry_fits(g: PieceView) -> bool {
    g.vertices.len() <= u32::MAX && g.indices.len() <= u32::MAX
}

/// Whether every join has been measured.
pub open spec fn all_measured(
    paths: Seq<Seq<Point>>,
    shape: StrokeShape,
    measures: Seq<Seq<JoinMeasure>>,
) -> bool {
    &&& measures.len() == paths.len()
    &&& forall|i: int|
        0 <= i < paths.len() ==> (#[trigger] measures[i]).len() == join_count(paths[i], shape)
}

// ---- Building ----

/// Whether the triangles of a part name vertices of that part.
pub open spec fn piece_wf(piece: PieceView) -> bool {
    &&& piece.indices.len() % 3 == 0
    &&& forall|i: int|
        0 <= i < piece.indices.len() ==> #[trigger] piece.indices[i] < piece.vertices.len()
}

/// A vertex of a stroke.
fn vertex_off(point: Point, offset: Offset) -> (r: BezierTexVertex)
    ensures
        r == stroke_vertex(point, offset),
{
    BezierTexVertex {
        position: Position { point, offset },
        uv: Uv { u_halves: 0, v_halves: 0 },
        fill_type: 0,
    }
}

/// The triangles of a fan.
fn build_fan_indices(steps: u32) -> (r: Vec<u32>)
    requires
        steps <= u32::MAX - 2,
    ensures
        r@ == fan_indices(steps as nat),
{
    let mut indices: Vec<u32> = Vec::new();
    let mut i: u32 = 0;
    while i < steps
        invariant
            i <= steps <= u32::MAX - 2,
            indices@ == fan_indices(i as nat),
        decreases steps - i,
    {
        let ghost before = indices@;
        indices.push(0);
        indices.push(i + 1);
        indices.push(i + 2);
        assert(indices@ =~= fan_indices((i + 1) as nat)) by {
            assert forall|k: int| 0 <= k < 3 * i + 3 implies indices@[k] == fan_indices(
                (i + 1) as nat,
            )[k] by {
                if k < 3 * i {
                    assert(indices@[k] == before[k]);
                    assert(before[k] == fan_indices(i as nat)[k]);
                } else {
                    assert(k / 3 == i);
                }
            }
        }
        i += 1;
    }
    indices
}

proof fn lemma_fan_wf(steps: nat)
    requires
        steps + 2 <= u32::MAX,
    ensures
        fan_indices(steps).len() == 3 * steps,
        forall|k: int|
            0 <= k < fan_indices(steps).len() ==> #[trigger] fan_indices(steps)[k] < steps + 2,
{
    assert forall|k: int| 0 <= k < fan_indices(steps).len() implies #[trigger] fan_indices(steps)[k]
        < steps + 2 by {
        assert(k / 3 < steps);
    }
}

/// The rectangle of one segment.
fn build_segment(p0: Point, p1: Point, direction: Direction) -> (r: Piece)
    ensures
        r@ == segment_piece(p0, p1, direction),
        piece_wf(r@),
{
    let plus = Offset::Normal { direction, side: Side::Plus };
    let minus = Offset::Normal { direction, side: Side::Minus };
    let r = Piece {
        vertices: vec![
            vertex_off(p0, plus),
            vertex_off(p0, minus),
            vertex_off(p1, plus),
            vertex_off(p1, minus),
        ],
        indices: vec![0, 1, 2, 1, 3, 2],
    };
    assert(r.vertices@ == segment_piece(p0, p1, direction).vertices);
    assert(r.indices@ == segment_piece(p0, p1, direction).indices);
    r
}

/// The triangle between the outer corners of two segments.
fn build_bevel(point: Point, incoming: Direction, outgoing: Direction, side: Side) -> (r: Piece)
    ensures
        r@ == bevel_piece(point, incoming, outgoing, side),
        piece_wf(r@),
{
    let r = Piece {
        vertices: vec![
            vertex_off(point, Offset::Zero),
            vertex_off(point, Offset::Normal { direction: incoming, side }),
            vertex_off(point, Offset::Normal { direction: outgoing, side }),
        ],
        indices: vec![0, 1, 2],
    };
    assert(r.vertices@ == bevel_piece(point, incoming, outgoing, side).vertices);
    assert(r.indices@ == bevel_piece(point, incoming, outgoing, side).indices);
    r
}

/// The two triangles of a miter.
fn build_miter(point: Point, incoming: Direction, outgoing: Direction, side: Side) -> (r: Piece)
    ensures
        r@ == miter_piece(point, incoming, outgoing, side),
        piece_wf(r@),
{
    let r = Piece {
        vertices: vec![
            vertex_off(point, Offset::Zero),
            vertex_off(point, Offset::Normal { direction: incoming, side }),
            vertex_off(point, Offset::Miter { incoming, outgoing, side }),
            vertex_off(point, Offset::Normal { direction: outgoing, side }),
        ],
        indices: vec![0, 1, 2, 0, 2, 3],
    };
    assert(r.vertices@ == miter_piece(point, incoming, outgoing, side).vertices);
    assert(r.indices@ == miter_piece(point, incoming, outgoing, side).indices);
    r
}

/// The arc fan of a round join.
fn build_round_join(
    point: Point,
    incoming: Direction,
    outgoing: Direction,
    side: Side,
    steps: u32,
) -> (r: Piece)
    requires
        steps <= u32::MAX - 2,
    ensures
        r@ == round_join_piece(point, incoming, outgoing, side, steps),
        piece_wf(r@),
{
    let ghost goal = round_join_piece(point, incoming, outgoing, side, steps);
    let mut vertices: Vec<BezierTexVertex> = Vec::new();
    vertices.push(vertex_off(point, Offset::Zero));
    let mut i: u32 = 0;
    while i <= steps
        invariant
            i <= steps + 1,
            steps <= u32::MAX - 2,
            goal == round_join_piece(point, incoming, outgoing, side, steps),
            vertices@ == goal.vertices.take(i + 1),
        decreases steps + 1 - i,
    {
        let v = vertex_off(
            point,
            Offset::JoinArc { incoming, outgoing, side, step: i, steps },
        );
        vertices.push(v);
        assert(goal.vertices[i + 1] == v);
        assert(goal.vertices.take(i + 2) == goal.vertices.take(i + 1).push(v));
        i += 1;
    }
    proof {
        lemma_fan_wf(steps as nat);
        assert(goal.vertices.take(steps + 2) == goal.vertices);
    }
    Piece { vertices, indices: build_fan_indices(steps) }
}

/// The join where two segments meet.
fn build_join(
    point: Point,
    incoming: Direction,
    outgoing: Direction,
    style: LineJoinStyle,
    measure: &JoinMeasure,
) -> (r: Option<Piece>)
    requires
        direction_in_range(incoming),
        direction_in_range(outgoing),
    ensures
        match r {
            Some(piece) => piece@ == join_piece(point, incoming, outgoing, style, *measure)
                && piece_wf(piece@),
            None => !geometry_fits(join_piece(point, incoming, outgoing, style, *measure)),
        },
{
    let side = match side_of_bend(incoming, outgoing) {
        Some(side) => side,
        None => {
            // Segments are parallel, no join needed.
            return Some(Piece { vertices: Vec::new(), indices: Vec::new() });
        },
    };
    if measure.negligible {
        return Some(Piece { vertices: Vec::new(), indices: Vec::new() });
    }
    match style {
        LineJoinStyle::Miter(_) => {
            if measure.miter_fits {
                Some(build_miter(point, incoming, outgoing, side))
            } else {
                // Miter limit exceeded: fall back to bevel.
                Some(build_bevel(point, incoming, outgoing, side))
            }
        },
        LineJoinStyle::Bevel => Some(build_bevel(point, incoming, outgoing, side)),
        LineJoinStyle::Round => {
            let steps: u32 = if measure.arc_steps < 2 {
                2
            } else {
                measure.arc_steps
            };
            if steps > u32::MAX - 2 {
                return None;
            }
            Some(build_round_join(point, incoming, outgoing, side, steps))
        },
    }
}

/// The cap at an end of a stroke.
fn build_cap(point: Point, direction: Direction, forward: bool, style: LineCapStyle) -> (r: Piece)
    ensures
        r@ == cap_piece(point, direction, forward, style),
        piece_wf(r@),
{
    let ghost goal = cap_piece(point, direction, forward, style);
    match style {
        LineCapStyle::Butt => {
            let r = Piece { vertices: Vec::new(), indices: Vec::new() };
            assert(r.vertices@ == goal.vertices);
            assert(r.indices@ == goal.indices);
            r
        },
        LineCapStyle::Square => {
            // Extend the stroke by half its width.
            let r = Piece {
                vertices: vec![
                    vertex_off(point, Offset::Normal { direction, side: Side::Plus }),
                    vertex_off(point, Offset::Normal { direction, side: Side::Minus }),
                    vertex_off(point, Offset::Corner { direction, side: Side::Plus, forward }),
                    vertex_off(point, Offset::Corner { direction, side: Side::Minus, forward }),
                ],
                indices: vec![0, 1, 2, 1, 3, 2],
            };
            assert(r.vertices@ == goal.vertices);
            assert(r.indices@ == goal.indices);
            r
        },
        LineCapStyle::Round => {
            // Semicircle fan at the endpoint.
            let mut vertices: Vec<BezierTexVertex> = Vec::new();
            vertices.push(vertex_off(point, Offset::Zero));
            let mut i: u32 = 0;
            while i <= ROUND_CAP_SEGMENTS
                invariant
                    i <= 9,
                    style is Round,
                    goal == cap_piece(point, direction, forward, style),
                    vertices@ == goal.vertices.take(i + 1),
                decreases 9 - i,
            {
                let v = vertex_off(point, Offset::CapArc { direction, forward, step: i });
                vertices.push(v);
                assert(goal.vertices[i + 1] == v);
                assert(goal.vertices.take(i + 2) == goal.vertices.take(i + 1).push(v));
                i += 1;
            }
            proof {
                lemma_fan_wf(8);
                assert(goal.vertices.take(10) == goal.vertices);
            }
            Piece { vertices, indices: build_fan_indices(ROUND_CAP_SEGMENTS) }
        },
    }
}

/// Appends a part, if the geometry then still fits.
fn append_piece(g: &mut Piece, piece: &Piece) -> (fits: bool)
    requires
        piece_wf(piece@),
        geometry_fits(old(g)@),
    ensures
        fits == geometry_fits(append(old(g)@, piece@)),
        fits ==> final(g)@ == append(old(g)@, piece@),
{
    let ghost before = g@;
    let ghost goal = append(before, piece@);
    if piece.vertices.len() as u64 > u32::MAX as u64 - g.vertices.len() as u64
        || piece.indices.len() as u64 > u32::MAX as u64 - g.indices.len() as u64 {
        return false;
    }
    let base: u32 = g.vertices.len() as u32;
    let mut i: usize = 0;
    while i < piece.vertices.len()
        invariant
            i <= piece.vertices@.len(),
            goal == append(before, piece@),
            g.vertices@ == goal.vertices.take(before.vertices.len() + i),
            g.indices@ == before.indices,
        decreases piece.vertices.len() - i,
    {
        g.vertices.push(piece.vertices[i]);
        let ghost n = before.vertices.len() + i;
        assert(goal.vertices[n as int] == piece.vertices@[i as int]);
        assert(goal.vertices.take(n + 1) == goal.vertices.take(n as int).push(
            piece.vertices@[i as int],
        ));
        i += 1;
    }
    let mut j: usize = 0;
    while j < piece.indices.len()
        invariant
            j <= piece.indices@.len(),
            goal == append(before, piece@),
            base == before.vertices.len(),
            base + piece.vertices@.len() <= u32::MAX,
            piece_wf(piece@),
            g.vertices@ == goal.vertices.take(before.vertices.len() + i),
            i == piece.vertices@.len(),
            g.indices@ == goal.indices.take(before.indices.len() + j),
        decreases piece.indices.len() - j,
    {
        assert(piece@.indices[j as int] < piece@.vertices.len());
        let index: u32 = base + piece.indices[j];
        g.indices.push(index);
        let ghost n = before.indices.len() + j;
        assert(goal.indices[n as int] == index);
        assert(goal.indices.take(n + 1) == goal.indices.take(n as int).push(index));
        j += 1;
    }
    proof {
        assert(goal.vertices.take(before.vertices.len() + i) == goal.vertices);
        assert(goal.indices.take(before.indices.len() + j) == goal.indices);
        assert(g@ == goal);
    }
    true
}

/// Appending never shrinks a geometry.
proof fn lemma_append_grows(g: PieceView, pieces: Seq<PieceView>, n: int)
    requires
        0 <= n <= pieces.len(),
    ensures
        geometry_fits(append_all(g, pieces)) ==> geometry_fits(append_all(g, pieces.take(n))),
        append_all(g, pieces).vertices.len() >= g.vertices.len(),
        append_all(g, pieces).indices.len() >= g.indices.len(),
    decreases pieces.len(),
{
    if n < pieces.len() {
        lemma_append_grows(g, pieces.drop_last(), n);
        assert(pieces.drop_last().take(n) == pieces.take(n));
    } else {
        assert(pieces.take(n) == pieces);
        if pieces.len() > 0 {
            lemma_append_grows(g, pieces.drop_last(), n - 1);
        }
    }
}

/// Appends the part at position `n` of a sequence of parts.
fn append_next(
    g: &mut Piece,
    piece: &Piece,
    Ghost(start): Ghost<PieceView>,
    Ghost(pieces): Ghost<Seq<PieceView>>,
    Ghost(n): Ghost<int>,
) -> (fits: bool)
    requires
        0 <= n < pieces.len(),
        piece_wf(piece@),
        piece@ == pieces[n],
        geometry_fits(old(g)@),
        old(g)@ == append_all(start, pieces.take(n)),
    ensures
        fits ==> geometry_fits(final(g)@) && final(g)@ == append_all(start, pieces.take(n + 1)),
        !fits ==> !geometry_fits(append_all(start, pieces)),
{
    proof {
        assert(pieces.take(n + 1).drop_last() == pieces.take(n));
        lemma_append_grows(start, pieces, n + 1);
    }
    append_piece(g, piece)
}

/// Expand a polyline into a thick stroke with caps and joins, if the geometry then
/// still fits.
#[verifier::rlimit(30)]
fn expand_path(
    points: &Vec<Point>,
    shape: &StrokeShape,
    measures: &Vec<JoinMeasure>,
    g: &mut Piece,
) -> (fits: bool)
    requires
        in_range(points@),
        measures@.len() == join_count(points@, *shape),
        geometry_fits(old(g)@),
    ensures
        fits == geometry_fits(append_all(old(g)@, stroke_pieces(points@, *shape, measures@))),
        fits ==> final(g)@ == append_all(old(g)@, stroke_pieces(points@, *shape, measures@)),
{
    if points.len() < 2 {
        return true;
    }
    let ghost start = g@;
    let ghost pieces = stroke_pieces(points@, *shape, measures@);
    let directions = segment_directions(points);
    let n: usize = directions.len();
    assert(pieces.take(0) == Seq::<PieceView>::empty());

    // Emit segment quads.
    let mut i: usize = 0;
    while i < n
        invariant
            points@.len() >= 2,
            n == points@.len() - 1,
            i <= n,
            directions@ == directions_of(points@),
            start == old(g)@,
            pieces == stroke_pieces(points@, *shape, measures@),
            geometry_fits(g@),
            g@ == append_all(start, pieces.take(i as int)),
        decreases n - i,
    {
        let piece = build_segment(points[i], points[i + 1], directions[i]);
        assert(pieces[i as int] == piece@);
        if !append_next(g, &piece, Ghost(start), Ghost(pieces), Ghost(i as int)) {
            return false;
        }
        i += 1;
    }

    // Emit joins at interior vertices.
    let mut j: usize = 0;
    while j < n - 1
        invariant
            points@.len() >= 2,
            n == points@.len() - 1,
            j <= n - 1,
            n - 1 <= measures@.len(),
            directions@ == directions_of(points@),
            forall|k: int| 0 <= k < n ==> direction_in_range(#[trigger] directions@[k]),
            start == old(g)@,
            pieces == stroke_pieces(points@, *shape, measures@),
            geometry_fits(g@),
            g@ == append_all(start, pieces.take(n + j)),
        decreases n - j,
    {
        let ghost goal = pieces[n + j];
        assert(goal == join_piece(
            points@[j + 1],
            directions@[j as int],
            directions@[j + 1],
            shape.join_style,
            measures@[j as int],
        ));
        let join = build_join(
            points[j + 1],
            directions[j],
            directions[j + 1],
            shape.join_style,
            &measures[j],
        );
        match join {
            Some(piece) => {
                if !append_next(g, &piece, Ghost(start), Ghost(pieces), Ghost(n + j)) {
                    return false;
                }
            },
            None => {
                proof {
                    lemma_part_too_large(start, pieces, n + j);
                }
                return false;
            },
        }
        j += 1;
    }

    let ghost m = 2 * n - 1;
    if shape.is_closed && n >= 2 {
        // Closing join between last and first segment.
        assert(pieces[m] == join_piece(
            points@.last(),
            directions@.last(),
            directions@[0],
            shape.join_style,
            measures@[n - 1],
        ));
        let join = build_join(
            points[points.len() - 1],
            directions[n - 1],
            directions[0],
            shape.join_style,
            &measures[n - 1],
        );
        match join {
            Some(piece) => {
                if !append_next(g, &piece, Ghost(start), Ghost(pieces), Ghost(m)) {
                    return false;
                }
            },
            None => {
                proof {
                    lemma_part_too_large(start, pieces, m);
                }
                return false;
            },
        }
        assert(pieces.take(m + 1) == pieces);
    } else {
        let cap0 = build_cap(points[0], directions[0], false, shape.start_cap);
        assert(pieces[m] == cap0@);
        if !append_next(g, &cap0, Ghost(start), Ghost(pieces), Ghost(m)) {
            return false;
        }
        let cap1 = build_cap(points[points.len() - 1], directions[n - 1], true, shape.end_cap);
        assert(pieces[m + 1] == cap1@);
        if !append_next(g, &cap1, Ghost(start), Ghost(pieces), Ghost(m + 1)) {
            return false;
        }
        assert(pieces.take(m + 2) == pieces);
    }
    true
}

/// A geometry with a part that does not fit does not fit.
proof fn lemma_part_too_large(g: PieceView, pieces: Seq<PieceView>, n: int)
    requires
        0 <= n < pieces.len(),
        !geometry_fits(pieces[n]),
    ensures
        !geometry_fits(append_all(g, pieces)),
{
    lemma_append_grows(g, pieces, n + 1);
    lemma_append_grows(g, pieces.take(n), 0);
    assert(pieces.take(n + 1).drop_last() == pieces.take(n));
}

/// Appending whole polylines never shrinks a geometry.
proof fn lemma_paths_grow(
    paths: Seq<Seq<Point>>,
    shape: StrokeShape,
    measures: Seq<Seq<JoinMeasure>>,
    n: int,
)
    requires
        0 <= n <= paths.len(),
    ensures
        geometry_fits(stroke_geometry(paths, shape, measures)) ==> geometry_fits(
            stroke_geometry(paths.take(n), shape, measures),
        ),
    decreases paths.len(),
{
    if n < paths.len() {
        lemma_paths_grow(paths.drop_last(), shape, measures, n);
        assert(paths.drop_last().take(n) == paths.take(n));
        lemma_append_grows(
            stroke_geometry(paths.drop_last(), shape, measures),
            stroke_pieces(paths.last(), shape, measures[paths.len() - 1]),
            0,
        );
    } else {
        assert(paths.take(n) == paths);
    }
}

/// Expand polylines into a thick stroke with caps and joins. None where its
/// vertices or indices cannot be counted in 32 bits.
pub fn expand_strokes(
    paths: &Vec<Vec<Point>>,
    shape: &StrokeShape,
    measures: &Vec<Vec<JoinMeasure>>,
) -> (r: Option<(Vec<BezierTexVertex>, Vec<u32>)>)
    requires
        forall|i: int| 0 <= i < paths@.len() ==> in_range((#[trigger] paths@[i])@),
        all_measured(nested(paths@), *shape, nested(measures@)),
    ensures
        ({
            let g = stroke_geometry(nested(paths@), *shape, nested(measures@));
            match r {
                Some((vertices, indices)) => geometry_fits(g) && vertices@ == g.vertices
                    && indices@ == g.indices,
                None => !geometry_fits(g),
            }
        }),
{
    let ghost all = nested(paths@);
    let ghost joins = nested(measures@);
    let mut g = Piece { vertices: Vec::new(), indices: Vec::new() };
    let mut i: usize = 0;
    proof {
        assert(all.take(0) == Seq::<Seq<Point>>::empty());
        assert(g@ == stroke_geometry(all.take(0), *shape, joins));
    }
    while i < paths.len()
        invariant
            i <= paths@.len(),
            all == nested(paths@),
            joins == nested(measures@),
            forall|j: int| 0 <= j < paths@.len() ==> in_range((#[trigger] paths@[j])@),
            all_measured(all, *shape, joins),
            geometry_fits(g@),
            g@ == stroke_geometry(all.take(i as int), *shape, joins),
        decreases paths.len() - i,
    {
        proof {
            assert(all.take(i + 1).drop_last() == all.take(i as int));
            assert(all[i as int] == paths@[i as int]@);
            assert(joins[i as int] == measures@[i as int]@);
            assert(joins[i as int].len() == join_count(all[i as int], *shape));
            lemma_paths_grow(all, *shape, joins, i + 1);
        }
        if !expand_path(&paths[i], shape, &measures[i], &mut g) {
            return None;
        }
        i += 1;
    }
    assert(all.take(i as int) == all);
    Some((g.vertices, g.indices))
}

/// The two directions that meet in a join.
#[derive(Clone, Copy, PartialEq, Eq, Structural, Debug)]
pub struct Bend {
    pub incoming: Direction,
    pub outgoing: Direction,
}

/// The joins of a polyline, in the order in which they are drawn.
pub open spec fn bends_of(points: Seq<Point>, shape: StrokeShape) -> Seq<Bend> {
    let d = directions_of(points);
    Seq::new(
        join_count(points, shape) as nat,
        |i: int| Bend { incoming: d[i], outgoing: if i + 1 < d.len() { d[i + 1] } else { d[0] } },
    )
}

/// The joins of a polyline, to be measured.
pub fn join_bends(points: &Vec<Point>, shape: &StrokeShape) -> (r: Vec<Bend>)
    requires
        in_range(points@),
    ensures
        r@ == bends_of(points@, *shape),
{
    let mut bends: Vec<Bend> = Vec::new();
    if points.len() < 2 {
        assert(bends@ == bends_of(points@, *shape));
        return bends;
    }
    let directions = segment_directions(points);
    let n: usize = directions.len();
    let count: usize = if shape.is_closed && n >= 2 {
        n
    } else {
        n - 1
    };
    let mut i: usize = 0;
    while i < count
        invariant
            points@.len() >= 2,
            n == points@.len() - 1,
            count == join_count(points@, *shape),
            i <= count <= n,
            directions@ == directions_of(points@),
            bends@ == bends_of(points@, *shape).take(i as int),
        decreases count - i,
    {
        let outgoing = if i + 1 < n {
            directions[i + 1]
        } else {
            directions[0]
        };
        let bend = Bend { incoming: directions[i], outgoing };
        bends.push(bend);
        assert(bends_of(points@, *shape)[i as int] == bend);
        assert(bends_of(points@, *shape).take(i + 1) == bends_of(points@, *shape).take(
            i as int,
        ).push(bend));
        i += 1;
    }
    assert(bends_of(points@, *shape).take(i as int) == bends_of(points@, *shape));
    bends
}

/// Whether every join has been measured.
pub fn check_measured(
    paths: &Vec<Vec<Point>>,
    shape: &StrokeShape,
    measures: &Vec<Vec<JoinMeasure>>,
) -> (r: bool)
    ensures
        r == all_measured(nested(paths@), *shape, nested(measures@)),
{
    let ghost all = nested(paths@);
    let ghost joins = nested(measures@);
    if measures.len() != paths.len() {
        return false;
    }
    let mut i: usize = 0;
    while i < paths.len()
        invariant
            i <= paths@.len() == measures@.len(),
            all == nested(paths@),
            joins == nested(measures@),
            forall|j: int| 0 <= j < i ==> (#[trigger] joins[j]).len() == join_count(all[j], *shape),
        decreases paths.len() - i,
    {
        assert(all[i as int] == paths@[i as int]@);
        assert(joins[i as int] == measures@[i as int]@);
        let n: usize = paths[i].len();
        let count: usize = if n < 2 {
            0
        } else if shape.is_closed && n >= 3 {
            n - 1
        } else {
            n - 2
        };
        if measures[i].len() != count {
            return false;
        }
        i += 1;
    }
    true
}

/// Every index of a stroke's geometry names one of its vertices, and every three
/// indices form a triangle.
pub proof fn stroke_indices_are_valid(
    paths: Seq<Seq<Point>>,
    shape: StrokeShape,
    measures: Seq<Seq<JoinMeasure>>,
)
    requires
        geometry_fits(stroke_geometry(paths, shape, measures)),
    ensures
        piece_wf(stroke_geometry(paths, shape, measures)),
    decreases paths.len(),
{
    if paths.len() > 0 {
        let g = stroke_geometry(paths.drop_last(), shape, measures);
        let pieces = stroke_pieces(paths.last(), shape, measures[paths.len() - 1]);
        lemma_append_grows(g, pieces, 0);
        stroke_indices_are_valid(paths.drop_last(), shape, measures);
        assert forall|i: int|
            0 <= i < pieces.len() && geometry_fits(#[trigger] pieces[i]) implies piece_wf(
            pieces[i],
        ) by {
            lemma_piece_wf(paths.last(), shape, measures[paths.len() - 1], i);
        }
        lemma_append_all_wf(g, pieces);
    }
}

proof fn lemma_piece_wf(
    points: Seq<Point>,
    shape: StrokeShape,
    measures: Seq<JoinMeasure>,
    i: int,
)
    requires
        0 <= i < stroke_pieces(points, shape, measures).len(),
        geometry_fits(stroke_pieces(points, shape, measures)[i]),
    ensures
        piece_wf(stroke_pieces(points, shape, measures)[i]),
{
    let d = directions_of(points);
    let n = d.len() as int;
    let piece = stroke_pieces(points, shape, measures)[i];
    if i < n {
        assert(piece == segment_piece(points[i], points[i + 1], d[i]));
    } else if i < 2 * n - 1 {
        let j = i - n;
        lemma_join_wf(points[j + 1], d[j], d[j + 1], shape.join_style, measures[j]);
    } else if joins_its_start(points, shape) {
        lemma_join_wf(points.last(), d.last(), d[0], shape.join_style, measures[n - 1]);
    } else {
        lemma_cap_wf(points[0], d[0], false, shape.start_cap);
        lemma_cap_wf(points.last(), d.last(), true, shape.end_cap);
    }
}

proof fn lemma_join_wf(
    point: Point,
    incoming: Direction,
    outgoing: Direction,
    style: LineJoinStyle,
    measure: JoinMeasure,
)
    requires
        geometry_fits(join_piece(point, incoming, outgoing, style, measure)),
    ensures
        piece_wf(join_piece(point, incoming, outgoing, style, measure)),
{
    let piece = join_piece(point, incoming, outgoing, style, measure);
    if style is Round && !measure.negligible && bend_side(incoming, outgoing) is Some {
        let steps: u32 = if measure.arc_steps < 2 {
            2
        } else {
            measure.arc_steps
        };
        assert(piece.vertices.len() == steps + 2);
        lemma_fan_wf(steps as nat);
    }
}

proof fn lemma_cap_wf(point: Point, direction: Direction, forward: bool, style: LineCapStyle)
    ensures
        piece_wf(cap_piece(point, direction, forward, style)),
{
    lemma_fan_wf(8);
}

proof fn lemma_append_all_wf(g: PieceView, pieces: Seq<PieceView>)
    requires
        piece_wf(g),
        geometry_fits(append_all(g, pieces)),
        forall|i: int|
            0 <= i < pieces.len() && geometry_fits(#[trigger] pieces[i]) ==> piece_wf(pieces[i]),
    ensures
        piece_wf(append_all(g, pieces)),
    decreases pieces.len(),
{
    if pieces.len() > 0 {
        let init = pieces.drop_last();
        assert(pieces.take(pieces.len() - 1) == init);
        lemma_append_grows(g, pieces, pieces.len() - 1);
        assert forall|i: int|
            0 <= i < init.len() && geometry_fits(#[trigger] init[i]) implies piece_wf(init[i]) by {
            assert(init[i] == pieces[i]);
        }
        lemma_append_all_wf(g, init);
        let before = append_all(g, init);
        let last = pieces[pieces.len() - 1];
        let after = append(before, last);
        assert(geometry_fits(last));
        assert forall|i: int| 0 <= i < after.indices.len() implies #[trigger] after.indices[i]
            < after.vertices.len() by {
            if i >= before.indices.len() {
                assert(last.indices[i - before.indices.len()] < last.vertices.len());
            } else {
                assert(before.indices[i] < before.vertices.len());
            }
        }
    }
}

/// Whether a geometry begins with another one.
pub open spec fn begins_with(g: PieceView, start: PieceView) -> bool {
    start.vertices.is_prefix_of(g.vertices) && start.indices.is_prefix_of(g.indices)
}

/// Whether a part stands in a geometry at a vertex and an index, its triangles naming
/// its own vertices there.
pub open spec fn holds_part(g: PieceView, vertex: int, index: int, part: PieceView) -> bool {
    &&& vertex + part.vertices.len() <= g.vertices.len()
    &&& index + part.indices.len() <= g.indices.len()
    &&& forall|i: int|
        0 <= i < part.vertices.len() ==> g.vertices[vertex + i] == #[trigger] part.vertices[i]
    &&& forall|i: int|
        0 <= i < part.indices.len() ==> g.indices[index + i] == vertex
            + #[trigger] part.indices[i]
}

/// Each polyline is appended behind the earlier ones, which stay as they are. What it
/// adds are whole triangles between vertices that it adds, and begins with the
/// rectangles of its segments. One with less than two points adds nothing.
pub proof fn polylines_are_appended_in_order(
    paths: Seq<Seq<Point>>,
    shape: StrokeShape,
    measures: Seq<Seq<JoinMeasure>>,
    k: int,
)
    requires
        0 <= k < paths.len(),
        geometry_fits(stroke_geometry(paths, shape, measures)),
    ensures
        ({
            let points = paths[k];
            let before = stroke_geometry(paths.take(k), shape, measures);
            let after = stroke_geometry(paths.take(k + 1), shape, measures);
            let (v, n) = (before.vertices.len() as int, before.indices.len() as int);
            &&& begins_with(after, before)
            &&& begins_with(stroke_geometry(paths, shape, measures), after)
            &&& points.len() < 2 ==> after == before
            &&& (after.indices.len() - n) % 3 == 0
            &&& forall|i: int|
                n <= i < after.indices.len() ==> v <= #[trigger] after.indices[i]
                    < after.vertices.len()
            &&& forall|i: int|
                0 <= i < points.len() - 1 ==> holds_part(
                    after,
                    v + 4 * i,
                    n + 6 * i,
                    #[trigger] segment_piece(points[i], points[i + 1], direction_of(points, i)),
                )
        }),
{
    let points = paths[k];
    let before = stroke_geometry(paths.take(k), shape, measures);
    let after = stroke_geometry(paths.take(k + 1), shape, measures);
    let pieces = stroke_pieces(points, shape, measures[k]);
    assert(paths.take(k + 1).drop_last() == paths.take(k));
    assert(after == append_all(before, pieces));
    lemma_paths_grow(paths, shape, measures, k + 1);
    lemma_paths_prefix(paths, shape, measures, k + 1);
    lemma_append_prefix(before, pieces, 0);
    assert(pieces.take(0) == Seq::<PieceView>::empty());
    assert forall|i: int| 0 <= i < pieces.len() && geometry_fits(#[trigger] pieces[i]) implies
        piece_wf(pieces[i]) by {
        lemma_piece_wf(points, shape, measures[k], i);
    }
    lemma_append_all_range(before, pieces);
    assert forall|i: int| 0 <= i < points.len() - 1 implies holds_part(
        after,
        before.vertices.len() + 4 * i,
        before.indices.len() + 6 * i,
        #[trigger] segment_piece(points[i], points[i + 1], direction_of(points, i)),
    ) by {
        lemma_quads_first(before, points, shape, measures[k], i);
        let quad = segment_piece(points[i], points[i + 1], direction_of(points, i));
        assert(pieces[i] == quad);
        assert(pieces.take(i + 1).drop_last() == pieces.take(i));
        let at = append_all(before, pieces.take(i));
        let next = append_all(before, pieces.take(i + 1));
        assert(next == append(at, quad));
        lemma_append_prefix(before, pieces, i + 1);
        lemma_append_grows(before, pieces, i + 1);
        assert forall|j: int| 0 <= j < quad.vertices.len() implies after.vertices[
            at.vertices.len() + j] == #[trigger] quad.vertices[j] by {
            assert(next.vertices[at.vertices.len() + j] == quad.vertices[j]);
        }
        assert forall|j: int| 0 <= j < quad.indices.len() implies after.indices[at.indices.len()
            + j] == at.vertices.len() + #[trigger] quad.indices[j] by {
            assert(next.indices[at.indices.len() + j] == at.vertices.len() + quad.indices[j]);
        }
    }
}

/// The vertices and indices of the first rectangles.
proof fn lemma_quads_first(
    g: PieceView,
    points: Seq<Point>,
    shape: StrokeShape,
    measures: Seq<JoinMeasure>,
    i: int,
)
    requires
        0 <= i <= points.len() - 1,
    ensures
        ({
            let at = append_all(g, stroke_pieces(points, shape, measures).take(i));
            &&& at.vertices.len() == g.vertices.len() + 4 * i
            &&& at.indices.len() == g.indices.len() + 6 * i
        }),
    decreases i,
{
    let pieces = stroke_pieces(points, shape, measures);
    if i > 0 {
        lemma_quads_first(g, points, shape, measures, i - 1);
        assert(pieces.take(i).drop_last() == pieces.take(i - 1));
        assert(pieces[i - 1] == segment_piece(
            points[i - 1],
            points[i],
            direction_of(points, i - 1),
        ));
    }
}

/// A geometry begins with what its first parts make.
proof fn lemma_append_prefix(g: PieceView, pieces: Seq<PieceView>, n: int)
    requires
        0 <= n <= pieces.len(),
    ensures
        begins_with(append_all(g, pieces), append_all(g, pieces.take(n))),
    decreases pieces.len(),
{
    if n < pieces.len() {
        lemma_append_prefix(g, pieces.drop_last(), n);
        assert(pieces.drop_last().take(n) == pieces.take(n));
    } else {
        assert(pieces.take(n) == pieces);
    }
}

/// A geometry begins with what its first polylines make.
proof fn lemma_paths_prefix(
    paths: Seq<Seq<Point>>,
    shape: StrokeShape,
    measures: Seq<Seq<JoinMeasure>>,
    n: int,
)
    requires
        0 <= n <= paths.len(),
    ensures
        begins_with(
            stroke_geometry(paths, shape, measures),
            stroke_geometry(paths.take(n), shape, measures),
        ),
    decreases paths.len(),
{
    if n < paths.len() {
        lemma_paths_prefix(paths.drop_last(), shape, measures, n);
        assert(paths.drop_last().take(n) == paths.take(n));
        let pieces = stroke_pieces(paths.last(), shape, measures[paths.len() - 1]);
        assert(pieces.take(0) == Seq::<PieceView>::empty());
        lemma_append_prefix(stroke_geometry(paths.drop_last(), shape, measures), pieces, 0);
    } else {
        assert(paths.take(n) == paths);
    }
}

/// What parts add are whole triangles between vertices that they add.
proof fn lemma_append_all_range(g: PieceView, pieces: Seq<PieceView>)
    requires
        geometry_fits(append_all(g, pieces)),
        forall|i: int|
            0 <= i < pieces.len() && geometry_fits(#[trigger] pieces[i]) ==> piece_wf(pieces[i]),
    ensures
        ({
            let after = append_all(g, pieces);
            &&& after.indices.len() >= g.indices.len()
            &&& (after.indices.len() - g.indices.len()) % 3 == 0
            &&& forall|i: int|
                g.indices.len() <= i < after.indices.len() ==> g.vertices.len()
                    <= #[trigger] after.indices[i] < after.vertices.len()
        }),
    decreases pieces.len(),
{
    if pieces.len() > 0 {
        let init = pieces.drop_last();
        assert(pieces.take(pieces.len() - 1) == init);
        lemma_append_grows(g, pieces, pieces.len() - 1);
        lemma_append_grows(g, init, 0);
        assert forall|i: int|
            0 <= i < init.len() && geometry_fits(#[trigger] init[i]) implies piece_wf(init[i]) by {
            assert(init[i] == pieces[i]);
        }
        lemma_append_all_range(g, init);
        let before = append_all(g, init);
        let last = pieces[pieces.len() - 1];
        let after = append(before, last);
        assert(geometry_fits(last));
        assert forall|i: int| g.indices.len() <= i < after.indices.len() implies g.vertices.len()
            <= #[trigger] after.indices[i] < after.vertices.len() by {
            if i >= before.indices.len() {
                assert(last.indices[i - before.indices.len()] < last.vertices.len());
            } else {
                assert(after.indices[i] == before.indices[i]);
            }
        }
    }
}

/// A closed stroke of two or more segments has no caps: it is the same whatever
/// caps are asked for.
pub proof fn closed_strokes_have_no_caps(
    points: Seq<Point>,
    a: StrokeShape,
    b: StrokeShape,
    measures: Seq<JoinMeasure>,
)
    requires
        a.is_closed,
        b.is_closed,
        a.join_style == b.join_style,
        points.len() >= 3,
    ensures
        stroke_pieces(points, a, measures) == stroke_pieces(points, b, measures),
{
}

/// The arc of a round join runs from the outer normal of the incoming segment to that
/// of the outgoing one.
pub proof fn round_joins_run_between_outer_normals(
    point: Point,
    incoming: Direction,
    outgoing: Direction,
    measure: JoinMeasure,
)
    requires
        !measure.negligible,
        bend_side(incoming, outgoing) is Some,
    ensures
        ({
            let side = bend_side(incoming, outgoing)->0;
            let join = join_piece(point, incoming, outgoing, LineJoinStyle::Round, measure);
            &&& join.vertices.len() >= 4
            &&& offset_vector(join.vertices[1].position.offset) == Some(
                side_normal(incoming, side),
            )
            &&& offset_vector(join.vertices.last().position.offset) == Some(
                side_normal(outgoing, side),
            )
        }),
{
}

/// Where a miter is too long, the corner is cut off as a bevel would.
pub proof fn long_miters_are_bevels(
    point: Point,
    incoming: Direction,
    outgoing: Direction,
    limit: i16,
    measure: JoinMeasure,
)
    requires
        !measure.miter_fits,
    ensures
        join_piece(point, incoming, outgoing, LineJoinStyle::Miter(limit), measure) == join_piece(
            point,
            incoming,
            outgoing,
            LineJoinStyle::Bevel,
            measure,
        ),
{
}

/// The polyline of a stroke follows its path. A step to a point begins a new polyline
/// there. A line adds its end. A curve adds sixteen points that lie on it, with its control
/// points in their order, at equal steps of its parameter up to its end. What is there
/// already stays.
pub proof fn polylines_follow_their_path(cmds: Seq<DrawCommand>, cmd: DrawCommand, i: int)
    requires
        1 <= i <= 16,
    ensures
        ({
            let before = flatten(cmds);
            let after = flatten(cmds.push(cmd));
            let n = before.points.len() as int;
            let from = last_point(cmds);
            match cmd {
                DrawCommand::MoveTo(p) => {
                    &&& after.points.len() == 1
                    &&& is_at(after.points[0], p)
                    &&& after.done == polylines(cmds)
                },
                DrawCommand::LineTo(p) => {
                    &&& after.points.len() == n + 1
                    &&& after.points.take(n) == before.points
                    &&& is_at(after.points[n], p)
                    &&& after.done == before.done
                },
                DrawCommand::QuadraticCurveTo { control, anchor } => {
                    &&& after.points.len() == n + 16
                    &&& after.points.take(n) == before.points
                    &&& is_on_quadratic(after.points[n + i - 1], from, control, anchor, i)
                    &&& is_at(after.points[n + 15], anchor)
                    &&& after.done == before.done
                },
                DrawCommand::CubicCurveTo { control_a, control_b, anchor } => {
                    &&& after.points.len() == n + 16
                    &&& after.points.take(n) == before.points
                    &&& is_on_cubic(
                        after.points[n + i - 1],
                        from,
                        control_a,
                        control_b,
                        anchor,
                        i,
                    )
                    &&& is_at(after.points[n + 15], anchor)
                    &&& after.done == before.done
                },
            }
        }),
{
    let before = flatten(cmds);
    let all = cmds.push(cmd);
    assert(all.drop_last() == cmds);
    let after = flatten(all);
    let n = before.points.len() as int;
    lemma_cursor(cmds);
    match cmd {
        DrawCommand::MoveTo(_) => {},
        DrawCommand::LineTo(_) => {
            assert(after.points.take(n) =~= before.points);
        },
        DrawCommand::QuadraticCurveTo { control, anchor } => {
            assert(after.points.take(n) =~= before.points);
            quadratic_points_lie_on_the_curve(before.cursor, control, anchor, i);
            quadratic_points_lie_on_the_curve(before.cursor, control, anchor, 16);
        },
        DrawCommand::CubicCurveTo { control_a, control_b, anchor } => {
            assert(after.points.take(n) =~= before.points);
            cubic_points_lie_on_the_curve(before.cursor, control_a, control_b, anchor, i);
            cubic_points_lie_on_the_curve(before.cursor, control_a, control_b, anchor, 16);
        },
    }
}

/// Flattening has arrived where the path has.
proof fn lemma_cursor(cmds: Seq<DrawCommand>)
    ensures
        flatten(cmds).cursor == last_point(cmds),
{
}

/// All polylines of a path with two or more points are kept, in order.
pub proof fn polylines_are_kept(cmds: Seq<DrawCommand>)
    ensures
        flatten(cmds).points.len() >= 2 ==> polylines(cmds) == flatten(cmds).done.push(
            flatten(cmds).points,
        ),
        flatten(cmds).points.len() < 2 ==> polylines(cmds) == flatten(cmds).done,
        cmds.len() == 0 ==> polylines(cmds).len() == 0 && flatten(cmds).points.len() == 0,
{
}

// ---- What the parts of a stroke are ----

/// A segment points from its first point to its second. One without length points where the
/// one before it does, or along the x axis. So every segment has a direction.
pub proof fn segments_point_along_the_polyline(points: Seq<Point>, i: int)
    requires
        in_range(points),
        0 <= i < points.len() - 1,
    ensures
        ({
            let d = direction_of(points, i);
            let (p, q) = (points[i], points[i + 1]);
            &&& directions_of(points).len() == points.len() - 1
            &&& directions_of(points)[i] == d
            &&& (p.x, p.y) != (q.x, q.y) ==> d.dx == q.x - p.x && d.dy == q.y - p.y
            &&& (p.x, p.y) == (q.x, q.y) && i > 0 ==> d == direction_of(points, i - 1)
            &&& (p.x, p.y) == (q.x, q.y) && i == 0 ==> d.dx > 0 && d.dy == 0
            &&& d.dx != 0 || d.dy != 0
        }),
    decreases i,
{
    assert(path_coord(points[i].x as int) && path_coord(points[i + 1].x as int));
    if i > 0 {
        segments_point_along_the_polyline(points, i - 1);
    }
}

/// Whether a vertex of a stroke lies at an offset from a point.
pub open spec fn lies_off(v: BezierTexVertex, point: Point, vector: (int, int)) -> bool {
    &&& v.position.point == point
    &&& offset_vector(v.position.offset) == Some(vector)
    &&& is_plain(v)
}

/// Whether a vertex belongs to an interior triangle.
pub open spec fn is_plain(v: BezierTexVertex) -> bool {
    v.fill_type == 0 && v.uv.u_halves == 0 && v.uv.v_halves == 0
}

/// Whether indices are two triangles that make up a rectangle whose corners come in two
/// pairs: they share one corner of each pair, which lie opposite each other, and have one
/// of the other two each.
pub open spec fn is_split_rectangle(indices: Seq<u32>) -> bool {
    &&& indices.len() == 6
    &&& indices[0] == 0 && indices[4] == 3
    &&& (indices[1] == 1 && indices[2] == 2) || (indices[1] == 2 && indices[2] == 1)
    &&& (indices[3] == 1 && indices[5] == 2) || (indices[3] == 2 && indices[5] == 1)
}

/// Whether indices are a fan: triangles between the first vertex and each two neighbours
/// among the others.
pub open spec fn is_fan(indices: Seq<u32>, triangles: int) -> bool {
    &&& indices.len() == 3 * triangles
    &&& forall|k: int|
        0 <= k < triangles ==> #[trigger] indices[3 * k] == 0 && indices[3 * k + 1] == k + 1
            && indices[3 * k + 2] == k + 2
}

/// A segment of a stroke is the rectangle that reaches one half-width to both sides of it,
/// from its first point to its second.
pub proof fn segments_are_rectangles(p0: Point, p1: Point, d: Direction)
    ensures
        ({
            let piece = segment_piece(p0, p1, d);
            let n = (-d.dy as int, d.dx as int);
            &&& piece.vertices.len() == 4
            &&& lies_off(piece.vertices[0], p0, n)
            &&& lies_off(piece.vertices[1], p0, (-n.0, -n.1))
            &&& lies_off(piece.vertices[2], p1, n)
            &&& lies_off(piece.vertices[3], p1, (-n.0, -n.1))
            &&& is_split_rectangle(piece.indices)
        }),
{
}

/// A join is a fan around the point where two segments meet, from the outer corner of the
/// one to the outer corner of the other: over the corner directly where it is bevelled or
/// its miter would be too long, by the tip of the miter, or along an arc of at least two
/// steps. Segments that do not turn, or hardly, have no join.
pub proof fn joins_fan_out_from_their_point(
    point: Point,
    incoming: Direction,
    outgoing: Direction,
    style: LineJoinStyle,
    measure: JoinMeasure,
    i: int,
)
    requires
        measure.arc_steps <= u32::MAX - 2,
    ensures
        ({
            let join = join_piece(point, incoming, outgoing, style, measure);
            let turn = incoming.dx * outgoing.dy - incoming.dy * outgoing.dx;
            let side = if turn > 0 {
                Side::Minus
            } else {
                Side::Plus
            };
            let rim: int = match style {
                LineJoinStyle::Bevel => 2,
                LineJoinStyle::Miter(_) => if measure.miter_fits {
                    3
                } else {
                    2
                },
                LineJoinStyle::Round => if measure.arc_steps < 2 {
                    3
                } else {
                    measure.arc_steps + 1
                },
            };
            &&& turn == 0 || measure.negligible ==> join.vertices.len() == 0 && join.indices.len()
                == 0
            &&& turn != 0 && !measure.negligible ==> {
                &&& join.vertices.len() == rim + 1
                &&& lies_off(join.vertices[0], point, (0, 0))
                &&& lies_off(join.vertices[1], point, side_normal(incoming, side))
                &&& lies_off(join.vertices[rim], point, side_normal(outgoing, side))
                &&& is_fan(join.indices, rim - 1)
                &&& 1 < i < rim ==> {
                    let v = join.vertices[i];
                    &&& v.position.point == point && is_plain(v)
                    &&& v.position.offset == if style is Round {
                        Offset::JoinArc {
                            incoming,
                            outgoing,
                            side,
                            step: (i - 1) as u32,
                            steps: (rim - 1) as u32,
                        }
                    } else {
                        Offset::Miter { incoming, outgoing, side }
                    }
                }
            }
        }),
{
    if bend_side(incoming, outgoing) is Some && !measure.negligible && style is Round {
        let steps: u32 = if measure.arc_steps < 2 {
            2
        } else {
            measure.arc_steps
        };
        lemma_fan_is_fan(steps as nat);
    }
}

proof fn lemma_fan_is_fan(steps: nat)
    requires
        steps + 2 <= u32::MAX,
    ensures
        is_fan(fan_indices(steps), steps as int),
{
    let fan = fan_indices(steps);
    assert forall|k: int| 0 <= k < steps implies #[trigger] fan[3 * k] == 0 && fan[3 * k + 1] == k
        + 1 && fan[3 * k + 2] == k + 2 by {
        assert((3 * k) % 3 == 0 && (3 * k + 1) % 3 == 1 && (3 * k + 2) % 3 == 2);
        assert((3 * k + 1) / 3 == k && (3 * k + 2) / 3 == k);
    }
}

/// A cap closes the end of a stroke: not at all where it is cut off, with a rectangle that
/// reaches one half-width further outward, or with a fan of eight triangles over a half
/// circle on the outer side.
pub proof fn caps_close_the_end(
    point: Point,
    d: Direction,
    forward: bool,
    style: LineCapStyle,
    i: int,
)
    requires
        0 <= i <= 8,
    ensures
        ({
            let cap = cap_piece(point, d, forward, style);
            let n = (-d.dy as int, d.dx as int);
            let (x, y) = if forward {
                (d.dx as int, d.dy as int)
            } else {
                (-d.dx as int, -d.dy as int)
            };
            match style {
                LineCapStyle::Butt => cap.vertices.len() == 0 && cap.indices.len() == 0,
                LineCapStyle::Square => {
                    &&& cap.vertices.len() == 4
                    &&& lies_off(cap.vertices[0], point, n)
                    &&& lies_off(cap.vertices[1], point, (-n.0, -n.1))
                    &&& lies_off(cap.vertices[2], point, (n.0 + x, n.1 + y))
                    &&& lies_off(cap.vertices[3], point, (x - n.0, y - n.1))
                    &&& is_split_rectangle(cap.indices)
                },
                LineCapStyle::Round => {
                    let v = cap.vertices[i + 1];
                    &&& cap.vertices.len() == 10
                    &&& lies_off(cap.vertices[0], point, (0, 0))
                    &&& lies_off(cap.vertices[1], point, n)
                    &&& lies_off(cap.vertices[5], point, (x, y))
                    &&& lies_off(cap.vertices[9], point, (-n.0, -n.1))
                    &&& v.position.point == point && is_plain(v)
                    &&& v.position.offset == Offset::CapArc {
                        direction: d,
                        forward,
                        step: i as u32,
                    }
                    &&& is_fan(cap.indices, 8)
                },
            }
        }),
{
    lemma_fan_is_fan(8);
}

/// A stroke has a rectangle for each segment, then a join at each point between two
/// segments, then at the end either a join between the last segment and the first, or a cap
/// at its beginning that points against its first segment and a cap at its end that points
/// along its last.
pub proof fn strokes_are_whole(
    points: Seq<Point>,
    shape: StrokeShape,
    measures: Seq<JoinMeasure>,
    i: int,
)
    requires
        points.len() >= 2,
        0 <= i < points.len() - 1,
    ensures
        ({
            let pieces = stroke_pieces(points, shape, measures);
            let n = points.len() - 1;
            let first = direction_of(points, 0);
            let last = direction_of(points, n - 1);
            let joined = shape.is_closed && n >= 2;
            &&& pieces[i] == segment_piece(points[i], points[i + 1], direction_of(points, i))
            &&& i + 1 < n ==> pieces[n + i] == join_piece(
                points[i + 1],
                direction_of(points, i),
                direction_of(points, i + 1),
                shape.join_style,
                measures[i],
            )
            &&& joined ==> pieces.len() == 2 * n && pieces[2 * n - 1] == join_piece(
                points[n],
                last,
                first,
                shape.join_style,
                measures[n - 1],
            )
            &&& !joined ==> pieces.len() == 2 * n + 1 && pieces[2 * n - 1] == cap_piece(
                points[0],
                first,
                false,
                shape.start_cap,
            ) && pieces[2 * n] == cap_piece(points[n], last, true, shape.end_cap)
        }),
{
}

/// The joins that are measured are those that are drawn, in the same order: between each two
/// segments in a row, and between the last and the first where the stroke is closed.
pub proof fn measured_joins_are_drawn(points: Seq<Point>, shape: StrokeShape, i: int)
    requires
        points.len() >= 2,
        0 <= i < bends_of(points, shape).len(),
    ensures
        ({
            let n = points.len() - 1;
            let bend = bends_of(points, shape)[i];
            &&& bends_of(points, shape).len() == if shape.is_closed && n >= 2 {
                n
            } else {
                n - 1
            }
            &&& bend.incoming == direction_of(points, i)
            &&& bend.outgoing == direction_of(
                points,
                if i + 1 < n {
                    i + 1
                } else {
                    0
                },
            )
        }),
{
}

/// Every part of a stroke stands in its geometry, behind the parts before it: its vertices
/// as they are, and its triangles between its own vertices.
pub proof fn parts_stand_behind_each_other(g: PieceView, pieces: Seq<PieceView>, k: int)
    requires
        0 <= k < pieces.len(),
        geometry_fits(append_all(g, pieces)),
        piece_wf(pieces[k]),
    ensures
        ({
            let before = append_all(g, pieces.take(k));
            let after = append_all(g, pieces.take(k + 1));
            &&& pieces.take(0).len() == 0 && append_all(g, pieces.take(0)) == g
            &&& after.vertices.len() == before.vertices.len() + pieces[k].vertices.len()
            &&& after.indices.len() == before.indices.len() + pieces[k].indices.len()
            &&& holds_part(
                append_all(g, pieces),
                before.vertices.len() as int,
                before.indices.len() as int,
                pieces[k],
            )
        }),
{
    let part = pieces[k];
    let all = append_all(g, pieces);
    let at = append_all(g, pieces.take(k));
    let next = append_all(g, pieces.take(k + 1));
    assert(pieces.take(k + 1).drop_last() == pieces.take(k));
    assert(next == append(at, part));
    lemma_append_prefix(g, pieces, k + 1);
    lemma_append_grows(g, pieces, k + 1);
    assert forall|j: int| 0 <= j < part.vertices.len() implies all.vertices[at.vertices.len() + j]
        == #[trigger] part.vertices[j] by {
        assert(next.vertices[at.vertices.len() + j] == part.vertices[j]);
    }
    assert forall|j: int| 0 <= j < part.indices.len() implies all.indices[at.indices.len() + j]
        == at.vertices.len() + #[trigger] part.indices[j] by {
        assert(next.indices[at.indices.len() + j] == at.vertices.len() + part.indices[j]);
    }
}

/// Joins have been measured where there is a measure for each join that is drawn, of each polyline.
pub proof fn measures_match_the_joins(
    paths: Seq<Seq<Point>>,
    shape: StrokeShape,
    measures: Seq<Seq<JoinMeasure>>,
)
    ensures
        all_measured(paths, shape, measures) <==> measures.len() == paths.len() && forall|i: int|
            0 <= i < paths.len() ==> (#[trigger] measures[i]).len() == if paths[i].len() < 2 {
                0
            } else if shape.is_closed && paths[i].len() > 2 {
                paths[i].len() - 1
            } else {
                paths[i].len() - 2
            },
{
}

/// Each polyline is drawn with the measures of its own joins, behind the polylines before it, and
/// without polylines there is nothing.
pub proof fn polylines_are_drawn_with_their_own_measures(
    paths: Seq<Seq<Point>>,
    shape: StrokeShape,
    measures: Seq<Seq<JoinMeasure>>,
    k: int,
)
    requires
        0 <= k < paths.len(),
    ensures
        stroke_geometry(paths.take(k + 1), shape, measures) == append_all(
            stroke_geometry(paths.take(k), shape, measures),
            stroke_pieces(paths[k], shape, measures[k]),
        ),
        stroke_geometry(seq![], shape, measures).vertices.len() == 0,
        stroke_geometry(seq![], shape, measures).indices.len() == 0,
        paths[k].len() < 2 ==> stroke_pieces(paths[k], shape, measures[k]).len() == 0,
{
    assert(paths.take(k + 1).drop_last() == paths.take(k));
    assert(paths.take(k + 1).last() == paths[k]);
}

} // verus!
