//! Quadratic segments for evaluating fills and strokes analytically on the GPU.
use crate::geometry::{Point, TwipsPoint};
use crate::path::{
    cubic_at, cubic_point, cubic_points_lie_on_the_curve, curves_meet_their_ends, is_at,
    is_on_cubic, last_point, lemma_cubic_path_point, lemma_twips_point, path_coord, path_point,
    DrawCommand,
};
use crate::vertex::Bounds;
use vstd::prelude::*;

verus! {

/// One quadratic segment for analytic fill/stroke evaluation on GPU.
///
/// For line segments, `control` is the midpoint of `start` and `end`.
#[derive(Clone, Copy, PartialEq, Eq, Structural, Debug)]
pub struct GpuQuadraticSegment {
    pub start: Point,
    pub control: Point,
    pub end: Point,
}

/// The midpoint of two points.
pub open spec fn midpoint(a: Point, b: Point) -> Point {
    Point { x: ((a.x + b.x) / 2) as i64, y: ((a.y + b.y) / 2) as i64 }
}

/// A line as a quadratic segment.
pub open spec fn line_as_quad(from: Point, to: Point) -> GpuQuadraticSegment {
    GpuQuadraticSegment { start: from, control: midpoint(from, to), end: to }
}

/// The least box around a box and a point.
pub open spec fn include_point(bounds: Option<Bounds>, p: Point) -> Option<Bounds> {
    match bounds {
        None => Some(Bounds { min_x: p.x, min_y: p.y, max_x: p.x, max_y: p.y }),
        Some(b) => Some(
            Bounds {
                min_x: if p.x < b.min_x { p.x } else { b.min_x },
                min_y: if p.y < b.min_y { p.y } else { b.min_y },
                max_x: if p.x > b.max_x { p.x } else { b.max_x },
                max_y: if p.y > b.max_y { p.y } else { b.max_y },
            },
        ),
    }
}

/// The segments of a path so far: the box around its points, where it has arrived
/// and where the current sub-path started.
pub ghost struct SegmentState {
    pub segments: Seq<GpuQuadraticSegment>,
    pub bounds: Option<Bounds>,
    pub cursor: Option<TwipsPoint>,
    pub start: TwipsPoint,
}

/// Appends the line that closes the current sub-path, if it is not closed.
pub open spec fn close_subpath(s: SegmentState) -> SegmentState {
    match s.cursor {
        Some(cursor) if cursor != s.start => {
            let start = Point::spec_from_twips(s.start);
            SegmentState {
                segments: s.segments.push(line_as_quad(Point::spec_from_twips(cursor), start)),
                bounds: include_point(s.bounds, start),
                ..s
            }
        },
        _ => s,
    }
}

/// Appends a line between two points.
pub open spec fn push_line(s: SegmentState, from: Point, to: Point) -> SegmentState {
    SegmentState {
        segments: s.segments.push(line_as_quad(from, to)),
        bounds: include_point(include_point(s.bounds, from), to),
        ..s
    }
}

/// Appends the first `n` line segments of a cubic curve.
pub open spec fn cubic_lines(
    s: SegmentState,
    from: TwipsPoint,
    control_a: TwipsPoint,
    control_b: TwipsPoint,
    anchor: TwipsPoint,
    n: nat,
) -> SegmentState
    decreases n,
{
    if n == 0 {
        s
    } else {
        push_line(
            cubic_lines(s, from, control_a, control_b, anchor, (n - 1) as nat),
            cubic_at(from, control_a, control_b, anchor, n - 1),
            cubic_at(from, control_a, control_b, anchor, n as int),
        )
    }
}

/// Appends one step of a path. Steps before the first MoveTo draw nothing.
pub open spec fn segment_step(s: SegmentState, cmd: DrawCommand) -> SegmentState {
    match cmd {
        DrawCommand::MoveTo(p) => {
            let closed = close_subpath(s);
            SegmentState {
                cursor: Some(p),
                start: p,
                bounds: include_point(closed.bounds, Point::spec_from_twips(p)),
                ..closed
            }
        },
        DrawCommand::LineTo(p) => match s.cursor {
            Some(from) => SegmentState {
                cursor: Some(p),
                ..push_line(s, Point::spec_from_twips(from), Point::spec_from_twips(p))
            },
            None => s,
        },
        DrawCommand::QuadraticCurveTo { control, anchor } => match s.cursor {
            Some(from) => {
                let (f, c, a) = (
                    Point::spec_from_twips(from),
                    Point::spec_from_twips(control),
                    Point::spec_from_twips(anchor),
                );
                SegmentState {
                    segments: s.segments.push(
                        GpuQuadraticSegment { start: f, control: c, end: a },
                    ),
                    bounds: include_point(include_point(include_point(s.bounds, f), c), a),
                    cursor: Some(anchor),
                    ..s
                }
            },
            None => s,
        },
        DrawCommand::CubicCurveTo { control_a, control_b, anchor } => match s.cursor {
            Some(from) => SegmentState {
                cursor: Some(anchor),
                ..cubic_lines(s, from, control_a, control_b, anchor, 16)
            },
            None => s,
        },
    }
}

/// The segments of a path, its last sub-path not yet closed.
pub open spec fn open_segments(cmds: Seq<DrawCommand>) -> SegmentState
    decreases cmds.len(),
{
    if cmds.len() == 0 {
        SegmentState {
            segments: seq![],
            bounds: None,
            cursor: None,
            start: TwipsPoint { x: 0, y: 0 },
        }
    } else {
        segment_step(open_segments(cmds.drop_last()), cmds.last())
    }
}

/// The segments of a path, every sub-path closed.
pub open spec fn quadratic_segments(cmds: Seq<DrawCommand>) -> Seq<GpuQuadraticSegment> {
    close_subpath(open_segments(cmds)).segments
}

/// The box around all points of a path; empty at the origin if it has none.
pub open spec fn path_bounds(cmds: Seq<DrawCommand>) -> Bounds {
    match close_subpath(open_segments(cmds)).bounds {
        Some(b) => b,
        None => Bounds { min_x: 0, min_y: 0, max_x: 0, max_y: 0 },
    }
}

/// The midpoint of two points.
fn midpoint_of(a: Point, b: Point) -> (r: Point)
    requires
        path_point(a),
        path_point(b),
    ensures
        r == midpoint(a, b),
{
    Point { x: halve(a.x + b.x), y: halve(a.y + b.y) }
}

/// Half of an even number.
fn halve(v: i64) -> (r: i64)
    requires
        v % 2 == 0,
        v > i64::MIN,
    ensures
        r == v as int / 2,
{
    if v >= 0 {
        v / 2
    } else {
        -(-v / 2)
    }
}

/// Collects segments step by step.
struct SegmentBuilder {
    segments: Vec<GpuQuadraticSegment>,
    bounds: Option<Bounds>,
    cursor: Option<TwipsPoint>,
    start: TwipsPoint,
}

impl SegmentBuilder {
    spec fn state(self) -> SegmentState {
        SegmentState {
            segments: self.segments@,
            bounds: self.bounds,
            cursor: self.cursor,
            start: self.start,
        }
    }

    /// Grows the box around a point.
    fn include_in_bounds(&mut self, p: Point)
        ensures
            final(self).state() == (SegmentState {
                bounds: include_point(old(self).bounds, p),
                ..old(self).state()
            }),
    {
        self.bounds = match self.bounds {
            None => Some(Bounds { min_x: p.x, min_y: p.y, max_x: p.x, max_y: p.y }),
            Some(b) => Some(
                Bounds {
                    min_x: if p.x < b.min_x {
                        p.x
                    } else {
                        b.min_x
                    },
                    min_y: if p.y < b.min_y {
                        p.y
                    } else {
                        b.min_y
                    },
                    max_x: if p.x > b.max_x {
                        p.x
                    } else {
                        b.max_x
                    },
                    max_y: if p.y > b.max_y {
                        p.y
                    } else {
                        b.max_y
                    },
                },
            ),
        };
    }

    /// Appends a line as a quadratic segment.
    fn push_line_as_quad(&mut self, from: Point, to: Point)
        requires
            path_point(from),
            path_point(to),
        ensures
            final(self).state() == (SegmentState {
                segments: old(self).segments@.push(line_as_quad(from, to)),
                ..old(self).state()
            }),
    {
        self.segments.push(
            GpuQuadraticSegment { start: from, control: midpoint_of(from, to), end: to },
        );
    }

    /// Appends the line that closes the current sub-path, if needed.
    fn close(&mut self)
        ensures
            final(self).state() == close_subpath(old(self).state()),
    {
        if let Some(cursor) = self.cursor {
            if cursor != self.start {
                proof {
                    lemma_twips_point(cursor);
                    lemma_twips_point(self.start);
                }
                let start = Point::from_twips(self.start);
                self.push_line_as_quad(Point::from_twips(cursor), start);
                self.include_in_bounds(start);
            }
        }
    }

    /// Appends a cubic curve, flattened to line segments.
    fn push_cubic(
        &mut self,
        from: TwipsPoint,
        control_a: TwipsPoint,
        control_b: TwipsPoint,
        anchor: TwipsPoint,
    )
        ensures
            final(self).state() == (SegmentState {
                cursor: Some(anchor),
                ..cubic_lines(old(self).state(), from, control_a, control_b, anchor, 16)
            }),
    {
        let ghost s = self.state();
        let mut prev = cubic_point(from, control_a, control_b, anchor, 0);
        let mut i: u32 = 1;
        while i <= 16
            invariant
                1 <= i <= 17,
                prev == cubic_at(from, control_a, control_b, anchor, i - 1),
                path_point(prev),
                self.state() == cubic_lines(
                    s,
                    from,
                    control_a,
                    control_b,
                    anchor,
                    (i - 1) as nat,
                ),
            decreases 17 - i,
        {
            let p = cubic_point(from, control_a, control_b, anchor, i);
            self.push_line_as_quad(prev, p);
            self.include_in_bounds(prev);
            self.include_in_bounds(p);
            prev = p;
            i += 1;
        }
        self.cursor = Some(anchor);
    }

    /// Appends one step of the path.
    fn push(&mut self, cmd: &DrawCommand)
        ensures
            final(self).state() == segment_step(old(self).state(), *cmd),
    {
        match cmd {
            DrawCommand::MoveTo(point) => {
                self.close();
                self.cursor = Some(*point);
                self.start = *point;
                self.include_in_bounds(Point::from_twips(*point));
            },
            DrawCommand::LineTo(point) => {
                if let Some(cursor) = self.cursor {
                    proof {
                        lemma_twips_point(cursor);
                        lemma_twips_point(*point);
                    }
                    let from = Point::from_twips(cursor);
                    let to = Point::from_twips(*point);
                    self.push_line_as_quad(from, to);
                    self.include_in_bounds(from);
                    self.include_in_bounds(to);
                    self.cursor = Some(*point);
                }
            },
            DrawCommand::QuadraticCurveTo { control, anchor } => {
                if let Some(cursor) = self.cursor {
                    let from = Point::from_twips(cursor);
                    let c = Point::from_twips(*control);
                    let a = Point::from_twips(*anchor);
                    self.segments.push(GpuQuadraticSegment { start: from, control: c, end: a });
                    self.include_in_bounds(from);
                    self.include_in_bounds(c);
                    self.include_in_bounds(a);
                    self.cursor = Some(*anchor);
                }
            },
            DrawCommand::CubicCurveTo { control_a, control_b, anchor } => {
                if let Some(cursor) = self.cursor {
                    self.push_cubic(cursor, *control_a, *control_b, *anchor);
                }
            },
        }
    }
}

/// Convert draw commands into a list of oriented quadratic segments and bounds.
pub fn collect_quadratic_segments(commands: &Vec<DrawCommand>) -> (r: (
    Vec<GpuQuadraticSegment>,
    Bounds,
))
    ensures
        r.0@ == quadratic_segments(commands@),
        r.1 == path_bounds(commands@),
{
    let mut builder = SegmentBuilder {
        segments: Vec::new(),
        bounds: None,
        cursor: None,
        start: TwipsPoint { x: 0, y: 0 },
    };
    let mut i: usize = 0;
    proof {
        assert(builder.state() == open_segments(commands@.take(0)));
    }
    while i < commands.len()
        invariant
            i <= commands.len(),
            builder.state() == open_segments(commands@.take(i as int)),
        decreases commands.len() - i,
    {
        assert(commands@.take(i + 1).drop_last() == commands@.take(i as int));
        builder.push(&commands[i]);
        i += 1;
    }
    assert(commands@.take(i as int) == commands@);
    builder.close();
    let bounds = match builder.bounds {
        Some(b) => b,
        None => Bounds { min_x: 0, min_y: 0, max_x: 0, max_y: 0 },
    };
    (builder.segments, bounds)
}

/// Whether a box contains a point.
pub open spec fn contains(b: Bounds, p: Point) -> bool {
    b.min_x <= p.x <= b.max_x && b.min_y <= p.y <= b.max_y
}

/// Whether a box contains the start, control and end points of a segment, and so
/// the whole segment.
pub open spec fn contains_segment(b: Bounds, s: GpuQuadraticSegment) -> bool {
    contains(b, s.start) && contains(b, s.control) && contains(b, s.end)
}

/// The bounds of a path contain all of its segments.
pub proof fn bounds_contain_segments(cmds: Seq<DrawCommand>, i: int)
    requires
        0 <= i < quadratic_segments(cmds).len(),
    ensures
        contains_segment(path_bounds(cmds), quadratic_segments(cmds)[i]),
{
    lemma_open_enclosed(cmds);
    lemma_close_enclosed(open_segments(cmds));
}

/// Whether a path has a step to a point that begins a sub-path.
pub open spec fn moves_to(cmds: Seq<DrawCommand>, p: TwipsPoint) -> bool {
    cmds.contains(DrawCommand::MoveTo(p))
}

/// Whether a box contains all segments of a path and the points at which its sub-paths
/// begin.
pub open spec fn contains_path(b: Bounds, cmds: Seq<DrawCommand>) -> bool {
    &&& forall|i: int|
        0 <= i < quadratic_segments(cmds).len() ==> contains_segment(
            b,
            #[trigger] quadratic_segments(cmds)[i],
        )
    &&& forall|p: TwipsPoint| #[trigger]
        moves_to(cmds, p) ==> contains(b, Point::spec_from_twips(p))
}

/// Whether a box lies in another.
pub open spec fn lies_in(inner: Bounds, outer: Bounds) -> bool {
    &&& outer.min_x <= inner.min_x && inner.max_x <= outer.max_x
    &&& outer.min_y <= inner.min_y && inner.max_y <= outer.max_y
}

/// The bounds of a path are the least box that contains it: they contain it, and lie in
/// every box that does. A path without sub-paths has no points to contain.
pub proof fn bounds_are_least(cmds: Seq<DrawCommand>, b: Bounds, p: TwipsPoint)
    requires
        moves_to(cmds, p),
        contains_path(b, cmds),
    ensures
        contains_path(path_bounds(cmds), cmds),
        lies_in(path_bounds(cmds), b),
{
    let s = open_segments(cmds);
    lemma_open_enclosed(cmds);
    lemma_close_enclosed(s);
    assert forall|q: TwipsPoint| #[trigger] moves_to(cmds, q) implies contains(
        path_bounds(cmds),
        Point::spec_from_twips(q),
    ) by {
        lemma_moves_enclosed(cmds, q);
    }
    lemma_moves_enclosed(cmds, p);
    let all = quadratic_segments(cmds);
    assert forall|i: int| 0 <= i < s.segments.len() implies contains_segment(
        b,
        #[trigger] s.segments[i],
    ) by {
        assert(all[i] == s.segments[i]);
    }
    lemma_open_least(cmds, b);
    if let Some(cursor) = s.cursor {
        if cursor != s.start {
            assert(contains_segment(b, all[s.segments.len() as int]));
        }
    }
}

proof fn lemma_moves_enclosed(cmds: Seq<DrawCommand>, p: TwipsPoint)
    requires
        moves_to(cmds, p),
    ensures
        open_segments(cmds).bounds is Some,
        contains(open_segments(cmds).bounds->0, Point::spec_from_twips(p)),
    decreases cmds.len(),
{
    let init = cmds.drop_last();
    let s = open_segments(init);
    lemma_open_enclosed(init);
    if cmds.last() != DrawCommand::MoveTo(p) {
        let i = choose|i: int| 0 <= i < cmds.len() && cmds[i] == DrawCommand::MoveTo(p);
        assert(init[i] == DrawCommand::MoveTo(p));
        lemma_moves_enclosed(init, p);
        if let DrawCommand::CubicCurveTo { control_a, control_b, anchor } = cmds.last() {
            if let Some(from) = s.cursor {
                lemma_cubic_keeps(s, from, control_a, control_b, anchor, 16);
            }
        }
    }
}

/// The lines of a cubic curve are appended, and the box only grows.
proof fn lemma_cubic_keeps(
    s: SegmentState,
    from: TwipsPoint,
    control_a: TwipsPoint,
    control_b: TwipsPoint,
    anchor: TwipsPoint,
    n: nat,
)
    ensures
        ({
            let t = cubic_lines(s, from, control_a, control_b, anchor, n);
            &&& s.segments.is_prefix_of(t.segments)
            &&& t.segments.len() == s.segments.len() + n
            &&& s.bounds matches Some(b) ==> t.bounds is Some && lies_in(b, t.bounds->0)
        }),
    decreases n,
{
    if n > 0 {
        lemma_cubic_keeps(s, from, control_a, control_b, anchor, (n - 1) as nat);
    }
}

/// Steps only append segments.
proof fn lemma_step_appends(s: SegmentState, cmd: DrawCommand)
    ensures
        s.segments.is_prefix_of(segment_step(s, cmd).segments),
{
    if let DrawCommand::CubicCurveTo { control_a, control_b, anchor } = cmd {
        if let Some(from) = s.cursor {
            lemma_cubic_keeps(s, from, control_a, control_b, anchor, 16);
        }
    }
}

proof fn lemma_cubic_least(
    s: SegmentState,
    from: TwipsPoint,
    control_a: TwipsPoint,
    control_b: TwipsPoint,
    anchor: TwipsPoint,
    n: nat,
    b: Bounds,
)
    requires
        s.bounds matches Some(c) ==> lies_in(c, b),
        ({
            let t = cubic_lines(s, from, control_a, control_b, anchor, n);
            forall|i: int|
                0 <= i < t.segments.len() ==> contains_segment(b, #[trigger] t.segments[i])
        }),
    ensures
        cubic_lines(s, from, control_a, control_b, anchor, n).bounds matches Some(c) ==> lies_in(
            c,
            b,
        ),
    decreases n,
{
    if n > 0 {
        let m = (n - 1) as nat;
        let t = cubic_lines(s, from, control_a, control_b, anchor, n);
        let u = cubic_lines(s, from, control_a, control_b, anchor, m);
        assert forall|i: int| 0 <= i < u.segments.len() implies contains_segment(
            b,
            #[trigger] u.segments[i],
        ) by {
            assert(t.segments[i] == u.segments[i]);
        }
        lemma_cubic_least(s, from, control_a, control_b, anchor, m, b);
        assert(contains_segment(b, t.segments[u.segments.len() as int]));
    }
}

/// The box lies in every box around the segments and the beginnings of sub-paths.
proof fn lemma_open_least(cmds: Seq<DrawCommand>, b: Bounds)
    requires
        forall|i: int|
            0 <= i < open_segments(cmds).segments.len() ==> contains_segment(
                b,
                #[trigger] open_segments(cmds).segments[i],
            ),
        forall|p: TwipsPoint| #[trigger]
            moves_to(cmds, p) ==> contains(b, Point::spec_from_twips(p)),
    ensures
        open_segments(cmds).bounds matches Some(c) ==> lies_in(c, b),
    decreases cmds.len(),
{
    if cmds.len() > 0 {
        let init = cmds.drop_last();
        let s = open_segments(init);
        let t = open_segments(cmds);
        lemma_step_appends(s, cmds.last());
        assert forall|i: int| 0 <= i < s.segments.len() implies contains_segment(
            b,
            #[trigger] s.segments[i],
        ) by {
            assert(t.segments[i] == s.segments[i]);
        }
        assert forall|p: TwipsPoint| #[trigger] moves_to(init, p) implies contains(
            b,
            Point::spec_from_twips(p),
        ) by {
            let i = choose|i: int| 0 <= i < init.len() && init[i] == DrawCommand::MoveTo(p);
            assert(cmds[i] == DrawCommand::MoveTo(p));
            assert(moves_to(cmds, p));
        }
        lemma_open_least(init, b);
        let last = t.segments.len() - 1;
        match cmds.last() {
            DrawCommand::MoveTo(p) => {
                assert(cmds[cmds.len() - 1] == DrawCommand::MoveTo(p));
                assert(moves_to(cmds, p));
                if t.segments.len() > s.segments.len() {
                    assert(contains_segment(b, t.segments[last]));
                }
            },
            DrawCommand::CubicCurveTo { control_a, control_b, anchor } => {
                if let Some(from) = s.cursor {
                    lemma_cubic_least(s, from, control_a, control_b, anchor, 16, b);
                }
            },
            _ => {
                if s.cursor is Some {
                    assert(contains_segment(b, t.segments[last]));
                }
            },
        }
    }
}

/// Whether everything so far lies in the box.
spec fn enclosed(s: SegmentState) -> bool {
    &&& s.segments.len() > 0 || s.cursor is Some ==> s.bounds is Some
    &&& s.bounds matches Some(b) ==> {
        &&& b.min_x <= b.max_x && b.min_y <= b.max_y
        &&& forall|i: int| 0 <= i < s.segments.len() ==> contains_segment(b, #[trigger] s.segments[i])
        &&& s.cursor matches Some(c) ==> contains(b, Point::spec_from_twips(c)) && contains(
            b,
            Point::spec_from_twips(s.start),
        )
    }
}

/// A midpoint lies between the two points.
proof fn lemma_midpoint(b: Bounds, p: Point, q: Point)
    requires
        contains(b, p),
        contains(b, q),
        path_point(p),
        path_point(q),
    ensures
        contains(b, midpoint(p, q)),
{
}

proof fn lemma_close_enclosed(s: SegmentState)
    requires
        enclosed(s),
    ensures
        enclosed(close_subpath(s)),
        close_subpath(s).segments.len() > 0 ==> close_subpath(s).bounds is Some,
{
    if let Some(cursor) = s.cursor {
        lemma_twips_point(cursor);
        lemma_twips_point(s.start);
        let b = s.bounds->0;
        lemma_midpoint(b, Point::spec_from_twips(cursor), Point::spec_from_twips(s.start));
    }
}

proof fn lemma_push_line_enclosed(s: SegmentState, from: Point, to: Point)
    requires
        enclosed(s),
        path_point(from),
        path_point(to),
    ensures
        enclosed(push_line(s, from, to)),
        push_line(s, from, to).bounds is Some,
        contains(push_line(s, from, to).bounds->0, to),
{
    let t = push_line(s, from, to);
    lemma_midpoint(t.bounds->0, from, to);
}

proof fn lemma_cubic_enclosed(
    s: SegmentState,
    from: TwipsPoint,
    control_a: TwipsPoint,
    control_b: TwipsPoint,
    anchor: TwipsPoint,
    n: nat,
)
    requires
        enclosed(s),
        n <= 16,
    ensures
        enclosed(cubic_lines(s, from, control_a, control_b, anchor, n)),
        cubic_lines(s, from, control_a, control_b, anchor, n).cursor == s.cursor,
        cubic_lines(s, from, control_a, control_b, anchor, n).start == s.start,
        n > 0 ==> {
            let b = cubic_lines(s, from, control_a, control_b, anchor, n).bounds;
            b is Some && contains(b->0, cubic_at(from, control_a, control_b, anchor, n as int))
        },
    decreases n,
{
    if n > 0 {
        let m = (n - 1) as nat;
        lemma_cubic_enclosed(s, from, control_a, control_b, anchor, m);
        lemma_cubic_path_point(from, control_a, control_b, anchor, n - 1);
        lemma_cubic_path_point(from, control_a, control_b, anchor, n as int);
        lemma_push_line_enclosed(
            cubic_lines(s, from, control_a, control_b, anchor, m),
            cubic_at(from, control_a, control_b, anchor, n - 1),
            cubic_at(from, control_a, control_b, anchor, n as int),
        );
    }
}

proof fn lemma_open_enclosed(cmds: Seq<DrawCommand>)
    ensures
        enclosed(open_segments(cmds)),
    decreases cmds.len(),
{
    if cmds.len() > 0 {
        lemma_open_enclosed(cmds.drop_last());
        let s = open_segments(cmds.drop_last());
        match cmds.last() {
            DrawCommand::MoveTo(_) => {
                lemma_close_enclosed(s);
            },
            DrawCommand::LineTo(p) => {
                if let Some(from) = s.cursor {
                    lemma_twips_point(from);
                    lemma_twips_point(p);
                    lemma_push_line_enclosed(
                        s,
                        Point::spec_from_twips(from),
                        Point::spec_from_twips(p),
                    );
                }
            },
            DrawCommand::QuadraticCurveTo { .. } => {},
            DrawCommand::CubicCurveTo { control_a, control_b, anchor } => {
                if let Some(from) = s.cursor {
                    lemma_cubic_enclosed(s, from, control_a, control_b, anchor, 16);
                    curves_meet_their_ends(from, control_a, control_b, anchor);
                }
            },
        }
    }
}

/// How far the segments of a path lead, all together.
pub open spec fn displacement(segments: Seq<GpuQuadraticSegment>) -> (int, int)
    decreases segments.len(),
{
    if segments.len() == 0 {
        (0, 0)
    } else {
        let d = displacement(segments.drop_last());
        let s = segments.last();
        (d.0 + (s.end.x - s.start.x), d.1 + (s.end.y - s.start.y))
    }
}

/// The segments of a path are closed contours: together they lead nowhere.
pub proof fn segments_are_closed(cmds: Seq<DrawCommand>)
    ensures
        displacement(quadratic_segments(cmds)) == (0int, 0int),
{
    lemma_open_displacement(cmds);
    lemma_close_displacement(open_segments(cmds));
}

/// How far the current sub-path has led from its start.
spec fn led(s: SegmentState) -> (int, int) {
    match s.cursor {
        Some(c) => (
            Point::spec_from_twips(c).x - Point::spec_from_twips(s.start).x,
            Point::spec_from_twips(c).y - Point::spec_from_twips(s.start).y,
        ),
        None => (0, 0),
    }
}

proof fn lemma_displacement_push(segments: Seq<GpuQuadraticSegment>, s: GpuQuadraticSegment)
    ensures
        displacement(segments.push(s)) == (
            displacement(segments).0 + (s.end.x - s.start.x),
            displacement(segments).1 + (s.end.y - s.start.y),
        ),
{
    assert(segments.push(s).drop_last() == segments);
}

proof fn lemma_close_displacement(s: SegmentState)
    requires
        displacement(s.segments) == led(s),
    ensures
        displacement(close_subpath(s).segments) == (0int, 0int),
{
    if let Some(cursor) = s.cursor {
        if cursor != s.start {
            lemma_displacement_push(
                s.segments,
                line_as_quad(Point::spec_from_twips(cursor), Point::spec_from_twips(s.start)),
            );
        }
    }
}

proof fn lemma_cubic_displacement(
    s: SegmentState,
    from: TwipsPoint,
    control_a: TwipsPoint,
    control_b: TwipsPoint,
    anchor: TwipsPoint,
    n: nat,
)
    ensures
        ({
            let t = cubic_lines(s, from, control_a, control_b, anchor, n);
            let (p, q) = (
                cubic_at(from, control_a, control_b, anchor, 0),
                cubic_at(from, control_a, control_b, anchor, n as int),
            );
            &&& displacement(t.segments).0 == displacement(s.segments).0 + (q.x - p.x)
            &&& displacement(t.segments).1 == displacement(s.segments).1 + (q.y - p.y)
            &&& t.start == s.start
        }),
    decreases n,
{
    if n > 0 {
        let m = (n - 1) as nat;
        lemma_cubic_displacement(s, from, control_a, control_b, anchor, m);
        lemma_displacement_push(
            cubic_lines(s, from, control_a, control_b, anchor, m).segments,
            line_as_quad(
                cubic_at(from, control_a, control_b, anchor, n - 1),
                cubic_at(from, control_a, control_b, anchor, n as int),
            ),
        );
    }
}

proof fn lemma_open_displacement(cmds: Seq<DrawCommand>)
    ensures
        displacement(open_segments(cmds).segments) == led(open_segments(cmds)),
    decreases cmds.len(),
{
    if cmds.len() > 0 {
        lemma_open_displacement(cmds.drop_last());
        let s = open_segments(cmds.drop_last());
        match cmds.last() {
            DrawCommand::MoveTo(_) => {
                lemma_close_displacement(s);
            },
            DrawCommand::LineTo(p) => {
                if let Some(from) = s.cursor {
                    lemma_displacement_push(
                        s.segments,
                        line_as_quad(Point::spec_from_twips(from), Point::spec_from_twips(p)),
                    );
                }
            },
            DrawCommand::QuadraticCurveTo { control, anchor } => {
                if let Some(from) = s.cursor {
                    lemma_displacement_push(
                        s.segments,
                        GpuQuadraticSegment {
                            start: Point::spec_from_twips(from),
                            control: Point::spec_from_twips(control),
                            end: Point::spec_from_twips(anchor),
                        },
                    );
                }
            },
            DrawCommand::CubicCurveTo { control_a, control_b, anchor } => {
                if let Some(from) = s.cursor {
                    lemma_cubic_displacement(s, from, control_a, control_b, anchor, 16);
                    curves_meet_their_ends(from, control_a, control_b, anchor);
                }
            },
        }
    }
}

/// Whether each segment begins where the one before it ends.
pub open spec fn is_chain(segments: Seq<GpuQuadraticSegment>) -> bool {
    forall|i: int, j: int|
        0 <= i && j == i + 1 && j < segments.len() ==> (#[trigger] segments[i]).end == (
        #[trigger] segments[j]).start
}

/// Whether segments are a closed contour that begins at a point: each begins where the
/// one before it ends, and the last ends where the first begins.
pub open spec fn is_contour(segments: Seq<GpuQuadraticSegment>, start: Point) -> bool {
    &&& segments.len() > 0
    &&& is_chain(segments)
    &&& segments.first().start == start
    &&& segments.last().end == start
}

/// Whether a sequence of segments is a contour that begins at a point where a sub-path
/// of a path begins.
pub open spec fn is_contour_of(segments: Seq<GpuQuadraticSegment>, cmds: Seq<DrawCommand>) -> bool {
    exists|p: TwipsPoint| #[trigger]
        moves_to(cmds, p) && is_contour(segments, Point::spec_from_twips(p))
}

/// The segments of a path are closed contours, one after the other: within each
/// contour every segment begins where the one before it ends, and the last ends where
/// the first begins, at the beginning of a sub-path. The contours are returned.
pub proof fn segments_form_contours(cmds: Seq<DrawCommand>) -> (contours: Seq<
    Seq<GpuQuadraticSegment>,
>)
    ensures
        contours.flatten() == quadratic_segments(cmds),
        forall|i: int| 0 <= i < contours.len() ==> is_contour_of(#[trigger] contours[i], cmds),
{
    let (done, current) = lemma_open_contours(cmds);
    lemma_close_contours(cmds, open_segments(cmds), done, current)
}

/// Whether the segments so far are contours and a chain from the beginning of the
/// current sub-path.
spec fn chained(
    s: SegmentState,
    cmds: Seq<DrawCommand>,
    done: Seq<Seq<GpuQuadraticSegment>>,
    current: Seq<GpuQuadraticSegment>,
) -> bool {
    &&& done.flatten() + current == s.segments
    &&& forall|i: int| 0 <= i < done.len() ==> is_contour_of(#[trigger] done[i], cmds)
    &&& is_chain(current)
    &&& match s.cursor {
        Some(c) => {
            &&& moves_to(cmds, s.start)
            &&& if current.len() == 0 {
                c == s.start
            } else {
                &&& current.first().start == Point::spec_from_twips(s.start)
                &&& current.last().end == Point::spec_from_twips(c)
            }
        },
        None => current.len() == 0,
    }
}

/// A chain goes on with a segment that begins where it ends.
proof fn lemma_chain_push(current: Seq<GpuQuadraticSegment>, next: GpuQuadraticSegment)
    requires
        is_chain(current),
        current.len() > 0 ==> current.last().end == next.start,
    ensures
        is_chain(current.push(next)),
        current.push(next).last() == next,
        current.push(next).first() == if current.len() > 0 {
            current.first()
        } else {
            next
        },
{
    let longer = current.push(next);
    assert forall|i: int, j: int| 0 <= i && j == i + 1 && j < longer.len() implies (
    #[trigger] longer[i]).end == (#[trigger] longer[j]).start by {
        if j < current.len() {
            assert(current[i].end == current[j].start);
        }
    }
}

proof fn lemma_close_contours(
    cmds: Seq<DrawCommand>,
    s: SegmentState,
    done: Seq<Seq<GpuQuadraticSegment>>,
    current: Seq<GpuQuadraticSegment>,
) -> (contours: Seq<Seq<GpuQuadraticSegment>>)
    requires
        chained(s, cmds, done, current),
    ensures
        contours.flatten() == close_subpath(s).segments,
        forall|i: int| 0 <= i < contours.len() ==> is_contour_of(#[trigger] contours[i], cmds),
{
    let start = Point::spec_from_twips(s.start);
    match s.cursor {
        Some(cursor) if current.len() > 0 => {
            let closed = if cursor == s.start {
                current
            } else {
                current.push(line_as_quad(Point::spec_from_twips(cursor), start))
            };
            if cursor != s.start {
                let closing = line_as_quad(Point::spec_from_twips(cursor), start);
                lemma_chain_push(current, closing);
                assert(done.flatten() + closed =~= s.segments.push(closing));
            }
            assert(moves_to(cmds, s.start) && is_contour(closed, start));
            assert(is_contour_of(closed, cmds));
            let contours = done.push(closed);
            done.lemma_flatten_push(closed);
            contours
        },
        _ => {
            assert(done.flatten() + current =~= done.flatten());
            done
        },
    }
}

proof fn lemma_contours_of_more(
    done: Seq<Seq<GpuQuadraticSegment>>,
    init: Seq<DrawCommand>,
    cmds: Seq<DrawCommand>,
)
    requires
        cmds.len() > 0,
        init == cmds.drop_last(),
        forall|i: int| 0 <= i < done.len() ==> is_contour_of(#[trigger] done[i], init),
    ensures
        forall|i: int| 0 <= i < done.len() ==> is_contour_of(#[trigger] done[i], cmds),
        forall|p: TwipsPoint| #[trigger] moves_to(init, p) ==> moves_to(cmds, p),
{
    assert forall|p: TwipsPoint| #[trigger] moves_to(init, p) implies moves_to(cmds, p) by {
        let i = choose|i: int| 0 <= i < init.len() && init[i] == DrawCommand::MoveTo(p);
        assert(cmds[i] == DrawCommand::MoveTo(p));
    }
    assert forall|i: int| 0 <= i < done.len() implies is_contour_of(#[trigger] done[i], cmds) by {
        let p = choose|p: TwipsPoint| #[trigger]
            moves_to(init, p) && is_contour(done[i], Point::spec_from_twips(p));
        assert(moves_to(cmds, p));
    }
}

proof fn lemma_cubic_chain(
    s: SegmentState,
    from: TwipsPoint,
    control_a: TwipsPoint,
    control_b: TwipsPoint,
    anchor: TwipsPoint,
    n: nat,
    before: Seq<GpuQuadraticSegment>,
    current: Seq<GpuQuadraticSegment>,
) -> (longer: Seq<GpuQuadraticSegment>)
    requires
        s.segments == before + current,
        is_chain(current),
        current.len() > 0 ==> current.last().end == cubic_at(from, control_a, control_b, anchor, 0),
    ensures
        ({
            let t = cubic_lines(s, from, control_a, control_b, anchor, n);
            &&& t.segments == before + longer
            &&& t.start == s.start
            &&& is_chain(longer)
            &&& longer.len() == current.len() + n
            &&& longer.len() > 0 ==> longer.last().end == cubic_at(
                from,
                control_a,
                control_b,
                anchor,
                n as int,
            )
            &&& longer.len() > 0 ==> longer.first().start == if current.len() > 0 {
                current.first().start
            } else {
                cubic_at(from, control_a, control_b, anchor, 0)
            }
        }),
    decreases n,
{
    if n == 0 {
        current
    } else {
        let m = (n - 1) as nat;
        let shorter = lemma_cubic_chain(
            s,
            from,
            control_a,
            control_b,
            anchor,
            m,
            before,
            current,
        );
        let next = line_as_quad(
            cubic_at(from, control_a, control_b, anchor, n - 1),
            cubic_at(from, control_a, control_b, anchor, n as int),
        );
        lemma_chain_push(shorter, next);
        assert(before + shorter.push(next) =~= (before + shorter).push(next));
        shorter.push(next)
    }
}

proof fn lemma_open_contours(cmds: Seq<DrawCommand>) -> (r: (
    Seq<Seq<GpuQuadraticSegment>>,
    Seq<GpuQuadraticSegment>,
))
    ensures
        chained(open_segments(cmds), cmds, r.0, r.1),
    decreases cmds.len(),
{
    let none = Seq::<GpuQuadraticSegment>::empty();
    if cmds.len() == 0 {
        let done = Seq::<Seq<GpuQuadraticSegment>>::empty();
        assert(done.flatten() + none =~= none);
        (done, none)
    } else {
        let init = cmds.drop_last();
        let s = open_segments(init);
        let (done, current) = lemma_open_contours(init);
        lemma_contours_of_more(done, init, cmds);
        match (cmds.last(), s.cursor) {
            (DrawCommand::MoveTo(p), _) => {
                let contours = lemma_close_contours(init, s, done, current);
                lemma_contours_of_more(contours, init, cmds);
                assert(cmds[cmds.len() - 1] == DrawCommand::MoveTo(p));
                assert(contours.flatten() + none =~= contours.flatten());
                (contours, none)
            },
            (DrawCommand::LineTo(p), Some(from)) => {
                let next = line_as_quad(Point::spec_from_twips(from), Point::spec_from_twips(p));
                lemma_chain_push(current, next);
                assert(done.flatten() + current.push(next) =~= s.segments.push(next));
                (done, current.push(next))
            },
            (DrawCommand::QuadraticCurveTo { control, anchor }, Some(from)) => {
                let next = GpuQuadraticSegment {
                    start: Point::spec_from_twips(from),
                    control: Point::spec_from_twips(control),
                    end: Point::spec_from_twips(anchor),
                };
                lemma_chain_push(current, next);
                assert(done.flatten() + current.push(next) =~= s.segments.push(next));
                (done, current.push(next))
            },
            (DrawCommand::CubicCurveTo { control_a, control_b, anchor }, Some(from)) => {
                curves_meet_their_ends(from, control_a, control_b, anchor);
                let longer = lemma_cubic_chain(
                    s,
                    from,
                    control_a,
                    control_b,
                    anchor,
                    16,
                    done.flatten(),
                    current,
                );
                (done, longer)
            },
            _ => (done, current),
        }
    }
}

/// Whether a box lies where a path can lie.
pub open spec fn bounds_in_range(b: Bounds) -> bool {
    path_coord(b.min_x as int) && path_coord(b.min_y as int) && path_coord(b.max_x as int)
        && path_coord(b.max_y as int)
}

spec fn some_in_range(b: Option<Bounds>) -> bool {
    b matches Some(b) ==> bounds_in_range(b)
}

proof fn lemma_cubic_in_range(
    s: SegmentState,
    from: TwipsPoint,
    control_a: TwipsPoint,
    control_b: TwipsPoint,
    anchor: TwipsPoint,
    n: nat,
)
    requires
        some_in_range(s.bounds),
        n <= 16,
    ensures
        some_in_range(cubic_lines(s, from, control_a, control_b, anchor, n).bounds),
    decreases n,
{
    if n > 0 {
        lemma_cubic_in_range(s, from, control_a, control_b, anchor, (n - 1) as nat);
        lemma_cubic_path_point(from, control_a, control_b, anchor, n - 1);
        lemma_cubic_path_point(from, control_a, control_b, anchor, n as int);
    }
}

proof fn lemma_open_in_range(cmds: Seq<DrawCommand>)
    ensures
        some_in_range(open_segments(cmds).bounds),
    decreases cmds.len(),
{
    if cmds.len() > 0 {
        lemma_open_in_range(cmds.drop_last());
        let s = open_segments(cmds.drop_last());
        lemma_twips_point(s.start);
        lemma_twips_point(cmds.last().end());
        if let Some(from) = s.cursor {
            lemma_twips_point(from);
        }
        match cmds.last() {
            DrawCommand::QuadraticCurveTo { control, .. } => {
                lemma_twips_point(control);
            },
            DrawCommand::CubicCurveTo { control_a, control_b, anchor } => {
                if let Some(from) = s.cursor {
                    lemma_cubic_in_range(s, from, control_a, control_b, anchor, 16);
                }
            },
            _ => {},
        }
    }
}

/// The bounds of a path leave room to grow them by the width of a stroke.
pub(crate) proof fn lemma_bounds_in_range(cmds: Seq<DrawCommand>)
    ensures
        bounds_in_range(path_bounds(cmds)),
{
    lemma_open_in_range(cmds);
    lemma_twips_point(open_segments(cmds).start);
}

/// Whether a segment is straight: its control point lies in the middle between its ends.
pub open spec fn is_straight(s: GpuQuadraticSegment) -> bool {
    2 * s.control.x == s.start.x + s.end.x && 2 * s.control.y == s.start.y + s.end.y
}

/// Whether segments are others and a straight one from a position in twips to another.
pub open spec fn adds_line(
    after: Seq<GpuQuadraticSegment>,
    before: Seq<GpuQuadraticSegment>,
    from: TwipsPoint,
    to: TwipsPoint,
) -> bool {
    &&& after.len() == before.len() + 1
    &&& after.take(before.len() as int) == before
    &&& is_straight(after.last())
    &&& is_at(after.last().start, from)
    &&& is_at(after.last().end, to)
}

/// Where the last sub-path of a path begins.
pub open spec fn last_move(cmds: Seq<DrawCommand>) -> Option<TwipsPoint>
    decreases cmds.len(),
{
    if cmds.len() == 0 {
        None
    } else if let DrawCommand::MoveTo(p) = cmds.last() {
        Some(p)
    } else {
        last_move(cmds.drop_last())
    }
}

/// The segments of a path follow it. A line is one straight segment. A quadratic curve is
/// one segment from where the path was, with its own control point, to its end. A cubic
/// curve is sixteen straight segments between points that lie on it, with its control
/// points in their order, at equal steps of its parameter. Where a new sub-path begins, the
/// one before it is closed with a straight segment, if it does not end where it began; and
/// so is the last one. Before the first sub-path there is nothing.
pub proof fn segments_follow_their_path(cmds: Seq<DrawCommand>, cmd: DrawCommand, i: int)
    requires
        1 <= i <= 16,
    ensures
        ({
            let before = open_segments(cmds).segments;
            let after = open_segments(cmds.push(cmd)).segments;
            let n = before.len() as int;
            let from = last_point(cmds);
            &&& match (last_move(cmds), cmd) {
                (None, _) => after == before && quadratic_segments(cmds) == before && n == 0,
                (Some(start), DrawCommand::MoveTo(_)) => if from == start {
                    after == before
                } else {
                    adds_line(after, before, from, start)
                },
                (Some(_), DrawCommand::LineTo(p)) => adds_line(after, before, from, p),
                (Some(_), DrawCommand::QuadraticCurveTo { control, anchor }) => {
                    &&& after.len() == n + 1
                    &&& after.take(n) == before
                    &&& is_at(after[n].start, from)
                    &&& is_at(after[n].control, control)
                    &&& is_at(after[n].end, anchor)
                },
                (Some(_), DrawCommand::CubicCurveTo { control_a, control_b, anchor }) => {
                    let s = after[n + i - 1];
                    &&& after.len() == n + 16
                    &&& after.take(n) == before
                    &&& is_straight(s)
                    &&& is_on_cubic(s.start, from, control_a, control_b, anchor, i - 1)
                    &&& is_on_cubic(s.end, from, control_a, control_b, anchor, i)
                },
            }
            &&& last_move(cmds) matches Some(start) ==> if from == start {
                quadratic_segments(cmds) == before
            } else {
                adds_line(quadratic_segments(cmds), before, from, start)
            }
        }),
{
    let s = open_segments(cmds);
    let all = cmds.push(cmd);
    assert(all.drop_last() == cmds);
    let t = open_segments(all);
    let n = s.segments.len() as int;
    lemma_segment_cursor(cmds);
    if let Some(from) = s.cursor {
        let closed = close_subpath(s).segments;
        lemma_straight_line(from, s.start);
        if from != s.start {
            assert(closed.take(n) =~= s.segments);
        }
        match cmd {
            DrawCommand::LineTo(p) => {
                lemma_straight_line(from, p);
                assert(t.segments.take(n) =~= s.segments);
            },
            DrawCommand::QuadraticCurveTo { .. } => {
                assert(t.segments.take(n) =~= s.segments);
            },
            DrawCommand::CubicCurveTo { control_a, control_b, anchor } => {
                lemma_cubic_segment(s, from, control_a, control_b, anchor, 16, i);
                assert(t.segments.take(n) =~= s.segments);
                cubic_points_lie_on_the_curve(from, control_a, control_b, anchor, i - 1);
                cubic_points_lie_on_the_curve(from, control_a, control_b, anchor, i);
                lemma_cubic_path_point(from, control_a, control_b, anchor, i - 1);
                lemma_cubic_path_point(from, control_a, control_b, anchor, i);
            },
            _ => {},
        }
    }
}

/// A line between positions in twips has its middle at a whole number of units.
proof fn lemma_straight_line(from: TwipsPoint, to: TwipsPoint)
    ensures
        is_straight(line_as_quad(Point::spec_from_twips(from), Point::spec_from_twips(to))),
{
    lemma_twips_point(from);
    lemma_twips_point(to);
}

/// Collecting has arrived where the path has, once there is a sub-path.
proof fn lemma_segment_cursor(cmds: Seq<DrawCommand>)
    ensures
        match last_move(cmds) {
            Some(start) => open_segments(cmds).cursor == Some(last_point(cmds)) && open_segments(
                cmds,
            ).start == start,
            None => open_segments(cmds).cursor is None && open_segments(cmds).segments.len() == 0,
        },
    decreases cmds.len(),
{
    if cmds.len() > 0 {
        lemma_segment_cursor(cmds.drop_last());
        let s = open_segments(cmds.drop_last());
        if let DrawCommand::CubicCurveTo { control_a, control_b, anchor } = cmds.last() {
            if let Some(from) = s.cursor {
                lemma_cubic_displacement(s, from, control_a, control_b, anchor, 16);
            }
        }
    }
}

/// A line of a cubic curve.
proof fn lemma_cubic_segment(
    s: SegmentState,
    from: TwipsPoint,
    control_a: TwipsPoint,
    control_b: TwipsPoint,
    anchor: TwipsPoint,
    n: nat,
    i: int,
)
    requires
        1 <= i <= n,
    ensures
        ({
            let t = cubic_lines(s, from, control_a, control_b, anchor, n);
            &&& t.segments.len() == s.segments.len() + n
            &&& s.segments.is_prefix_of(t.segments)
            &&& t.segments[s.segments.len() + i - 1] == line_as_quad(
                cubic_at(from, control_a, control_b, anchor, i - 1),
                cubic_at(from, control_a, control_b, anchor, i),
            )
        }),
    decreases n,
{
    lemma_cubic_keeps(s, from, control_a, control_b, anchor, (n - 1) as nat);
    lemma_cubic_keeps(s, from, control_a, control_b, anchor, n);
    if i < n {
        lemma_cubic_segment(s, from, control_a, control_b, anchor, (n - 1) as nat, i);
    }
}

} // verus!
