//! Fill geometry: fan triangles for the inside of a path and Loop-Blinn triangles
//! for its quadratic curves.
use crate::geometry::{Color, Point, TwipsPoint};
use crate::path::{
    cubic_at, cubic_point, cubic_points_lie_on_the_curve, is_at, is_on_cubic, last_point,
    DrawCommand,
};
use crate::rounding::{read_back_point, read_back_twips_point};
use crate::vertex::{BezierTexVertex, BezierVertex, Offset, Position, Uv};
use vstd::prelude::*;

verus! {

/// A vertex at a point.
pub open spec fn vertex_at(point: Point, uv: Uv, fill_type: i32) -> BezierTexVertex {
    BezierTexVertex { position: Position { point, offset: Offset::Zero }, uv, fill_type }
}

/// A vertex of an interior triangle.
pub open spec fn interior(point: Point) -> BezierTexVertex {
    vertex_at(point, Uv { u_halves: 0, v_halves: 0 }, 0)
}

/// The texture coordinates of the start of a curve.
pub open spec fn start_uv() -> Uv {
    Uv { u_halves: 0, v_halves: 0 }
}

/// The texture coordinates of the control point of a curve.
pub open spec fn control_uv() -> Uv {
    Uv { u_halves: 1, v_halves: 0 }
}

/// The texture coordinates of the end of a curve.
pub open spec fn end_uv() -> Uv {
    Uv { u_halves: 2, v_halves: 2 }
}

/// The geometry of the path so far. `origin` is where the current sub-path
/// started, `prev` the on-curve vertex that it has arrived at, and `cursor` the
/// point of that vertex. `colored` tells the fills whose vertices carry a color.
pub ghost struct FillState {
    pub colored: bool,
    pub vertices: Seq<BezierTexVertex>,
    pub indices: Seq<u32>,
    pub origin: Option<int>,
    pub prev: Option<int>,
    pub cursor: TwipsPoint,
}

/// The fan triangle that an on-curve vertex closes: none at the start of a
/// sub-path, where it would have no area.
pub open spec fn fan_triangle(origin: Option<int>, prev: Option<int>, index: int) -> Seq<u32> {
    match (origin, prev) {
        (Some(o), Some(p)) if o != p => seq![o as u32, p as u32, index as u32],
        _ => seq![],
    }
}

/// Appends an on-curve vertex and its fan triangle.
pub open spec fn on_curve(s: FillState, point: Point) -> FillState {
    FillState {
        vertices: s.vertices.push(interior(point)),
        indices: s.indices + fan_triangle(s.origin, s.prev, s.vertices.len() as int),
        ..s
    }
}

/// Where a cubic curve starts. In a fill whose vertices carry a color, its start is
/// read back from the vertex before it, which holds pixels in single precision.
pub open spec fn cubic_start(s: FillState) -> TwipsPoint {
    if s.colored {
        read_back_point(s.cursor)
    } else {
        s.cursor
    }
}

/// Appends the first `n` line segments of a cubic curve.
pub open spec fn cubic_steps(
    s: FillState,
    control_a: TwipsPoint,
    control_b: TwipsPoint,
    anchor: TwipsPoint,
    n: nat,
) -> FillState
    decreases n,
{
    if n == 0 {
        s
    } else {
        let t = cubic_steps(s, control_a, control_b, anchor, (n - 1) as nat);
        FillState {
            prev: Some(t.vertices.len() as int),
            ..on_curve(t, cubic_at(cubic_start(s), control_a, control_b, anchor, n as int))
        }
    }
}

/// Appends one step of the path.
pub open spec fn fill_step(s: FillState, cmd: DrawCommand) -> FillState {
    let n = s.vertices.len() as int;
    match cmd {
        DrawCommand::MoveTo(p) => FillState {
            vertices: s.vertices.push(interior(Point::spec_from_twips(p))),
            origin: Some(n),
            prev: Some(n),
            cursor: p,
            ..s
        },
        DrawCommand::LineTo(p) => FillState {
            prev: Some(n),
            cursor: p,
            ..on_curve(s, Point::spec_from_twips(p))
        },
        DrawCommand::QuadraticCurveTo { control, anchor } => {
            let t = on_curve(s, Point::spec_from_twips(anchor));
            if s.prev is None {
                t
            } else {
                FillState {
                    vertices: t.vertices + seq![
                        vertex_at(Point::spec_from_twips(s.cursor), start_uv(), 1),
                        vertex_at(Point::spec_from_twips(control), control_uv(), 1),
                        vertex_at(Point::spec_from_twips(anchor), end_uv(), 1),
                    ],
                    indices: t.indices + seq![(n + 1) as u32, (n + 2) as u32, (n + 3) as u32],
                    prev: Some(n),
                    cursor: anchor,
                    ..t
                }
            }
        },
        DrawCommand::CubicCurveTo { control_a, control_b, anchor } => if s.prev is None {
            s
        } else {
            FillState { cursor: anchor, ..cubic_steps(s, control_a, control_b, anchor, 16) }
        },
    }
}

/// The geometry of a path, with vertices that carry a color (`colored`) or not.
pub open spec fn fill_geometry(cmds: Seq<DrawCommand>, colored: bool) -> FillState
    decreases cmds.len(),
{
    if cmds.len() == 0 {
        FillState {
            colored,
            vertices: seq![],
            indices: seq![],
            origin: None,
            prev: None,
            cursor: TwipsPoint { x: 0, y: 0 },
        }
    } else {
        fill_step(fill_geometry(cmds.drop_last(), colored), cmds.last())
    }
}

/// Whether all vertices of a path can be named by a 32-bit index, and its indices
/// counted in 32 bits. Whether the vertices carry a color does not matter.
pub open spec fn fill_fits(cmds: Seq<DrawCommand>) -> bool {
    &&& fill_geometry(cmds, false).vertices.len() <= u32::MAX
    &&& fill_geometry(cmds, false).indices.len() <= u32::MAX
}

/// Whether two geometries differ at most in the points of their vertices.
pub open spec fn same_structure(a: FillState, b: FillState) -> bool {
    &&& a.indices == b.indices
    &&& a.vertices.len() == b.vertices.len()
    &&& forall|i: int|
        0 <= i < a.vertices.len() ==> (#[trigger] a.vertices[i]).uv == b.vertices[i].uv
            && a.vertices[i].fill_type == b.vertices[i].fill_type
    &&& a.origin == b.origin
    &&& a.prev == b.prev
    &&& a.cursor == b.cursor
}

/// A path has the same structure as a fill whether or not the vertices carry a color:
/// the same triangles, between vertices with the same texture coordinates.
pub proof fn color_does_not_change_the_structure(cmds: Seq<DrawCommand>)
    ensures
        same_structure(fill_geometry(cmds, true), fill_geometry(cmds, false)),
    decreases cmds.len(),
{
    if cmds.len() > 0 {
        color_does_not_change_the_structure(cmds.drop_last());
        if let DrawCommand::CubicCurveTo { control_a, control_b, anchor } = cmds.last() {
            lemma_cubic_structure(
                fill_geometry(cmds.drop_last(), true),
                fill_geometry(cmds.drop_last(), false),
                control_a,
                control_b,
                anchor,
                16,
            );
        }
    }
}

proof fn lemma_cubic_structure(
    a: FillState,
    b: FillState,
    control_a: TwipsPoint,
    control_b: TwipsPoint,
    anchor: TwipsPoint,
    n: nat,
)
    requires
        same_structure(a, b),
    ensures
        same_structure(
            cubic_steps(a, control_a, control_b, anchor, n),
            cubic_steps(b, control_a, control_b, anchor, n),
        ),
    decreases n,
{
    if n > 0 {
        lemma_cubic_structure(a, b, control_a, control_b, anchor, (n - 1) as nat);
    }
}

/// Without cubic curves the geometry is the same whether or not the vertices carry a
/// color.
pub proof fn color_only_moves_cubic_curves(cmds: Seq<DrawCommand>)
    requires
        forall|i: int| 0 <= i < cmds.len() ==> !(#[trigger] cmds[i] is CubicCurveTo),
    ensures
        fill_geometry(cmds, true).vertices == fill_geometry(cmds, false).vertices,
    decreases cmds.len(),
{
    color_does_not_change_the_structure(cmds);
    if cmds.len() > 0 {
        let init = cmds.drop_last();
        color_does_not_change_the_structure(init);
        assert forall|i: int| 0 <= i < init.len() implies !(#[trigger] init[i] is CubicCurveTo) by {
            assert(init[i] == cmds[i]);
        }
        color_only_moves_cubic_curves(init);
    }
}

pub(crate) proof fn lemma_cubic_grows(
    s: FillState,
    control_a: TwipsPoint,
    control_b: TwipsPoint,
    anchor: TwipsPoint,
    n: nat,
)
    ensures
        ({
            let t = cubic_steps(s, control_a, control_b, anchor, n);
            &&& t.vertices.len() == s.vertices.len() + n
            &&& s.indices.len() <= t.indices.len() <= s.indices.len() + 3 * n
            &&& t.origin == s.origin
            &&& t.cursor == s.cursor
            &&& t.colored == s.colored
            &&& n > 0 ==> t.prev == Some(s.vertices.len() + n - 1)
        }),
    decreases n,
{
    if n > 0 {
        lemma_cubic_grows(s, control_a, control_b, anchor, (n - 1) as nat);
    }
}

proof fn lemma_step_grows(s: FillState, cmd: DrawCommand)
    ensures
        s.vertices.len() <= fill_step(s, cmd).vertices.len() <= s.vertices.len() + 16,
        s.indices.len() <= fill_step(s, cmd).indices.len() <= s.indices.len() + 48,
{
    if let DrawCommand::CubicCurveTo { control_a, control_b, anchor } = cmd {
        lemma_cubic_grows(s, control_a, control_b, anchor, 16);
    }
}

pub(crate) proof fn lemma_prefix_grows(cmds: Seq<DrawCommand>, i: int)
    requires
        0 <= i <= cmds.len(),
    ensures
        fill_fits(cmds) ==> fill_fits(cmds.take(i)),
    decreases cmds.len() - i,
{
    if i < cmds.len() {
        lemma_prefix_grows(cmds, i + 1);
        assert(cmds.take(i + 1).drop_last() == cmds.take(i));
        lemma_step_grows(fill_geometry(cmds.take(i), false), cmds[i]);
    } else {
        assert(cmds.take(i) == cmds);
    }
}

/// An index into the vertices, as the contracts see it.
pub open spec fn index_view(index: Option<u32>) -> Option<int> {
    match index {
        Some(i) => Some(i as int),
        None => None,
    }
}

/// Builds the geometry of a path step by step.
struct FillBuilder {
    colored: bool,
    vertices: Vec<BezierTexVertex>,
    indices: Vec<u32>,
    origin: Option<u32>,
    prev: Option<u32>,
    cursor: TwipsPoint,
}

impl FillBuilder {
    spec fn state(self) -> FillState {
        FillState {
            colored: self.colored,
            vertices: self.vertices@,
            indices: self.indices@,
            origin: index_view(self.origin),
            prev: index_view(self.prev),
            cursor: self.cursor,
        }
    }

    /// Appends a vertex and returns its index.
    fn push_vertex(&mut self, point: Point, uv: Uv, fill_type: i32) -> (index: u32)
        requires
            old(self).vertices@.len() < u32::MAX,
        ensures
            index == old(self).vertices@.len(),
            final(self).state() == (FillState {
                vertices: old(self).vertices@.push(vertex_at(point, uv, fill_type)),
                ..old(self).state()
            }),
    {
        let index: u32 = self.vertices.len() as u32;
        self.vertices.push(
            BezierTexVertex { position: Position { point, offset: Offset::Zero }, uv, fill_type },
        );
        index
    }

    /// Appends an on-curve vertex and its fan triangle: origin, previous vertex,
    /// new vertex.
    fn push_on_curve(&mut self, point: Point) -> (index: u32)
        requires
            old(self).vertices@.len() < u32::MAX,
        ensures
            index == old(self).vertices@.len(),
            final(self).state() == on_curve(old(self).state(), point),
    {
        let index: u32 = self.push_vertex(point, Uv { u_halves: 0, v_halves: 0 }, 0);
        if let (Some(origin), Some(prev)) = (self.origin, self.prev) {
            if origin != prev {
                self.indices.push(origin);
                self.indices.push(prev);
                self.indices.push(index);
            }
        }
        assert(self.indices@ == old(self).indices@ + fan_triangle(
            old(self).state().origin,
            old(self).state().prev,
            index as int,
        ));
        index
    }

    /// Appends a quadratic curve.
    fn push_quadratic(&mut self, control: TwipsPoint, anchor: TwipsPoint)
        requires
            old(self).vertices@.len() + 4 <= u32::MAX || (old(self).prev is None && old(
                self,
            ).vertices@.len() < u32::MAX),
        ensures
            final(self).state() == fill_step(
                old(self).state(),
                DrawCommand::QuadraticCurveTo { control, anchor },
            ),
    {
        let anchor_index: u32 = self.push_on_curve(Point::from_twips(anchor));
        if self.prev.is_none() {
            return ;
        }
        // The Loop-Blinn curve correction triangle.
        let start = Point::from_twips(self.cursor);
        let v0: u32 = self.push_vertex(start, Uv { u_halves: 0, v_halves: 0 }, 1);
        let v1: u32 = self.push_vertex(
            Point::from_twips(control),
            Uv { u_halves: 1, v_halves: 0 },
            1,
        );
        let v2: u32 = self.push_vertex(
            Point::from_twips(anchor),
            Uv { u_halves: 2, v_halves: 2 },
            1,
        );
        self.indices.push(v0);
        self.indices.push(v1);
        self.indices.push(v2);
        self.prev = Some(anchor_index);
        self.cursor = anchor;
        proof {
            let goal = fill_step(
                old(self).state(),
                DrawCommand::QuadraticCurveTo { control, anchor },
            );
            assert(self.state().vertices == goal.vertices);
            assert(self.state().indices == goal.indices);
        }
    }

    /// Appends a cubic curve, subdivided into line segments.
    fn push_cubic(&mut self, control_a: TwipsPoint, control_b: TwipsPoint, anchor: TwipsPoint)
        requires
            old(self).prev is None || old(self).vertices@.len() + 16 <= u32::MAX,
        ensures
            final(self).state() == fill_step(
                old(self).state(),
                DrawCommand::CubicCurveTo { control_a, control_b, anchor },
            ),
    {
        if self.prev.is_none() {
            return ;
        }
        let start = if self.colored {
            read_back_twips_point(self.cursor)
        } else {
            self.cursor
        };
        let ghost s = self.state();
        let mut i: u32 = 1;
        while i <= 16
            invariant
                1 <= i <= 17,
                cubic_start(s) == start,
                s.vertices.len() + 16 <= u32::MAX,
                self.state() == cubic_steps(s, control_a, control_b, anchor, (i - 1) as nat),
            decreases 17 - i,
        {
            proof {
                lemma_cubic_grows(s, control_a, control_b, anchor, (i - 1) as nat);
            }
            let point = cubic_point(start, control_a, control_b, anchor, i);
            let index: u32 = self.push_on_curve(point);
            self.prev = Some(index);
            i += 1;
        }
        self.cursor = anchor;
    }

    /// Appends one step of the path.
    fn push(&mut self, cmd: &DrawCommand)
        requires
            fill_step(old(self).state(), *cmd).vertices.len() <= u32::MAX,
        ensures
            final(self).state() == fill_step(old(self).state(), *cmd),
    {
        match cmd {
            DrawCommand::MoveTo(point) => {
                // Start a new sub-path. Its first point becomes the fan origin.
                let index: u32 = self.push_vertex(
                    Point::from_twips(*point),
                    Uv { u_halves: 0, v_halves: 0 },
                    0,
                );
                self.origin = Some(index);
                self.prev = Some(index);
                self.cursor = *point;
            },
            DrawCommand::LineTo(point) => {
                let index: u32 = self.push_on_curve(Point::from_twips(*point));
                self.prev = Some(index);
                self.cursor = *point;
            },
            DrawCommand::QuadraticCurveTo { control, anchor } => {
                self.push_quadratic(*control, *anchor);
            },
            DrawCommand::CubicCurveTo { control_a, control_b, anchor } => {
                proof {
                    lemma_cubic_grows(self.state(), *control_a, *control_b, *anchor, 16);
                }
                self.push_cubic(*control_a, *control_b, *anchor);
            },
        }
    }
}

/// The vertices without colors and the indices of a fill.
fn build_fill_geometry(commands: &Vec<DrawCommand>, colored: bool) -> (r: (
    Vec<BezierTexVertex>,
    Vec<u32>,
))
    requires
        fill_fits(commands@),
    ensures
        r.0@ == fill_geometry(commands@, colored).vertices,
        r.1@ == fill_geometry(commands@, colored).indices,
{
    let mut builder = FillBuilder {
        colored,
        vertices: Vec::new(),
        indices: Vec::new(),
        origin: None,
        prev: None,
        cursor: TwipsPoint { x: 0, y: 0 },
    };
    let mut i: usize = 0;
    proof {
        assert(builder.state() == fill_geometry(commands@.take(0), colored));
    }
    while i < commands.len()
        invariant
            i <= commands.len(),
            fill_fits(commands@),
            builder.state() == fill_geometry(commands@.take(i as int), colored),
        decreases commands.len() - i,
    {
        proof {
            assert(commands@.take(i + 1).drop_last() == commands@.take(i as int));
            lemma_prefix_grows(commands@, i + 1);
            color_does_not_change_the_structure(commands@.take(i + 1));
        }
        builder.push(&commands[i]);
        i += 1;
    }
    assert(commands@.take(i as int) == commands@);
    (builder.vertices, builder.indices)
}

/// Build fill geometry for textured fills (gradient/bitmap).
/// Same structure as color fills but without per-vertex color.
pub fn build_fill_geometry_tex(commands: &Vec<DrawCommand>) -> (r: (
    Vec<BezierTexVertex>,
    Vec<u32>,
))
    requires
        fill_fits(commands@),
    ensures
        r.0@ == fill_geometry(commands@, false).vertices,
        r.1@ == fill_geometry(commands@, false).indices,
{
    build_fill_geometry(commands, false)
}

/// Gives vertices a color.
pub fn color_vertices(vertices: &Vec<BezierTexVertex>, color: Color) -> (r: Vec<BezierVertex>)
    ensures
        r@ == vertices@.map_values(|v: BezierTexVertex| v.spec_with_color(color)),
{
    let mut colored: Vec<BezierVertex> = Vec::new();
    let mut i: usize = 0;
    while i < vertices.len()
        invariant
            i <= vertices.len(),
            colored@ == vertices@.take(i as int).map_values(
                |v: BezierTexVertex| v.spec_with_color(color),
            ),
        decreases vertices.len() - i,
    {
        colored.push(vertices[i].with_color(color));
        assert(vertices@.take(i + 1) == vertices@.take(i as int).push(vertices@[i as int]));
        i += 1;
    }
    assert(vertices@.take(i as int) == vertices@);
    colored
}

/// Build fill geometry with per-vertex color (for solid color fills).
///
/// Uses fan triangulation for interior and Loop-Blinn triangles for curve edges.
pub fn build_fill_geometry_color(commands: &Vec<DrawCommand>, color: Color) -> (r: (
    Vec<BezierVertex>,
    Vec<u32>,
))
    requires
        fill_fits(commands@),
    ensures
        r.0@ == fill_geometry(commands@, true).vertices.map_values(
            |v: BezierTexVertex| v.spec_with_color(color),
        ),
        r.1@ == fill_geometry(commands@, true).indices,
{
    let (vertices, indices) = build_fill_geometry(commands, true);
    (color_vertices(&vertices, color), indices)
}

/// Whether the next on-curve vertex closes a fan triangle.
pub open spec fn fans(s: FillState) -> bool {
    s.origin is Some && s.prev is Some && s.origin != s.prev
}

/// The origin and the previous vertex are vertices of the geometry, and a
/// sub-path that has an origin has a previous vertex.
pub open spec fn fill_wf(s: FillState) -> bool {
    &&& s.origin matches Some(o) ==> 0 <= o < s.vertices.len() && s.prev is Some
    &&& s.prev matches Some(p) ==> 0 <= p < s.vertices.len()
}

proof fn lemma_cubic_counts(
    s: FillState,
    control_a: TwipsPoint,
    control_b: TwipsPoint,
    anchor: TwipsPoint,
    n: nat,
)
    requires
        fill_wf(s),
        n > 0,
    ensures
        ({
            let t = cubic_steps(s, control_a, control_b, anchor, n);
            &&& fill_wf(t)
            &&& t.indices.len() == s.indices.len() + (if fans(s) {
                3int
            } else {
                0
            }) + (if s.origin is Some {
                3 * (n - 1)
            } else {
                0
            })
        }),
    decreases n,
{
    lemma_cubic_grows(s, control_a, control_b, anchor, (n - 1) as nat);
    if n > 1 {
        lemma_cubic_counts(s, control_a, control_b, anchor, (n - 1) as nat);
    } else {
        assert(cubic_steps(s, control_a, control_b, anchor, 0) == s);
    }
}

proof fn lemma_step_wf(s: FillState, cmd: DrawCommand)
    requires
        fill_wf(s),
    ensures
        fill_wf(fill_step(s, cmd)),
{
    if let DrawCommand::CubicCurveTo { control_a, control_b, anchor } = cmd {
        lemma_cubic_counts(s, control_a, control_b, anchor, 16);
    }
}

/// Whether all vertices of a path can be named by a 32-bit index, and its indices
/// counted in 32 bits.
pub fn check_fill(commands: &Vec<DrawCommand>) -> (r: bool)
    ensures
        r == fill_fits(commands@),
{
    let mut vertices: u64 = 0;
    let mut indices: u64 = 0;
    let mut has_origin = false;
    let mut has_prev = false;
    let mut fan = false;
    let mut i: usize = 0;
    proof {
        assert(commands@.take(0) == Seq::<DrawCommand>::empty());
    }
    while i < commands.len()
        invariant
            i <= commands.len(),
            fill_wf(fill_geometry(commands@.take(i as int), false)),
            vertices == fill_geometry(commands@.take(i as int), false).vertices.len(),
            indices == fill_geometry(commands@.take(i as int), false).indices.len(),
            vertices <= u32::MAX,
            indices <= u32::MAX,
            has_origin == (fill_geometry(commands@.take(i as int), false).origin is Some),
            has_prev == (fill_geometry(commands@.take(i as int), false).prev is Some),
            fan == fans(fill_geometry(commands@.take(i as int), false)),
        decreases commands.len() - i,
    {
        let ghost s = fill_geometry(commands@.take(i as int), false);
        proof {
            assert(commands@.take(i + 1).drop_last() == commands@.take(i as int));
            lemma_prefix_grows(commands@, i + 1);
            lemma_step_wf(s, commands@[i as int]);
        }
        let fan_indices: u64 = if fan {
            3
        } else {
            0
        };
        match &commands[i] {
            DrawCommand::MoveTo(_) => {
                vertices = vertices + 1;
                has_origin = true;
                has_prev = true;
                fan = false;
            },
            DrawCommand::LineTo(_) => {
                vertices = vertices + 1;
                indices = indices + fan_indices;
                has_prev = true;
                fan = has_origin;
            },
            DrawCommand::QuadraticCurveTo { .. } => {
                vertices = vertices + 1;
                indices = indices + fan_indices;
                if has_prev {
                    vertices = vertices + 3;
                    indices = indices + 3;
                    fan = has_origin;
                }
            },
            DrawCommand::CubicCurveTo { control_a, control_b, anchor } => {
                proof {
                    lemma_cubic_counts(s, *control_a, *control_b, *anchor, 16);
                    lemma_cubic_grows(s, *control_a, *control_b, *anchor, 16);
                }
                if has_prev {
                    vertices = vertices + 16;
                    indices = indices + fan_indices;
                    if has_origin {
                        indices = indices + 45;
                    }
                    fan = has_origin;
                }
            },
        }
        if vertices > u32::MAX as u64 || indices > u32::MAX as u64 {
            return false;
        }
        i += 1;
    }
    assert(commands@.take(i as int) == commands@);
    true
}

/// Every index of a path's geometry names one of its vertices, and every three
/// indices form a triangle.
pub proof fn fill_indices_are_valid(cmds: Seq<DrawCommand>, colored: bool)
    requires
        fill_fits(cmds),
    ensures
        ({
            let s = fill_geometry(cmds, colored);
            &&& s.indices.len() % 3 == 0
            &&& forall|i: int|
                0 <= i < s.indices.len() ==> #[trigger] s.indices[i] < s.vertices.len()
        }),
{
    lemma_fill_valid(cmds, colored);
}

/// The indices are valid, as far as they have been appended.
pub(crate) open spec fn valid(s: FillState) -> bool {
    &&& fill_wf(s)
    &&& s.indices.len() % 3 == 0
    &&& forall|i: int| 0 <= i < s.indices.len() ==> #[trigger] s.indices[i] < s.vertices.len()
}

pub(crate) proof fn lemma_fill_valid(cmds: Seq<DrawCommand>, colored: bool)
    requires
        fill_fits(cmds),
    ensures
        valid(fill_geometry(cmds, colored)),
    decreases cmds.len(),
{
    if cmds.len() > 0 {
        assert(cmds.take(cmds.len() - 1) == cmds.drop_last());
        lemma_prefix_grows(cmds, cmds.len() - 1);
        lemma_fill_valid(cmds.drop_last(), colored);
        color_does_not_change_the_structure(cmds);
        let s = fill_geometry(cmds.drop_last(), colored);
        lemma_step_wf(s, cmds.last());
        if let DrawCommand::CubicCurveTo { control_a, control_b, anchor } = cmds.last() {
            if s.prev is Some {
                lemma_cubic_grows(s, control_a, control_b, anchor, 16);
                lemma_cubic_valid(s, control_a, control_b, anchor, 16);
            }
        }
    }
}

proof fn lemma_cubic_valid(
    s: FillState,
    control_a: TwipsPoint,
    control_b: TwipsPoint,
    anchor: TwipsPoint,
    n: nat,
)
    requires
        valid(s),
        s.vertices.len() + n <= u32::MAX,
    ensures
        valid(cubic_steps(s, control_a, control_b, anchor, n)),
    decreases n,
{
    if n > 0 {
        lemma_cubic_grows(s, control_a, control_b, anchor, (n - 1) as nat);
        lemma_cubic_valid(s, control_a, control_b, anchor, (n - 1) as nat);
    }
}

/// The Loop-Blinn texture coordinates are exact on the curve: where a triangle
/// interpolates to the curve's point at `num / den` of its parameter, `u` is that
/// parameter and `v` its square, so that `u² - v` is zero.
///
/// At that point the start, control and end points weigh `(den - num)²`,
/// `2 num (den - num)` and `num²`, out of `den²`.
pub proof fn curve_is_where_u_squared_is_v(num: int, den: int)
    requires
        0 <= num <= den,
        0 < den,
    ensures
        ({
            let w0 = (den - num) * (den - num);
            let w1 = 2 * num * (den - num);
            let w2 = num * num;
            let u = w0 * start_uv().u_halves + w1 * control_uv().u_halves + w2 * end_uv().u_halves;
            let v = w0 * start_uv().v_halves + w1 * control_uv().v_halves + w2 * end_uv().v_halves;
            &&& w0 + w1 + w2 == den * den
            &&& u * den == 2 * num * (den * den)
            &&& u * u == 2 * v * (den * den)
        }),
{
    let w0 = (den - num) * (den - num);
    let w1 = 2 * num * (den - num);
    let w2 = num * num;
    assert(w0 + w1 + w2 == den * den) by (nonlinear_arith)
        requires
            w0 == (den - num) * (den - num),
            w1 == 2 * num * (den - num),
            w2 == num * num,
    ;
    let u = w1 + 2 * w2;
    let v = 2 * w2;
    assert(u == 2 * (num * den)) by (nonlinear_arith)
        requires
            u == w1 + 2 * w2,
            w1 == 2 * num * (den - num),
            w2 == num * num,
    ;
    assert(u * den == 2 * num * (den * den)) by (nonlinear_arith)
        requires
            u == 2 * (num * den),
    ;
    assert(u * u == 2 * v * (den * den)) by (nonlinear_arith)
        requires
            u == 2 * (num * den),
            v == 2 * (num * num),
    ;
}

/// The chord of a curve lies on the filled side of it, and the control point on
/// the other: on the chord `u² - v` is nowhere positive, at the control point it
/// is.
pub proof fn chord_is_inside_control_is_outside(num: int, den: int)
    requires
        0 <= num <= den,
        0 < den,
    ensures
        ({
            let u = (den - num) * start_uv().u_halves + num * end_uv().u_halves;
            let v = (den - num) * start_uv().v_halves + num * end_uv().v_halves;
            u * u <= 2 * v * den
        }),
        control_uv().u_halves * control_uv().u_halves > 2 * control_uv().v_halves,
{
    let u = 2 * num;
    let v = 2 * num;
    assert(u * u <= 2 * v * den) by (nonlinear_arith)
        requires
            u == 2 * num,
            v == 2 * num,
            0 <= num <= den,
    ;
}

/// Whether the ray from a point to the right crosses the line from `a` to `b`.
pub open spec fn ray_crosses(p: Point, a: Point, b: Point) -> bool {
    let (lo, hi) = if a.y <= p.y {
        (a, b)
    } else {
        (b, a)
    };
    &&& (a.y <= p.y) != (b.y <= p.y)
    &&& (p.x - lo.x) * (hi.y - lo.y) < (hi.x - lo.x) * (p.y - lo.y)
}

/// Whether a triangle encloses a point.
pub open spec fn triangle_encloses(p: Point, a: Point, b: Point, c: Point) -> bool {
    ray_crosses(p, a, b) != (ray_crosses(p, b, c) != ray_crosses(p, c, a))
}

/// Whether an odd number of the first `n` triangles of a geometry, among those
/// that fill an interior, enclose a point.
pub open spec fn fan_covers(s: FillState, p: Point, n: nat) -> bool
    decreases n,
{
    if n == 0 {
        false
    } else {
        let k = 3 * (n - 1);
        let a = s.vertices[s.indices[k] as int];
        let b = s.vertices[s.indices[k + 1] as int];
        let c = s.vertices[s.indices[k + 2] as int];
        fan_covers(s, p, (n - 1) as nat) != (a.fill_type == 0 && triangle_encloses(
            p,
            a.position.point,
            b.position.point,
            c.position.point,
        ))
    }
}

/// A path as a polygon through its on-curve points: where the current sub-path
/// started, where it has arrived, and whether the ray from a point has crossed an
/// odd number of edges so far.
pub ghost struct Outline {
    pub start: Option<Point>,
    pub cursor: Point,
    pub crossed: bool,
}

/// Moves along a straight edge. Before the first MoveTo there is no sub-path.
pub open spec fn outline_edge(o: Outline, p: Point, to: Point) -> Outline {
    Outline {
        start: o.start,
        cursor: to,
        crossed: if o.start is Some {
            o.crossed != ray_crosses(p, o.cursor, to)
        } else {
            o.crossed
        },
    }
}

/// Whether the edge that closes the current sub-path is crossed.
pub open spec fn closing_crossed(o: Outline, p: Point) -> bool {
    match o.start {
        Some(start) => ray_crosses(p, o.cursor, start),
        None => false,
    }
}

/// Moves along the first `n` line segments of a cubic curve.
pub open spec fn outline_cubic(
    o: Outline,
    p: Point,
    start: TwipsPoint,
    control_a: TwipsPoint,
    control_b: TwipsPoint,
    anchor: TwipsPoint,
    n: nat,
) -> Outline
    decreases n,
{
    if n == 0 {
        o
    } else {
        outline_edge(
            outline_cubic(o, p, start, control_a, control_b, anchor, (n - 1) as nat),
            p,
            cubic_at(start, control_a, control_b, anchor, n as int),
        )
    }
}

/// The polygon through the on-curve points of a path. Quadratic curves count with
/// their chords, cubic curves with the segments that they are flattened to.
pub open spec fn outline(cmds: Seq<DrawCommand>, p: Point, colored: bool) -> Outline
    decreases cmds.len(),
{
    if cmds.len() == 0 {
        Outline { start: None, cursor: Point { x: 0, y: 0 }, crossed: false }
    } else {
        let o = outline(cmds.drop_last(), p, colored);
        match cmds.last() {
            DrawCommand::MoveTo(q) => Outline {
                start: Some(Point::spec_from_twips(q)),
                cursor: Point::spec_from_twips(q),
                crossed: o.crossed != closing_crossed(o, p),
            },
            DrawCommand::CubicCurveTo { control_a, control_b, anchor } => outline_cubic(
                o,
                p,
                cubic_start(fill_geometry(cmds.drop_last(), colored)),
                control_a,
                control_b,
                anchor,
                16,
            ),
            _ => outline_edge(o, p, Point::spec_from_twips(cmds.last().end())),
        }
    }
}

/// Whether a path's polygon, each sub-path closed, encloses a point by the
/// even-odd rule.
pub open spec fn polygon_encloses(cmds: Seq<DrawCommand>, p: Point, colored: bool) -> bool {
    outline(cmds, p, colored).crossed != closing_crossed(outline(cmds, p, colored), p)
}

/// The fan triangles of a path together cover, by the even-odd rule, exactly what
/// the polygon through its on-curve points encloses.
pub proof fn fan_fills_the_polygon(cmds: Seq<DrawCommand>, p: Point, colored: bool)
    requires
        fill_fits(cmds),
    ensures
        ({
            let s = fill_geometry(cmds, colored);
            fan_covers(s, p, s.indices.len() / 3) == polygon_encloses(cmds, p, colored)
        }),
{
    lemma_fan(cmds, p, colored);
}

/// How the geometry of a path and its polygon relate.
spec fn in_step(s: FillState, o: Outline, p: Point) -> bool {
    &&& valid(s)
    &&& (s.origin is Some) == (o.start is Some)
    &&& s.origin matches Some(i) ==> {
        &&& Some(s.vertices[i].position.point) == o.start
        &&& s.vertices[i].fill_type == 0
        &&& s.prev matches Some(j) && s.vertices[j].position.point == o.cursor
    }
    &&& fan_covers(s, p, s.indices.len() / 3) == (o.crossed != closing_crossed(o, p))
}

proof fn lemma_ray_symmetric(p: Point, a: Point, b: Point)
    ensures
        ray_crosses(p, a, b) == ray_crosses(p, b, a),
        !ray_crosses(p, a, a),
{
}

/// Triangles that are already there do not change when more is appended.
proof fn lemma_covers_stable(s: FillState, t: FillState, p: Point, n: nat)
    requires
        3 * n <= s.indices.len(),
        s.indices.len() <= t.indices.len(),
        s.vertices.len() <= t.vertices.len(),
        forall|i: int| 0 <= i < s.indices.len() ==> #[trigger] s.indices[i] < s.vertices.len(),
        forall|i: int| 0 <= i < s.indices.len() ==> #[trigger] t.indices[i] == s.indices[i],
        forall|i: int| 0 <= i < s.vertices.len() ==> #[trigger] t.vertices[i] == s.vertices[i],
    ensures
        fan_covers(s, p, n) == fan_covers(t, p, n),
    decreases n,
{
    if n > 0 {
        lemma_covers_stable(s, t, p, (n - 1) as nat);
        let k = 3 * (n - 1);
        assert(s.indices[k] < s.vertices.len());
        assert(s.indices[k + 1] < s.vertices.len());
        assert(s.indices[k + 2] < s.vertices.len());
        assert(t.indices[k] == s.indices[k]);
        assert(t.indices[k + 1] == s.indices[k + 1]);
        assert(t.indices[k + 2] == s.indices[k + 2]);
    }
}

/// An on-curve vertex keeps geometry and polygon in step.
proof fn lemma_on_curve_in_step(s: FillState, o: Outline, p: Point, to: Point, u: FillState)
    requires
        in_step(s, o, p),
        s.vertices.len() < u32::MAX,
        u.vertices == on_curve(s, to).vertices,
        u.indices == on_curve(s, to).indices,
        u.origin == s.origin,
        u.prev == Some(s.vertices.len() as int),
    ensures
        in_step(u, outline_edge(o, p, to), p),
{
    let n = s.indices.len() / 3;
    lemma_covers_stable(s, u, p, n);
    if let (Some(i), Some(j)) = (s.origin, s.prev) {
        let (a, b) = (s.vertices[i].position.point, s.vertices[j].position.point);
        lemma_ray_symmetric(p, a, b);
        lemma_ray_symmetric(p, a, to);
        lemma_ray_symmetric(p, b, to);
        if i != j {
            let k = s.indices.len() as int;
            assert(u.indices[k] == i && u.indices[k + 1] == j && u.indices[k + 2]
                == s.vertices.len());
            assert(u.indices.len() / 3 == n + 1);
            assert(u.vertices[i] == s.vertices[i]);
            assert(u.vertices[j] == s.vertices[j]);
        }
    }
}

/// A curve triangle keeps geometry and polygon in step: it fills no interior.
proof fn lemma_curve_triangle_in_step(s: FillState, o: Outline, p: Point, t: FillState)
    requires
        in_step(s, o, p),
        s.vertices.len() + 3 <= u32::MAX,
        t.vertices.len() == s.vertices.len() + 3,
        forall|i: int| 0 <= i < s.vertices.len() ==> #[trigger] t.vertices[i] == s.vertices[i],
        t.vertices[s.vertices.len() as int].fill_type == 1,
        t.indices == s.indices + seq![
            s.vertices.len() as u32,
            (s.vertices.len() + 1) as u32,
            (s.vertices.len() + 2) as u32,
        ],
        t.origin == s.origin,
        t.prev == s.prev,
    ensures
        in_step(t, o, p),
{
    let n = s.indices.len() / 3;
    lemma_covers_stable(s, t, p, n);
    assert(t.indices[s.indices.len() as int] == s.vertices.len());
    assert(t.indices.len() / 3 == n + 1);
    if let (Some(i), Some(j)) = (s.origin, s.prev) {
        assert(t.vertices[i] == s.vertices[i]);
        assert(t.vertices[j] == s.vertices[j]);
    }
}

/// The segments of a cubic curve keep geometry and polygon in step.
proof fn lemma_cubic_in_step(
    s: FillState,
    o: Outline,
    p: Point,
    control_a: TwipsPoint,
    control_b: TwipsPoint,
    anchor: TwipsPoint,
    n: nat,
)
    requires
        in_step(s, o, p),
        s.vertices.len() + n <= u32::MAX,
    ensures
        in_step(
            cubic_steps(s, control_a, control_b, anchor, n),
            outline_cubic(o, p, cubic_start(s), control_a, control_b, anchor, n),
            p,
        ),
    decreases n,
{
    if n > 0 {
        let m = (n - 1) as nat;
        lemma_cubic_in_step(s, o, p, control_a, control_b, anchor, m);
        lemma_cubic_grows(s, control_a, control_b, anchor, m);
        lemma_on_curve_in_step(
            cubic_steps(s, control_a, control_b, anchor, m),
            outline_cubic(o, p, cubic_start(s), control_a, control_b, anchor, m),
            p,
            cubic_at(cubic_start(s), control_a, control_b, anchor, n as int),
            cubic_steps(s, control_a, control_b, anchor, n),
        );
    }
}

proof fn lemma_outline_cubic_without_start(
    o: Outline,
    p: Point,
    start: TwipsPoint,
    control_a: TwipsPoint,
    control_b: TwipsPoint,
    anchor: TwipsPoint,
    n: nat,
)
    requires
        o.start is None,
    ensures
        outline_cubic(o, p, start, control_a, control_b, anchor, n).start is None,
        outline_cubic(o, p, start, control_a, control_b, anchor, n).crossed == o.crossed,
    decreases n,
{
    if n > 0 {
        lemma_outline_cubic_without_start(
            o,
            p,
            start,
            control_a,
            control_b,
            anchor,
            (n - 1) as nat,
        );
    }
}

proof fn lemma_fan(cmds: Seq<DrawCommand>, p: Point, colored: bool)
    requires
        fill_fits(cmds),
    ensures
        in_step(fill_geometry(cmds, colored), outline(cmds, p, colored), p),
    decreases cmds.len(),
{
    if cmds.len() > 0 {
        assert(cmds.take(cmds.len() - 1) == cmds.drop_last());
        lemma_prefix_grows(cmds, cmds.len() - 1);
        lemma_fan(cmds.drop_last(), p, colored);
        color_does_not_change_the_structure(cmds);
        let s = fill_geometry(cmds.drop_last(), colored);
        let t = fill_geometry(cmds, colored);
        let o = outline(cmds.drop_last(), p, colored);
        match cmds.last() {
            DrawCommand::MoveTo(q) => {
                lemma_covers_stable(s, t, p, s.indices.len() / 3);
                let point = Point::spec_from_twips(q);
                lemma_ray_symmetric(p, point, point);
            },
            DrawCommand::LineTo(q) => {
                lemma_on_curve_in_step(s, o, p, Point::spec_from_twips(q), t);
            },
            DrawCommand::QuadraticCurveTo { control, anchor } => {
                let to = Point::spec_from_twips(anchor);
                if s.prev is Some {
                    let u = FillState {
                        prev: Some(s.vertices.len() as int),
                        ..on_curve(s, to)
                    };
                    lemma_on_curve_in_step(s, o, p, to, u);
                    lemma_curve_triangle_in_step(u, outline_edge(o, p, to), p, t);
                } else {
                    lemma_covers_stable(s, t, p, s.indices.len() / 3);
                }
            },
            DrawCommand::CubicCurveTo { control_a, control_b, anchor } => {
                if s.prev is Some {
                    let u = cubic_steps(s, control_a, control_b, anchor, 16);
                    lemma_cubic_grows(s, control_a, control_b, anchor, 16);
                    lemma_cubic_in_step(s, o, p, control_a, control_b, anchor, 16);
                    lemma_covers_stable(u, t, p, u.indices.len() / 3);
                } else {
                    lemma_outline_cubic_without_start(
                        o,
                        p,
                        cubic_start(s),
                        control_a,
                        control_b,
                        anchor,
                        16,
                    );
                }
            },
        }
    } else {
        assert(fan_covers(fill_geometry(cmds, colored), p, 0) == false);
    }
}

/// Whether a step of a path ends at a point that the next step can start from, whatever
/// came before.
pub open spec fn sets_out(cmd: DrawCommand) -> bool {
    cmd is MoveTo || cmd is LineTo
}

/// Whether a vertex is a corner of an interior triangle at a position in twips.
pub open spec fn is_interior_at(v: BezierTexVertex, p: TwipsPoint) -> bool {
    &&& is_at(v.position.point, p)
    &&& v.position.offset is Zero
    &&& v.fill_type == 0
    &&& v.uv.u_halves == 0 && v.uv.v_halves == 0
}

/// Whether a vertex is a corner of a curve triangle at a position in twips, with texture
/// coordinates in halves.
pub open spec fn is_curve_corner(v: BezierTexVertex, p: TwipsPoint, u: int, w: int) -> bool {
    &&& is_at(v.position.point, p)
    &&& v.position.offset is Zero
    &&& v.fill_type == 1
    &&& v.uv.u_halves == u && v.uv.v_halves == w
}

/// The vertices of a fill follow its path. Every step adds its end, and leaves what is
/// there. A quadratic curve adds a triangle between where the path was, the control point
/// and the end, with the texture coordinates (0, 0), (1/2, 0) and (1, 1). A cubic curve
/// adds sixteen vertices that lie on it, with its control points in their order, at equal
/// steps of its parameter. Curves need a step before them to start from.
pub proof fn fills_follow_their_path(
    cmds: Seq<DrawCommand>,
    cmd: DrawCommand,
    colored: bool,
    i: int,
)
    requires
        1 <= i <= 16,
    ensures
        ({
            let s = fill_geometry(cmds, colored);
            let t = fill_geometry(cmds.push(cmd), colored);
            let (n, k) = (s.vertices.len() as int, s.indices.len() as int);
            let from = last_point(cmds);
            let started = exists|j: int| 0 <= j < cmds.len() && sets_out(#[trigger] cmds[j]);
            &&& t.vertices.take(n) == s.vertices
            &&& t.indices.take(k) == s.indices
            &&& match cmd {
                DrawCommand::MoveTo(p) => {
                    &&& t.vertices.len() == n + 1
                    &&& is_interior_at(t.vertices[n], p)
                    &&& t.indices.len() == k
                },
                DrawCommand::LineTo(p) => {
                    &&& t.vertices.len() == n + 1
                    &&& is_interior_at(t.vertices[n], p)
                },
                DrawCommand::QuadraticCurveTo { control, anchor } => {
                    &&& is_interior_at(t.vertices[n], anchor)
                    &&& !started ==> t.vertices.len() == n + 1
                    &&& started ==> {
                        &&& t.vertices.len() == n + 4
                        &&& is_curve_corner(t.vertices[n + 1], from, 0, 0)
                        &&& is_curve_corner(t.vertices[n + 2], control, 1, 0)
                        &&& is_curve_corner(t.vertices[n + 3], anchor, 2, 2)
                        &&& t.indices.len() >= k + 3
                        &&& t.indices.skip(t.indices.len() - 3) == seq![
                            (n + 1) as u32,
                            (n + 2) as u32,
                            (n + 3) as u32,
                        ]
                    }
                },
                DrawCommand::CubicCurveTo { control_a, control_b, anchor } => {
                    &&& !started ==> t.vertices.len() == n && t.indices.len() == k
                    &&& started ==> {
                        let v = t.vertices[n + i - 1];
                        &&& t.vertices.len() == n + 16
                        &&& is_on_cubic(
                            v.position.point,
                            if colored {
                                read_back_point(from)
                            } else {
                                from
                            },
                            control_a,
                            control_b,
                            anchor,
                            i,
                        )
                        &&& v.position.offset is Zero && v.fill_type == 0
                        &&& is_interior_at(t.vertices[n + 15], anchor)
                    }
                },
            }
        }),
{
    let s = fill_geometry(cmds, colored);
    let all = cmds.push(cmd);
    assert(all.drop_last() == cmds);
    let t = fill_geometry(all, colored);
    lemma_arrived(cmds, colored);
    match cmd {
        DrawCommand::QuadraticCurveTo { control, anchor } => {
            assert(t.vertices.take(s.vertices.len() as int) =~= s.vertices);
            assert(t.indices.take(s.indices.len() as int) =~= s.indices);
            if s.prev is Some {
                let n = s.vertices.len();
                assert(t.indices.skip(t.indices.len() - 3) =~= seq![
                    (n + 1) as u32,
                    (n + 2) as u32,
                    (n + 3) as u32,
                ]);
            }
        },
        DrawCommand::CubicCurveTo { control_a, control_b, anchor } => {
            if s.prev is Some {
                lemma_cubic_vertices(s, control_a, control_b, anchor, 16, i);
                lemma_cubic_vertices(s, control_a, control_b, anchor, 16, 16);
                cubic_points_lie_on_the_curve(cubic_start(s), control_a, control_b, anchor, i);
                cubic_points_lie_on_the_curve(cubic_start(s), control_a, control_b, anchor, 16);
            }
            assert(t.vertices.take(s.vertices.len() as int) =~= s.vertices);
            assert(t.indices.take(s.indices.len() as int) =~= s.indices);
        },
        _ => {
            assert(t.vertices.take(s.vertices.len() as int) =~= s.vertices);
            assert(t.indices.take(s.indices.len() as int) =~= s.indices);
        },
    }
}

/// A fill has arrived where its path has, once there is a step to start from.
proof fn lemma_arrived(cmds: Seq<DrawCommand>, colored: bool)
    ensures
        ({
            let s = fill_geometry(cmds, colored);
            &&& s.prev is Some ==> s.cursor == last_point(cmds)
            &&& s.prev is Some <==> exists|j: int|
                0 <= j < cmds.len() && sets_out(#[trigger] cmds[j])
            &&& s.colored == colored
        }),
    decreases cmds.len(),
{
    if cmds.len() > 0 {
        let init = cmds.drop_last();
        lemma_arrived(init, colored);
        let s = fill_geometry(init, colored);
        if let DrawCommand::CubicCurveTo { control_a, control_b, anchor } = cmds.last() {
            lemma_cubic_grows(s, control_a, control_b, anchor, 16);
        }
        if s.prev is Some {
            let j = choose|j: int| 0 <= j < init.len() && sets_out(#[trigger] init[j]);
            assert(sets_out(cmds[j]));
        } else if sets_out(cmds.last()) {
            assert(sets_out(cmds[cmds.len() - 1]));
        } else {
            assert forall|j: int| 0 <= j < cmds.len() implies !sets_out(#[trigger] cmds[j]) by {
                if j < init.len() {
                    assert(!sets_out(init[j]));
                }
            }
        }
    }
}

/// The vertices of a cubic curve.
proof fn lemma_cubic_vertices(
    s: FillState,
    control_a: TwipsPoint,
    control_b: TwipsPoint,
    anchor: TwipsPoint,
    n: nat,
    i: int,
)
    requires
        1 <= i <= n,
    ensures
        ({
            let t = cubic_steps(s, control_a, control_b, anchor, n);
            let at = cubic_at(cubic_start(s), control_a, control_b, anchor, i);
            &&& t.vertices.len() == s.vertices.len() + n
            &&& s.vertices.is_prefix_of(t.vertices)
            &&& s.indices.is_prefix_of(t.indices)
            &&& t.vertices[s.vertices.len() + i - 1] == interior(at)
        }),
    decreases n,
{
    lemma_cubic_grows(s, control_a, control_b, anchor, (n - 1) as nat);
    if i < n {
        lemma_cubic_vertices(s, control_a, control_b, anchor, (n - 1) as nat, i);
    } else if n > 1 {
        lemma_cubic_vertices(s, control_a, control_b, anchor, (n - 1) as nat, i - 1);
    } else {
        assert(cubic_steps(s, control_a, control_b, anchor, 0) == s);
    }
}

} // verus!
