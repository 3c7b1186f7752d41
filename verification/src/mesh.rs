//! Mesh generation for the Bézier renderer.
//!
//! This module converts the paths of a shape into geometry using the Loop-Blinn
//! technique for quadratic Bézier curves.
use crate::commands::BitmapHandle;
use crate::fill::{
    build_fill_geometry_color, build_fill_geometry_tex, check_fill,
    color_does_not_change_the_structure, color_vertices, fill_fits, fill_geometry,
    fill_indices_are_valid, interior,
};
use crate::geometry::{Color, Point};
use crate::gradient::{
    bitmap_matrix, build_gradient_lut, color_at, gradient_matrix, gradient_uniforms,
    matrix_3x3_to_4x4, swf_bitmap_to_gl_matrix, swf_to_gl_matrix, whole, FixedMatrix, Gradient,
    GradientSpread, GradientType, LutEntry, Matrix3, GRADIENT_SIZE,
};
use crate::path::{DrawCommand, FillRule};
use crate::segments::{
    bounds_contain_segments, collect_quadratic_segments, contains_segment, lemma_bounds_in_range,
    path_bounds, quadratic_segments, GpuQuadraticSegment,
};
use crate::stroke::{
    all_measured, check_measured, expand_strokes, flatten_commands_to_polylines, geometry_fits,
    nested, polylines, stroke_geometry, stroke_indices_are_valid, JoinMeasure,
    LineCapStyle, LineJoinStyle, StrokeShape,
};
use crate::vertex::{
    AnalyticParams, BezierTexVertex, BezierVertex, Bounds, GradientUniforms, Matrix4, Offset,
    Position, TextureTransforms, Uv,
};
use std::collections::HashMap;
use vstd::prelude::*;

verus! {

// ---- Shapes ----

/// How the inside of a path is painted.
#[derive(Debug)]
pub enum FillStyle {
    Color(Color),
    LinearGradient(Gradient),
    RadialGradient(Gradient),
    /// The focal point is in 8.8 fixed point.
    FocalGradient { gradient: Gradient, focal_point: i16 },
    Bitmap { id: u16, matrix: FixedMatrix, is_smoothed: bool, is_repeating: bool },
}

/// How the outline of a path is painted.
#[derive(Debug)]
pub struct LineStyle {
    /// The width, in twips.
    pub width: i32,
    pub fill_style: FillStyle,
    pub start_cap: LineCapStyle,
    pub end_cap: LineCapStyle,
    pub join_style: LineJoinStyle,
}

/// One path of a shape.
#[derive(Debug)]
#[allow(inconsistent_fields)]
pub enum DrawPath {
    Fill { style: FillStyle, commands: Vec<DrawCommand>, winding_rule: FillRule },
    /// `joins` holds what has been measured of the joins of each polyline that the
    /// path is flattened to.
    Stroke {
        style: LineStyle,
        commands: Vec<DrawCommand>,
        is_closed: bool,
        joins: Vec<Vec<JoinMeasure>>,
    },
}

/// A shape as paths, to be drawn in order.
#[derive(Debug)]
pub struct DistilledShape {
    pub paths: Vec<DrawPath>,
}

// ---- Meshes ----

/// A complete mesh for one registered shape, ready to be drawn.
#[derive(Debug)]
pub struct BezierMesh {
    /// Position of this mesh among all registered shapes.
    pub id: usize,
    pub draws: Vec<Draw>,
}

/// What a gradient fill needs.
#[derive(Debug)]
pub struct GradientFill {
    pub lut: Vec<LutEntry>,
    pub texture_transforms: TextureTransforms,
    pub uniforms: GradientUniforms,
}

/// What a bitmap fill needs.
#[derive(Clone, Copy, Debug)]
pub struct BitmapFill {
    pub bitmap: BitmapHandle,
    pub texture_transforms: TextureTransforms,
    pub is_smoothed: bool,
    pub is_repeating: bool,
}

/// What kind of fill a draw uses.
#[derive(Debug)]
#[allow(inconsistent_fields)]
pub enum DrawType {
    /// Solid color fill: vertices carry per-vertex color.
    Color,
    /// Gradient fill.
    Gradient { fill: GradientFill },
    /// Bitmap fill.
    Bitmap { fill: BitmapFill },
}

/// The vertices of a draw.
#[derive(Debug)]
pub enum Vertices {
    Color(Vec<BezierVertex>),
    Tex(Vec<BezierTexVertex>),
}

impl Vertices {
    /// The number of vertices.
    pub open spec fn spec_len(self) -> nat {
        match self {
            Vertices::Color(v) => v@.len(),
            Vertices::Tex(v) => v@.len(),
        }
    }
}

/// Preprocessed analytic fill data for one fill path.
#[derive(Debug)]
pub struct AnalyticFillData {
    pub segments: Vec<GpuQuadraticSegment>,
    pub num_segments: u32,
    pub bounds: Bounds,
}

/// Preprocessed analytic stroke data for one stroke path.
#[derive(Debug)]
pub struct AnalyticStrokeData {
    pub segments: Vec<GpuQuadraticSegment>,
    pub num_segments: u32,
    pub bounds: Bounds,
    pub half_width: i64,
    pub is_closed: bool,
    pub start_cap: LineCapStyle,
    pub end_cap: LineCapStyle,
    pub join_style: LineJoinStyle,
}

/// One draw call within a mesh.
#[derive(Debug)]
pub struct Draw {
    pub draw_type: DrawType,
    pub vertices: Vertices,
    pub indices: Vec<u32>,
    pub num_indices: u32,
    /// Half the width of a stroke, in units of 1/8192 twip: the length that the
    /// offsets of its vertices are measured in.
    pub half_width: i64,
    /// True when this draw comes from [`DrawPath::Stroke`].
    /// Mask rendering should ignore stroke draws and only use fill geometry.
    pub is_stroke: bool,
    /// Fill rule for this draw when `is_stroke == false`.
    pub fill_rule: Option<FillRule>,
    /// Analytic path payload for winding-correct GPU fill evaluation.
    pub analytic_fill: Option<AnalyticFillData>,
    /// Analytic stroke payload for direct GPU stroke rendering.
    pub analytic_stroke: Option<AnalyticStrokeData>,
    /// Parameters of the analytic evaluation.
    pub analytic_params: Option<AnalyticParams>,
}

// ---- What a draw must hold ----

/// The 4x4 form of a 3x3 matrix.
pub open spec fn padded(m: Matrix3) -> Matrix4 {
    [
        [m@[0]@[0], m@[0]@[1], m@[0]@[2], whole(0)],
        [m@[1]@[0], m@[1]@[1], m@[1]@[2], whole(0)],
        [m@[2]@[0], m@[2]@[1], m@[2]@[2], whole(0)],
        [whole(0), whole(0), whole(0), whole(1)],
    ]
}

/// Whether a gradient fill is the one for a gradient.
pub open spec fn is_gradient_fill(
    fill: GradientFill,
    gradient_type: GradientType,
    gradient: Gradient,
    focal_point: i16,
) -> bool {
    &&& fill.lut@ == Seq::new(
        GRADIENT_SIZE as nat,
        |t: int| color_at(gradient.records@, t),
    )
    &&& fill.texture_transforms.u_matrix == padded(gradient_matrix(gradient.matrix))
    &&& fill.uniforms.focal_point == crate::gradient::clamped_focal_point(focal_point)
    &&& fill.uniforms.interpolation == if gradient.interpolation is LinearRgb {
        1int
    } else {
        0
    }
    &&& fill.uniforms.shape == match gradient_type {
        GradientType::Linear => 1int,
        GradientType::Radial => 2,
        GradientType::Focal => 3,
    }
    &&& fill.uniforms.repeat == match gradient.spread {
        GradientSpread::Pad => 1int,
        GradientSpread::Reflect => 2,
        GradientSpread::Repeat => 3,
    }
}

/// Whether a draw type is the one for a fill style.
pub open spec fn is_draw_type(
    draw_type: DrawType,
    style: FillStyle,
    bitmaps: Map<u16, BitmapHandle>,
) -> bool {
    match style {
        FillStyle::Color(_) => draw_type is Color,
        FillStyle::LinearGradient(gradient) => draw_type matches DrawType::Gradient { fill }
            && is_gradient_fill(fill, GradientType::Linear, gradient, 0),
        FillStyle::RadialGradient(gradient) => draw_type matches DrawType::Gradient { fill }
            && is_gradient_fill(fill, GradientType::Radial, gradient, 0),
        FillStyle::FocalGradient { gradient, focal_point } => draw_type matches DrawType::Gradient {
            fill,
        } && is_gradient_fill(fill, GradientType::Focal, gradient, focal_point),
        FillStyle::Bitmap { id, matrix, is_smoothed, is_repeating } => draw_type matches
            DrawType::Bitmap { fill } && bitmaps.contains_key(id) && fill.bitmap == bitmaps[id]
            && fill.texture_transforms.u_matrix == padded(
            bitmap_matrix(matrix, bitmaps[id].width, bitmaps[id].height),
        ) && fill.is_smoothed == is_smoothed && fill.is_repeating == is_repeating,
    }
}

/// Whether what a fill style needs is there: a bitmap fill needs its bitmap.
pub open spec fn style_available(style: FillStyle, bitmaps: Map<u16, BitmapHandle>) -> bool {
    style matches FillStyle::Bitmap { id, .. } ==> bitmaps.contains_key(id)
}

/// Whether a draw's vertices are given ones: a solid color is carried by the
/// vertices themselves.
pub open spec fn are_vertices(
    vertices: Vertices,
    tex: Seq<BezierTexVertex>,
    style: FillStyle,
) -> bool {
    match style {
        FillStyle::Color(color) => vertices matches Vertices::Color(v) && v@ == tex.map_values(
            |t: BezierTexVertex| t.spec_with_color(color),
        ),
        _ => vertices matches Vertices::Tex(v) && v@ == tex,
    }
}

/// The corners of a box.
pub open spec fn box_vertices(b: Bounds) -> Seq<BezierTexVertex> {
    seq![
        interior(Point { x: b.min_x, y: b.min_y }),
        interior(Point { x: b.max_x, y: b.min_y }),
        interior(Point { x: b.max_x, y: b.max_y }),
        interior(Point { x: b.min_x, y: b.max_y }),
    ]
}

/// The two triangles of a box.
pub open spec fn box_indices() -> Seq<u32> {
    seq![0, 1, 2, 0, 2, 3]
}

/// The number of a fill rule.
pub open spec fn fill_rule_code(rule: FillRule) -> u32 {
    match rule {
        FillRule::EvenOdd => 0,
        FillRule::NonZero => 1,
    }
}

/// Whether a path has something to draw as a fill.
pub open spec fn fill_draws(
    cmds: Seq<DrawCommand>,
    style: FillStyle,
    bitmaps: Map<u16, BitmapHandle>,
    analytic: bool,
) -> bool {
    &&& cmds.len() > 0
    &&& if analytic {
        quadratic_segments(cmds).len() > 0
    } else {
        fill_geometry(cmds, style is Color).indices.len() > 0
    }
    &&& style_available(style, bitmaps)
}

/// Whether a draw is the one for a fill: fan and curve triangles, or a box with
/// the segments to evaluate in it.
pub open spec fn is_fill_draw(
    draw: Draw,
    cmds: Seq<DrawCommand>,
    rule: FillRule,
    style: FillStyle,
    bitmaps: Map<u16, BitmapHandle>,
    analytic: bool,
) -> bool {
    let bounds = path_bounds(cmds);
    &&& is_draw_type(draw.draw_type, style, bitmaps)
    &&& draw.num_indices == draw.indices@.len()
    &&& draw.half_width == 0
    &&& !draw.is_stroke
    &&& draw.fill_rule == Some(rule)
    &&& draw.analytic_stroke is None
    &&& if analytic {
        &&& are_vertices(draw.vertices, box_vertices(bounds), style)
        &&& draw.indices@ == box_indices()
        &&& draw.analytic_fill matches Some(data) && data.segments@ == quadratic_segments(cmds)
            && data.num_segments == data.segments@.len() && data.bounds == bounds
        &&& draw.analytic_params == Some(
            AnalyticParams {
                bounds,
                num_segments: quadratic_segments(cmds).len() as u32,
                mode: 0,
                fill_rule: fill_rule_code(rule),
                half_width: 0,
                cap_join_flags: 0,
            },
        )
    } else {
        &&& are_vertices(draw.vertices, fill_geometry(cmds, style is Color).vertices, style)
        &&& draw.indices@ == fill_geometry(cmds, style is Color).indices
        &&& draw.analytic_fill is None
        &&& draw.analytic_params is None
    }
}

/// Half the width of a stroke, in units of 1/8192 twip. Hairline strokes are drawn
/// one pixel wide.
pub open spec fn half_width_of(width: i32) -> int {
    if width * 4096 > 81920 {
        width * 4096
    } else {
        81920
    }
}

/// A box grown on all sides.
pub open spec fn grown(b: Bounds, by: int) -> Bounds {
    Bounds {
        min_x: (b.min_x - by) as i64,
        min_y: (b.min_y - by) as i64,
        max_x: (b.max_x + by) as i64,
        max_y: (b.max_y + by) as i64,
    }
}

/// Whether a stroke can be evaluated as the distance to its curves, which matches
/// round caps and joins only.
pub open spec fn is_round(style: LineStyle) -> bool {
    style.start_cap is Round && style.end_cap is Round && style.join_style is Round
}

/// The shape of a stroke.
pub open spec fn stroke_shape(style: LineStyle, is_closed: bool) -> StrokeShape {
    StrokeShape {
        is_closed,
        start_cap: style.start_cap,
        end_cap: style.end_cap,
        join_style: style.join_style,
    }
}

/// The geometry of a stroke.
pub open spec fn stroke_geometry_of(
    cmds: Seq<DrawCommand>,
    style: LineStyle,
    is_closed: bool,
    joins: Seq<Vec<JoinMeasure>>,
) -> crate::stroke::PieceView {
    stroke_geometry(polylines(cmds), stroke_shape(style, is_closed), nested(joins))
}

/// Whether a path has something to draw as a stroke.
pub open spec fn stroke_draws(
    cmds: Seq<DrawCommand>,
    style: LineStyle,
    is_closed: bool,
    joins: Seq<Vec<JoinMeasure>>,
    bitmaps: Map<u16, BitmapHandle>,
    analytic: bool,
) -> bool {
    &&& if analytic && is_round(style) {
        quadratic_segments(cmds).len() > 0
    } else {
        stroke_geometry_of(cmds, style, is_closed, joins).indices.len() > 0
    }
    &&& style_available(style.fill_style, bitmaps)
}

/// Whether a draw is the one for a stroke: expanded segments with joins and caps,
/// or a box with the segments to evaluate in it.
pub open spec fn is_stroke_draw(
    draw: Draw,
    cmds: Seq<DrawCommand>,
    style: LineStyle,
    is_closed: bool,
    joins: Seq<Vec<JoinMeasure>>,
    bitmaps: Map<u16, BitmapHandle>,
    analytic: bool,
) -> bool {
    let half_width = half_width_of(style.width);
    let bounds = grown(path_bounds(cmds), half_width);
    &&& is_draw_type(draw.draw_type, style.fill_style, bitmaps)
    &&& draw.num_indices == draw.indices@.len()
    &&& draw.half_width == half_width
    &&& draw.is_stroke
    &&& draw.fill_rule is None
    &&& draw.analytic_fill is None
    &&& if analytic && is_round(style) {
        &&& are_vertices(draw.vertices, box_vertices(bounds), style.fill_style)
        &&& draw.indices@ == box_indices()
        &&& draw.analytic_stroke matches Some(data) && data.segments@ == quadratic_segments(cmds)
            && data.num_segments == data.segments@.len() && data.bounds == bounds
            && data.half_width == half_width && data.is_closed == is_closed && data.start_cap
            == style.start_cap && data.end_cap == style.end_cap && data.join_style
            == style.join_style
        &&& draw.analytic_params == Some(
            AnalyticParams {
                bounds,
                num_segments: quadratic_segments(cmds).len() as u32,
                mode: 1,
                fill_rule: 0,
                half_width: half_width as i64,
                cap_join_flags: 0,
            },
        )
    } else {
        &&& are_vertices(
            draw.vertices,
            stroke_geometry_of(cmds, style, is_closed, joins).vertices,
            style.fill_style,
        )
        &&& draw.indices@ == stroke_geometry_of(cmds, style, is_closed, joins).indices
        &&& draw.analytic_stroke is None
        &&& draw.analytic_params is None
    }
}

/// Whether a path has something to draw.
pub open spec fn path_draws(
    path: DrawPath,
    bitmaps: Map<u16, BitmapHandle>,
    analytic: bool,
) -> bool {
    match path {
        DrawPath::Fill { style, commands, .. } => fill_draws(commands@, style, bitmaps, analytic),
        DrawPath::Stroke { style, commands, is_closed, joins } => stroke_draws(
            commands@,
            style,
            is_closed,
            joins@,
            bitmaps,
            analytic,
        ),
    }
}

/// Whether a draw is the one for a path.
pub open spec fn is_path_draw(
    draw: Draw,
    path: DrawPath,
    bitmaps: Map<u16, BitmapHandle>,
    analytic: bool,
) -> bool {
    match path {
        DrawPath::Fill { style, commands, winding_rule } => is_fill_draw(
            draw,
            commands@,
            winding_rule,
            style,
            bitmaps,
            analytic,
        ),
        DrawPath::Stroke { style, commands, is_closed, joins } => is_stroke_draw(
            draw,
            commands@,
            style,
            is_closed,
            joins@,
            bitmaps,
            analytic,
        ),
    }
}

/// Whether draws are those for paths, in order: one for each path that has
/// something to draw.
pub open spec fn are_draws(
    draws: Seq<Draw>,
    paths: Seq<DrawPath>,
    bitmaps: Map<u16, BitmapHandle>,
    analytic: bool,
) -> bool
    decreases paths.len(),
{
    if paths.len() == 0 {
        draws.len() == 0
    } else if path_draws(paths.last(), bitmaps, analytic) {
        &&& draws.len() > 0
        &&& are_draws(draws.drop_last(), paths.drop_last(), bitmaps, analytic)
        &&& is_path_draw(draws.last(), paths.last(), bitmaps, analytic)
    } else {
        are_draws(draws, paths.drop_last(), bitmaps, analytic)
    }
}

/// Whether the geometry of a path can be counted in 32 bits, and the joins of a
/// stroke that needs them have been measured.
pub open spec fn path_fits(path: DrawPath, analytic: bool) -> bool {
    match path {
        DrawPath::Fill { commands, .. } => if analytic {
            quadratic_segments(commands@).len() <= u32::MAX
        } else {
            fill_fits(commands@)
        },
        DrawPath::Stroke { style, commands, is_closed, joins } => if analytic && is_round(style) {
            quadratic_segments(commands@).len() <= u32::MAX
        } else {
            &&& all_measured(
                polylines(commands@),
                stroke_shape(style, is_closed),
                nested(joins@),
            )
            &&& geometry_fits(stroke_geometry_of(commands@, style, is_closed, joins@))
        },
    }
}

/// Whether this holds of all paths of a shape.
pub open spec fn shape_fits(paths: Seq<DrawPath>, analytic: bool) -> bool {
    forall|i: int| 0 <= i < paths.len() ==> path_fits(#[trigger] paths[i], analytic)
}

// ---- Building ----

/// What a gradient fill needs.
fn create_gradient_fill(
    gradient_type: GradientType,
    gradient: &Gradient,
    focal_point: i16,
) -> (r: GradientFill)
    ensures
        is_gradient_fill(r, gradient_type, *gradient, focal_point),
{
    let lut = build_gradient_lut(&gradient.records);
    assert(lut@ == Seq::new(GRADIENT_SIZE as nat, |t: int| color_at(gradient.records@, t)));
    GradientFill {
        lut,
        texture_transforms: TextureTransforms {
            u_matrix: matrix_3x3_to_4x4(&swf_to_gl_matrix(&gradient.matrix)),
        },
        uniforms: gradient_uniforms(gradient_type, gradient, focal_point),
    }
}

/// The draw type for a fill style; none where its bitmap is missing.
fn create_draw_type(style: &FillStyle, bitmap_handles: &HashMap<u16, BitmapHandle>) -> (r: Option<
    DrawType,
>)
    ensures
        r is Some == style_available(*style, bitmap_handles@),
        r matches Some(draw_type) ==> is_draw_type(draw_type, *style, bitmap_handles@),
{
    match style {
        FillStyle::Color(_) => Some(DrawType::Color),
        FillStyle::LinearGradient(gradient) => {
            let fill = create_gradient_fill(GradientType::Linear, gradient, 0);
            Some(DrawType::Gradient { fill })
        },
        FillStyle::RadialGradient(gradient) => {
            let fill = create_gradient_fill(GradientType::Radial, gradient, 0);
            Some(DrawType::Gradient { fill })
        },
        FillStyle::FocalGradient { gradient, focal_point } => {
            let fill = create_gradient_fill(GradientType::Focal, gradient, *focal_point);
            Some(DrawType::Gradient { fill })
        },
        FillStyle::Bitmap { id, matrix, is_smoothed, is_repeating } => match bitmap_handles.get(
            id,
        ) {
            Some(handle) => {
                let texture = swf_bitmap_to_gl_matrix(matrix, handle.width, handle.height);
                Some(
                    DrawType::Bitmap {
                        fill: BitmapFill {
                            bitmap: *handle,
                            texture_transforms: TextureTransforms {
                                u_matrix: matrix_3x3_to_4x4(&texture),
                            },
                            is_smoothed: *is_smoothed,
                            is_repeating: *is_repeating,
                        },
                    },
                )
            },
            None => None,
        },
    }
}

/// The vertices of a draw in a fill style.
fn create_vertices(tex: Vec<BezierTexVertex>, style: &FillStyle) -> (r: Vertices)
    ensures
        are_vertices(r, tex@, *style),
{
    match style {
        FillStyle::Color(color) => Vertices::Color(color_vertices(&tex, *color)),
        _ => Vertices::Tex(tex),
    }
}

/// The corner of a box.
fn corner_vertex(x: i64, y: i64) -> (r: BezierTexVertex)
    ensures
        r == interior(Point { x, y }),
{
    BezierTexVertex {
        position: Position { point: Point { x, y }, offset: Offset::Zero },
        uv: Uv { u_halves: 0, v_halves: 0 },
        fill_type: 0,
    }
}

/// A box to evaluate segments in.
pub fn build_analytic_quad_tex(bounds: &Bounds) -> (r: (Vec<BezierTexVertex>, Vec<u32>))
    ensures
        r.0@ == box_vertices(*bounds),
        r.1@ == box_indices(),
{
    let vertices: Vec<BezierTexVertex> = vec![
        corner_vertex(bounds.min_x, bounds.min_y),
        corner_vertex(bounds.max_x, bounds.min_y),
        corner_vertex(bounds.max_x, bounds.max_y),
        corner_vertex(bounds.min_x, bounds.max_y),
    ];
    let indices: Vec<u32> = vec![0, 1, 2, 0, 2, 3];
    assert(vertices@ == box_vertices(*bounds));
    assert(indices@ == box_indices());
    (vertices, indices)
}

/// Build geometry for a single fill path.
///
/// Uses fan triangulation for interior regions and Loop-Blinn triangles
/// for quadratic Bézier curve edges, or evaluates the path analytically.
pub fn build_fill_draw(
    commands: &Vec<DrawCommand>,
    winding_rule: FillRule,
    style: &FillStyle,
    bitmap_handles: &HashMap<u16, BitmapHandle>,
    analytic: bool,
) -> (r: Option<Draw>)
    requires
        if analytic {
            quadratic_segments(commands@).len() <= u32::MAX
        } else {
            fill_fits(commands@)
        },
    ensures
        r is Some == fill_draws(commands@, *style, bitmap_handles@, analytic),
        r matches Some(draw) ==> is_fill_draw(
            draw,
            commands@,
            winding_rule,
            *style,
            bitmap_handles@,
            analytic,
        ),
{
    if commands.len() == 0 {
        return None;
    }
    let draw_type = match create_draw_type(style, bitmap_handles) {
        Some(draw_type) => draw_type,
        None => {
            return None;
        },
    };
    if analytic {
        let (segments, bounds) = collect_quadratic_segments(commands);
        if segments.len() == 0 {
            return None;
        }
        let num_segments: u32 = segments.len() as u32;
        let params = AnalyticParams {
            bounds,
            num_segments,
            mode: 0,
            fill_rule: match winding_rule {
                FillRule::EvenOdd => 0,
                FillRule::NonZero => 1,
            },
            half_width: 0,
            cap_join_flags: 0,
        };
        let (tex, indices) = build_analytic_quad_tex(&bounds);
        Some(
            Draw {
                draw_type,
                vertices: create_vertices(tex, style),
                num_indices: indices.len() as u32,
                indices,
                half_width: 0,
                is_stroke: false,
                fill_rule: Some(winding_rule),
                analytic_fill: Some(AnalyticFillData { segments, num_segments, bounds }),
                analytic_stroke: None,
                analytic_params: Some(params),
            },
        )
    } else {
        proof {
            color_does_not_change_the_structure(commands@);
        }
        let (vertices, indices) = match style {
            FillStyle::Color(color) => {
                let (vertices, indices) = build_fill_geometry_color(commands, *color);
                (Vertices::Color(vertices), indices)
            },
            _ => {
                let (vertices, indices) = build_fill_geometry_tex(commands);
                (Vertices::Tex(vertices), indices)
            },
        };
        if indices.len() == 0 {
            return None;
        }
        Some(
            Draw {
                draw_type,
                vertices,
                num_indices: indices.len() as u32,
                indices,
                half_width: 0,
                is_stroke: false,
                fill_rule: Some(winding_rule),
                analytic_fill: None,
                analytic_stroke: None,
                analytic_params: None,
            },
        )
    }
}

/// Half the width of a stroke. Hairline strokes are drawn one pixel wide.
pub fn stroke_half_width(width: i32) -> (r: i64)
    ensures
        r == half_width_of(width),
        81920 <= r <= 0x800_0000_0000,
{
    let half: i64 = width as i64 * 4096;
    if half > 81920 {
        half
    } else {
        81920
    }
}

/// Whether a stroke can be evaluated analytically.
fn supports_analytic(style: &LineStyle) -> (r: bool)
    ensures
        r == is_round(*style),
{
    matches!(style.start_cap, LineCapStyle::Round) && matches!(style.end_cap, LineCapStyle::Round)
        && matches!(style.join_style, LineJoinStyle::Round)
}

/// Build geometry for a stroke path.
///
/// Supports solid color, gradient, and bitmap stroke fills.
/// Each line segment is expanded into a quad (2 triangles) using the stroke width.
/// Bézier segments are subdivided into line segments first.
/// Proper line caps (butt/round/square) and joins (miter/round/bevel) are applied.
/// Strokes with round caps and joins can be evaluated analytically instead.
pub fn build_stroke_draw(
    commands: &Vec<DrawCommand>,
    style: &LineStyle,
    is_closed: bool,
    joins: &Vec<Vec<JoinMeasure>>,
    bitmap_handles: &HashMap<u16, BitmapHandle>,
    analytic: bool,
) -> (r: Option<Draw>)
    requires
        if analytic && is_round(*style) {
            quadratic_segments(commands@).len() <= u32::MAX
        } else {
            &&& all_measured(
                polylines(commands@),
                stroke_shape(*style, is_closed),
                nested(joins@),
            )
            &&& geometry_fits(stroke_geometry_of(commands@, *style, is_closed, joins@))
        },
    ensures
        r is Some == stroke_draws(
            commands@,
            *style,
            is_closed,
            joins@,
            bitmap_handles@,
            analytic,
        ),
        r matches Some(draw) ==> is_stroke_draw(
            draw,
            commands@,
            *style,
            is_closed,
            joins@,
            bitmap_handles@,
            analytic,
        ),
{
    let half_width: i64 = stroke_half_width(style.width);
    let draw_type = match create_draw_type(&style.fill_style, bitmap_handles) {
        Some(draw_type) => draw_type,
        None => {
            return None;
        },
    };
    if analytic && supports_analytic(style) {
        let (segments, path_box) = collect_quadratic_segments(commands);
        if segments.len() == 0 {
            return None;
        }
        proof {
            lemma_bounds_in_range(commands@);
        }
        let bounds = Bounds {
            min_x: path_box.min_x - half_width,
            min_y: path_box.min_y - half_width,
            max_x: path_box.max_x + half_width,
            max_y: path_box.max_y + half_width,
        };
        let num_segments: u32 = segments.len() as u32;
        let params = AnalyticParams {
            bounds,
            num_segments,
            mode: 1,
            fill_rule: 0,
            half_width,
            cap_join_flags: 0,
        };
        let (tex, indices) = build_analytic_quad_tex(&bounds);
        Some(
            Draw {
                draw_type,
                vertices: create_vertices(tex, &style.fill_style),
                num_indices: indices.len() as u32,
                indices,
                half_width,
                is_stroke: true,
                fill_rule: None,
                analytic_fill: None,
                analytic_stroke: Some(
                    AnalyticStrokeData {
                        segments,
                        num_segments,
                        bounds,
                        half_width,
                        is_closed,
                        start_cap: style.start_cap,
                        end_cap: style.end_cap,
                        join_style: style.join_style,
                    },
                ),
                analytic_params: Some(params),
            },
        )
    } else {
        let shape = StrokeShape {
            is_closed,
            start_cap: style.start_cap,
            end_cap: style.end_cap,
            join_style: style.join_style,
        };
        let paths = flatten_commands_to_polylines(commands);
        match expand_strokes(&paths, &shape, joins) {
            Some((tex, indices)) => {
                if indices.len() == 0 {
                    return None;
                }
                Some(
                    Draw {
                        draw_type,
                        vertices: create_vertices(tex, &style.fill_style),
                        num_indices: indices.len() as u32,
                        indices,
                        half_width,
                        is_stroke: true,
                        fill_rule: None,
                        analytic_fill: None,
                        analytic_stroke: None,
                        analytic_params: None,
                    },
                )
            },
            None => None,
        }
    }
}

/// Build mesh data from a distilled shape.
///
/// It produces a [`BezierMesh`] containing one [`Draw`] per fill/stroke path that
/// has something to draw.
pub fn build_mesh(
    id: usize,
    shape: &DistilledShape,
    bitmap_handles: &HashMap<u16, BitmapHandle>,
    analytic: bool,
) -> (r: BezierMesh)
    requires
        shape_fits(shape.paths@, analytic),
    ensures
        r.id == id,
        are_draws(r.draws@, shape.paths@, bitmap_handles@, analytic),
{
    let mut draws: Vec<Draw> = Vec::new();
    let mut i: usize = 0;
    while i < shape.paths.len()
        invariant
            i <= shape.paths@.len(),
            shape_fits(shape.paths@, analytic),
            are_draws(draws@, shape.paths@.take(i as int), bitmap_handles@, analytic),
        decreases shape.paths.len() - i,
    {
        let ghost before = draws@;
        assert(shape.paths@.take(i + 1).drop_last() == shape.paths@.take(i as int));
        assert(path_fits(shape.paths@[i as int], analytic));
        let draw = match &shape.paths[i] {
            DrawPath::Fill { style, commands, winding_rule } => build_fill_draw(
                commands,
                *winding_rule,
                style,
                bitmap_handles,
                analytic,
            ),
            DrawPath::Stroke { style, commands, is_closed, joins } => build_stroke_draw(
                commands,
                style,
                *is_closed,
                joins,
                bitmap_handles,
                analytic,
            ),
        };
        if let Some(draw) = draw {
            draws.push(draw);
            assert(draws@.drop_last() == before);
        }
        i += 1;
    }
    assert(shape.paths@.take(i as int) == shape.paths@);
    BezierMesh { id, draws }
}

/// Whether the geometry of a path can be counted in 32 bits, and the joins of a
/// stroke that needs them have been measured.
fn check_path(path: &DrawPath, analytic: bool) -> (r: bool)
    ensures
        r == path_fits(*path, analytic),
{
    match path {
        DrawPath::Fill { commands, .. } => {
            if analytic {
                let (segments, _) = collect_quadratic_segments(commands);
                segments.len() as u64 <= u32::MAX as u64
            } else {
                check_fill(commands)
            }
        },
        DrawPath::Stroke { style, commands, is_closed, joins } => {
            if analytic && supports_analytic(style) {
                let (segments, _) = collect_quadratic_segments(commands);
                segments.len() as u64 <= u32::MAX as u64
            } else {
                let shape = StrokeShape {
                    is_closed: *is_closed,
                    start_cap: style.start_cap,
                    end_cap: style.end_cap,
                    join_style: style.join_style,
                };
                let paths = flatten_commands_to_polylines(commands);
                check_measured(&paths, &shape, joins) && expand_strokes(
                    &paths,
                    &shape,
                    joins,
                ).is_some()
            }
        },
    }
}

/// Whether a mesh can be built from a shape: see [`shape_fits`].
pub fn check_shape(shape: &DistilledShape, analytic: bool) -> (r: bool)
    ensures
        r == shape_fits(shape.paths@, analytic),
{
    let mut i: usize = 0;
    while i < shape.paths.len()
        invariant
            i <= shape.paths@.len(),
            forall|j: int| 0 <= j < i ==> path_fits(#[trigger] shape.paths@[j], analytic),
        decreases shape.paths.len() - i,
    {
        if !check_path(&shape.paths[i], analytic) {
            return false;
        }
        i += 1;
    }
    true
}

/// The bitmap that a path is painted with.
pub open spec fn bitmap_of(path: DrawPath) -> Option<u16> {
    match path {
        DrawPath::Fill { style: FillStyle::Bitmap { id, .. }, .. } => Some(id),
        DrawPath::Stroke { style, .. } => match style.fill_style {
            FillStyle::Bitmap { id, .. } => Some(id),
            _ => None,
        },
        _ => None,
    }
}

/// The bitmaps that paths are painted with, in order.
pub open spec fn bitmaps_of(paths: Seq<DrawPath>) -> Seq<u16>
    decreases paths.len(),
{
    if paths.len() == 0 {
        seq![]
    } else {
        match bitmap_of(paths.last()) {
            Some(id) => bitmaps_of(paths.drop_last()).push(id),
            None => bitmaps_of(paths.drop_last()),
        }
    }
}

/// The bitmaps that a shape is painted with.
pub fn bitmap_ids(shape: &DistilledShape) -> (r: Vec<u16>)
    ensures
        r@ == bitmaps_of(shape.paths@),
{
    let mut ids: Vec<u16> = Vec::new();
    let mut i: usize = 0;
    while i < shape.paths.len()
        invariant
            i <= shape.paths@.len(),
            ids@ == bitmaps_of(shape.paths@.take(i as int)),
        decreases shape.paths.len() - i,
    {
        assert(shape.paths@.take(i + 1).drop_last() == shape.paths@.take(i as int));
        match &shape.paths[i] {
            DrawPath::Fill { style, .. } => {
                if let FillStyle::Bitmap { id, .. } = style {
                    ids.push(*id);
                }
            },
            DrawPath::Stroke { style, .. } => {
                if let FillStyle::Bitmap { id, .. } = &style.fill_style {
                    ids.push(*id);
                }
            },
        }
        i += 1;
    }
    assert(shape.paths@.take(i as int) == shape.paths@);
    ids
}

/// The vertices of a draw without their colors.
pub open spec fn uncolored(vertices: Vertices) -> Seq<BezierTexVertex> {
    match vertices {
        Vertices::Color(v) => v@.map_values(
            |c: BezierVertex|
                BezierTexVertex { position: c.position, uv: c.uv, fill_type: c.fill_type },
        ),
        Vertices::Tex(v) => v@,
    }
}

/// Strokes of the same path, width, caps and joins have the same vertices, but for
/// their colors, and the same indices, whatever they are painted with.
pub proof fn stroke_geometry_is_independent_of_paint(
    a: Draw,
    b: Draw,
    cmds: Seq<DrawCommand>,
    a_style: LineStyle,
    b_style: LineStyle,
    is_closed: bool,
    joins: Seq<Vec<JoinMeasure>>,
    bitmaps: Map<u16, BitmapHandle>,
    analytic: bool,
)
    requires
        is_stroke_draw(a, cmds, a_style, is_closed, joins, bitmaps, analytic),
        is_stroke_draw(b, cmds, b_style, is_closed, joins, bitmaps, analytic),
        a_style.width == b_style.width,
        a_style.start_cap == b_style.start_cap,
        a_style.end_cap == b_style.end_cap,
        a_style.join_style == b_style.join_style,
    ensures
        uncolored(a.vertices) == uncolored(b.vertices),
        a.indices@ == b.indices@,
{
    let tex = if analytic && is_round(a_style) {
        box_vertices(grown(path_bounds(cmds), half_width_of(a_style.width)))
    } else {
        stroke_geometry_of(cmds, a_style, is_closed, joins).vertices
    };
    lemma_uncolored(a.vertices, tex, a_style.fill_style);
    lemma_uncolored(b.vertices, tex, b_style.fill_style);
}

proof fn lemma_uncolored(vertices: Vertices, tex: Seq<BezierTexVertex>, style: FillStyle)
    requires
        are_vertices(vertices, tex, style),
    ensures
        uncolored(vertices) == tex,
{
    assert(uncolored(vertices) =~= tex);
}

/// A shape whose bitmaps are all there draws every path that has geometry: a path
/// is never dropped for want of its bitmap.
pub proof fn known_bitmaps_drop_no_path(
    paths: Seq<DrawPath>,
    bitmaps: Map<u16, BitmapHandle>,
    i: int,
)
    requires
        0 <= i < paths.len(),
        forall|id: u16| #[trigger] bitmaps_of(paths).contains(id) ==> bitmaps.contains_key(id),
    ensures
        match paths[i] {
            DrawPath::Fill { style, .. } => style_available(style, bitmaps),
            DrawPath::Stroke { style, .. } => style_available(style.fill_style, bitmaps),
        },
    decreases paths.len(),
{
    if let Some(id) = bitmap_of(paths[i]) {
        lemma_bitmap_listed(paths, i);
        assert(bitmaps_of(paths).contains(id));
    }
}

proof fn lemma_bitmap_listed(paths: Seq<DrawPath>, i: int)
    requires
        0 <= i < paths.len(),
        bitmap_of(paths[i]) is Some,
    ensures
        bitmaps_of(paths).contains(bitmap_of(paths[i])->0),
    decreases paths.len(),
{
    let id = bitmap_of(paths[i])->0;
    if i == paths.len() - 1 {
        let all = bitmaps_of(paths);
        assert(all[all.len() - 1] == id);
    } else {
        lemma_bitmap_listed(paths.drop_last(), i);
        assert(paths.drop_last()[i] == paths[i]);
        let init = bitmaps_of(paths.drop_last());
        let k = choose|k: int| 0 <= k < init.len() && init[k] == id;
        assert(bitmaps_of(paths)[k] == id);
    }
}

/// Whether every index of a draw names one of its vertices, and every three
/// indices form a triangle.
pub open spec fn draw_is_valid(draw: Draw) -> bool {
    &&& draw.num_indices == draw.indices@.len()
    &&& draw.indices@.len() % 3 == 0
    &&& forall|i: int|
        0 <= i < draw.indices@.len() ==> #[trigger] draw.indices@[i] < draw.vertices.spec_len()
}

/// The draws of a mesh are valid, and none of them is empty.
pub proof fn mesh_draws_are_valid(
    draws: Seq<Draw>,
    paths: Seq<DrawPath>,
    bitmaps: Map<u16, BitmapHandle>,
    analytic: bool,
    i: int,
)
    requires
        are_draws(draws, paths, bitmaps, analytic),
        shape_fits(paths, analytic),
        0 <= i < draws.len(),
    ensures
        draw_is_valid(draws[i]),
        draws[i].num_indices > 0,
    decreases paths.len(),
{
    let init = paths.drop_last();
    assert forall|j: int| 0 <= j < init.len() implies path_fits(#[trigger] init[j], analytic) by {
        assert(init[j] == paths[j]);
    }
    let path = paths[paths.len() - 1];
    assert(path_fits(path, analytic));
    if !path_draws(path, bitmaps, analytic) {
        mesh_draws_are_valid(draws, init, bitmaps, analytic, i);
    } else if i < draws.len() - 1 {
        mesh_draws_are_valid(draws.drop_last(), init, bitmaps, analytic, i);
    } else {
        lemma_draw_is_valid(draws[i], path, bitmaps, analytic);
    }
}

proof fn lemma_draw_is_valid(
    draw: Draw,
    path: DrawPath,
    bitmaps: Map<u16, BitmapHandle>,
    analytic: bool,
)
    requires
        path_draws(path, bitmaps, analytic),
        is_path_draw(draw, path, bitmaps, analytic),
        path_fits(path, analytic),
    ensures
        draw_is_valid(draw),
        draw.num_indices > 0,
{
    match path {
        DrawPath::Fill { style, commands, .. } => {
            if !analytic {
                color_does_not_change_the_structure(commands@);
                fill_indices_are_valid(commands@, style is Color);
            }
        },
        DrawPath::Stroke { style, commands, is_closed, joins } => {
            if !(analytic && is_round(style)) {
                stroke_indices_are_valid(
                    polylines(commands@),
                    stroke_shape(style, is_closed),
                    nested(joins@),
                );
            }
        },
    }
}

// ---- Upload ----

/// Whether bytes spell 32-bit words, least significant byte first.
pub open spec fn spells_little_endian(bytes: Seq<u8>, words: Seq<u32>) -> bool {
    forall|i: int|
        0 <= i < words.len() ==> #[trigger] words[i] == bytes[4 * i] + 256 * bytes[4 * i + 1]
            + 65536 * bytes[4 * i + 2] + 16777216 * bytes[4 * i + 3]
}

/// Whether bytes spell 32-bit words, most significant byte first.
pub open spec fn spells_big_endian(bytes: Seq<u8>, words: Seq<u32>) -> bool {
    forall|i: int|
        0 <= i < words.len() ==> #[trigger] words[i] == bytes[4 * i + 3] + 256 * bytes[4 * i + 2]
            + 65536 * bytes[4 * i + 1] + 16777216 * bytes[4 * i]
}

/// The bytes of 32-bit words as they lie in memory: `bytemuck::cast_slice` from
/// `u32` to `u8`. It gives four bytes for each word, in the byte order of the
/// machine, which is one of the two and the same for all words. Which of them it
/// is depends on the machine and is not said here.
#[verifier::external_body]
fn cast_words(words: &Vec<u32>) -> (bytes: &[u8])
    ensures
        bytes@.len() == 4 * words@.len(),
        spells_little_endian(bytes@, words@) || spells_big_endian(bytes@, words@),
{
    bytemuck::cast_slice(words.as_slice())
}

impl Draw {
    /// The contents of the index buffer: the indices in the byte order of the
    /// machine.
    pub fn index_contents(&self) -> (r: &[u8])
        ensures
            r@.len() == 4 * self.indices@.len(),
            spells_little_endian(r@, self.indices@) || spells_big_endian(r@, self.indices@),
    {
        cast_words(&self.indices)
    }
}

// ---- What draws hold ----

/// Padding keeps a matrix: its entries stay where they are, and the fourth axis is left alone.
pub proof fn padding_keeps_the_matrix(m: Matrix3, i: int, j: int)
    requires
        0 <= i < 4,
        0 <= j < 4,
    ensures
        ({
            let e = padded(m)@[i]@[j];
            &&& i < 3 && j < 3 ==> e == m@[i]@[j]
            &&& (i == 3 || j == 3) && i != j ==> e.num == 0 && e.den == 1
            &&& i == 3 && j == 3 ==> e.num == 1 && e.den == 1
        }),
{
    assert(i == 0 || i == 1 || i == 2 || i == 3);
    assert(j == 0 || j == 1 || j == 2 || j == 3);
}

/// A gradient is painted as it says: with the colors of its own stops at all 256 positions, with
/// its own matrix, and with the numbers that its shader tells its choices by: 1 linear, 2 radial,
/// 3 focal; 1 padded, 2 reflected, 3 repeated; 0 and 1 for the two color spaces. Its focal point
/// stays within 98/100 of the center, and is kept where it already does.
pub proof fn gradients_are_painted_as_they_say(
    fill: GradientFill,
    gradient_type: GradientType,
    gradient: Gradient,
    focal_point: i16,
    t: int,
    i: int,
    j: int,
)
    requires
        is_gradient_fill(fill, gradient_type, gradient, focal_point),
        0 <= t < 256,
        0 <= i < 3,
        0 <= j < 3,
    ensures
        fill.lut@.len() == 256,
        fill.lut@[t] == color_at(gradient.records@, t),
        fill.texture_transforms.u_matrix@[i]@[j] == gradient_matrix(gradient.matrix)@[i]@[j],
        fill.uniforms.shape == 1 <==> gradient_type is Linear,
        fill.uniforms.shape == 2 <==> gradient_type is Radial,
        fill.uniforms.shape == 3 <==> gradient_type is Focal,
        fill.uniforms.repeat == 1 <==> gradient.spread is Pad,
        fill.uniforms.repeat == 2 <==> gradient.spread is Reflect,
        fill.uniforms.repeat == 3 <==> gradient.spread is Repeat,
        fill.uniforms.interpolation == 0 <==> gradient.interpolation is Rgb,
        fill.uniforms.interpolation == 1 <==> gradient.interpolation is LinearRgb,
        ({
            let f = fill.uniforms.focal_point;
            let raw = 100 * focal_point;
            &&& f.den > 0
            &&& raw > 98 * 256 ==> 100 * f.num == 98 * f.den
            &&& raw < -98 * 256 ==> 100 * f.num == -98 * f.den
            &&& -98 * 256 <= raw <= 98 * 256 ==> f.num == focal_point && f.den == 256
        }),
{
    padding_keeps_the_matrix(gradient_matrix(gradient.matrix), i, j);
}

/// A draw is painted with what its style says: a color with no texture, a gradient with its own
/// gradient, of its own kind, and a bitmap with its own bitmap, its own matrix for the size of
/// that bitmap, and smoothed and repeated as asked. Only focal gradients have a focal point.
pub proof fn draws_are_painted_as_their_style_says(
    draw_type: DrawType,
    style: FillStyle,
    bitmaps: Map<u16, BitmapHandle>,
    i: int,
    j: int,
)
    requires
        is_draw_type(draw_type, style, bitmaps),
        0 <= i < 3,
        0 <= j < 3,
    ensures
        match style {
            FillStyle::Color(_) => draw_type is Color,
            FillStyle::LinearGradient(gradient) => draw_type matches DrawType::Gradient { fill }
                && is_gradient_fill(fill, GradientType::Linear, gradient, 0),
            FillStyle::RadialGradient(gradient) => draw_type matches DrawType::Gradient { fill }
                && is_gradient_fill(fill, GradientType::Radial, gradient, 0),
            FillStyle::FocalGradient {
                gradient,
                focal_point,
            } => draw_type matches DrawType::Gradient { fill } && is_gradient_fill(
                fill,
                GradientType::Focal,
                gradient,
                focal_point,
            ),
            FillStyle::Bitmap {
                id,
                matrix,
                is_smoothed,
                is_repeating,
            } => draw_type matches DrawType::Bitmap { fill } && {
                &&& bitmaps.contains_key(id)
                &&& fill.bitmap.key == bitmaps[id].key
                &&& fill.bitmap.width == bitmaps[id].width
                &&& fill.bitmap.height == bitmaps[id].height
                &&& fill.texture_transforms.u_matrix@[i]@[j] == bitmap_matrix(
                    matrix,
                    bitmaps[id].width,
                    bitmaps[id].height,
                )@[i]@[j]
                &&& fill.is_smoothed == is_smoothed
                &&& fill.is_repeating == is_repeating
            },
        },
        style_available(style, bitmaps),
{
    if let FillStyle::Bitmap { id, matrix, .. } = style {
        padding_keeps_the_matrix(
            bitmap_matrix(matrix, bitmaps[id].width, bitmaps[id].height),
            i,
            j,
        );
    }
}

/// A solid color is carried by every vertex, in all four channels, and changes nothing else of
/// it. Other paints leave the vertices as they are.
pub proof fn vertices_carry_their_color(
    vertices: Vertices,
    tex: Seq<BezierTexVertex>,
    style: FillStyle,
    i: int,
)
    requires
        are_vertices(vertices, tex, style),
        0 <= i < tex.len(),
    ensures
        match (style, vertices) {
            (FillStyle::Color(color), Vertices::Color(v)) => {
                &&& v@.len() == tex.len()
                &&& v@[i].color.r == color.r && v@[i].color.g == color.g && v@[i].color.b == color.b
                    && v@[i].color.a == color.a
                &&& v@[i].position == tex[i].position
                &&& v@[i].uv == tex[i].uv
                &&& v@[i].fill_type == tex[i].fill_type
            },
            (FillStyle::Color(_), _) => false,
            (_, Vertices::Tex(v)) => v@ == tex,
            (_, Vertices::Color(_)) => false,
        },
{
}

/// A box is drawn as two triangles that share two opposite corners, and its four corners are
/// those of the bounds.
pub proof fn boxes_are_drawn_whole(b: Bounds)
    ensures
        ({
            let v = box_vertices(b);
            let at = |i: int, x: i64, y: i64|
                v[i].position.point.x == x && v[i].position.point.y == y && v[i].position.offset is
                    Zero && v[i].fill_type == 0;
            &&& v.len() == 4
            &&& at(0, b.min_x, b.min_y) && at(1, b.max_x, b.min_y)
            &&& at(2, b.max_x, b.max_y) && at(3, b.min_x, b.max_y)
            &&& box_indices().len() == 6
            &&& box_indices()[0] == 0 && box_indices()[1] == 1 && box_indices()[2] == 2
            &&& box_indices()[3] == 0 && box_indices()[4] == 2 && box_indices()[5] == 3
        }),
{
}

/// A stroke is as wide as it says, but at least a pixel: twice its half-width, in units of
/// 1/8192 twip, is its width in twips or 20.
pub proof fn strokes_are_at_least_a_pixel_wide(width: i32)
    ensures
        width >= 20 ==> 2 * half_width_of(width) == 8192 * width,
        width < 20 ==> 2 * half_width_of(width) == 8192 * 20,
{
}

/// A draw for a fill holds the geometry of its own path, as a fill that no mask leaves out, with
/// the rule that was asked for. Where it is evaluated analytically, it is a box around all of
/// the path's segments, with the segments, their number and the number of the rule: 0 even-odd,
/// 1 non-zero.
pub proof fn fills_hold_their_path(
    draw: Draw,
    cmds: Seq<DrawCommand>,
    rule: FillRule,
    style: FillStyle,
    bitmaps: Map<u16, BitmapHandle>,
    analytic: bool,
    i: int,
)
    requires
        is_fill_draw(draw, cmds, rule, style, bitmaps, analytic),
        quadratic_segments(cmds).len() <= u32::MAX,
    ensures
        !draw.is_stroke && draw.fill_rule == Some(rule) && draw.half_width == 0,
        draw.num_indices == draw.indices@.len(),
        draw.analytic_stroke is None,
        is_draw_type(draw.draw_type, style, bitmaps),
        analytic ==> (draw.analytic_params matches Some(p) && draw.analytic_fill matches Some(f) && {
            &&& 0 <= i < quadratic_segments(cmds).len() ==> contains_segment(
                p.bounds,
                quadratic_segments(cmds)[i],
            )
            &&& f.segments@ == quadratic_segments(cmds)
            &&& f.num_segments == f.segments@.len() && p.num_segments == f.segments@.len()
            &&& f.bounds == p.bounds
            &&& p.mode == 0 && p.half_width == 0 && p.cap_join_flags == 0
            &&& p.fill_rule == 0 <==> rule is EvenOdd
            &&& p.fill_rule == 1 <==> rule is NonZero
            &&& are_vertices(draw.vertices, box_vertices(p.bounds), style)
            &&& draw.indices@ == box_indices()
        }),
        !analytic ==> draw.analytic_params is None && draw.analytic_fill is None && are_vertices(
            draw.vertices,
            fill_geometry(cmds, style is Color).vertices,
            style,
        ) && draw.indices@ == fill_geometry(cmds, style is Color).indices,
{
    if 0 <= i < quadratic_segments(cmds).len() {
        bounds_contain_segments(cmds, i);
    }
}

/// A draw for a stroke holds the geometry of its own path, with its own width, caps and joins, as
/// a stroke that masks leave out. Where all caps and joins are round it can be evaluated
/// analytically: then it is a box that leaves room for half the width around all of the path's
/// segments, with the segments and their number.
pub proof fn strokes_hold_their_path(
    draw: Draw,
    cmds: Seq<DrawCommand>,
    style: LineStyle,
    is_closed: bool,
    joins: Seq<Vec<JoinMeasure>>,
    bitmaps: Map<u16, BitmapHandle>,
    analytic: bool,
    i: int,
)
    requires
        is_stroke_draw(draw, cmds, style, is_closed, joins, bitmaps, analytic),
        quadratic_segments(cmds).len() <= u32::MAX,
    ensures
        ({
            let round = style.start_cap is Round && style.end_cap is Round && style.join_style is
                Round;
            let half = if style.width >= 20 {
                4096 * style.width
            } else {
                81920
            };
            let s = quadratic_segments(cmds)[i];
            &&& draw.is_stroke && draw.fill_rule is None && draw.analytic_fill is None
            &&& draw.num_indices == draw.indices@.len()
            &&& draw.half_width == half
            &&& is_draw_type(draw.draw_type, style.fill_style, bitmaps)
            &&& analytic && round ==> (draw.analytic_params matches Some(p)
                && draw.analytic_stroke matches Some(a) && {
                &&& 0 <= i < quadratic_segments(cmds).len() ==> leaves_room(
                    p.bounds,
                    s.start,
                    half,
                ) && leaves_room(p.bounds, s.control, half) && leaves_room(p.bounds, s.end, half)
                &&& a.segments@ == quadratic_segments(cmds)
                &&& a.num_segments == a.segments@.len() && p.num_segments == a.segments@.len()
                &&& a.bounds == p.bounds
                &&& a.half_width == half && p.half_width == half
                &&& p.mode == 1 && p.fill_rule == 0 && p.cap_join_flags == 0
                &&& a.is_closed == is_closed
                &&& a.start_cap == style.start_cap && a.end_cap == style.end_cap
                &&& a.join_style == style.join_style
                &&& are_vertices(draw.vertices, box_vertices(p.bounds), style.fill_style)
                &&& draw.indices@ == box_indices()
            })
            &&& !(analytic && round) ==> {
                let g = stroke_geometry(
                    polylines(cmds),
                    StrokeShape {
                        is_closed,
                        start_cap: style.start_cap,
                        end_cap: style.end_cap,
                        join_style: style.join_style,
                    },
                    nested(joins),
                );
                &&& draw.analytic_params is None && draw.analytic_stroke is None
                &&& are_vertices(draw.vertices, g.vertices, style.fill_style)
                &&& draw.indices@ == g.indices
            }
        }),
{
    if 0 <= i < quadratic_segments(cmds).len() {
        bounds_contain_segments(cmds, i);
    }
    lemma_bounds_in_range(cmds);
}

/// Whether a box leaves room on all sides of a point.
pub open spec fn leaves_room(b: Bounds, p: Point, by: int) -> bool {
    &&& b.min_x + by <= p.x && p.x + by <= b.max_x
    &&& b.min_y + by <= p.y && p.y + by <= b.max_y
}

/// The number of paths, from the first on, that have something to draw.
pub open spec fn drawing_paths(
    paths: Seq<DrawPath>,
    bitmaps: Map<u16, BitmapHandle>,
    analytic: bool,
    n: int,
) -> int
    decreases n,
{
    if n <= 0 {
        0
    } else {
        drawing_paths(paths, bitmaps, analytic, n - 1) + if path_draws(
            paths[n - 1],
            bitmaps,
            analytic,
        ) {
            1int
        } else {
            0
        }
    }
}

/// The draws of a mesh are those of its shape's paths, in the same order, without the paths that
/// have nothing to draw: the draw for a path stands behind those for the paths before it.
pub proof fn shapes_are_drawn_in_order(
    draws: Seq<Draw>,
    paths: Seq<DrawPath>,
    bitmaps: Map<u16, BitmapHandle>,
    analytic: bool,
    i: int,
)
    requires
        are_draws(draws, paths, bitmaps, analytic),
        0 <= i < paths.len(),
    ensures
        draws.len() == drawing_paths(paths, bitmaps, analytic, paths.len() as int),
        path_draws(paths[i], bitmaps, analytic) ==> {
            let k = drawing_paths(paths, bitmaps, analytic, i);
            0 <= k < draws.len() && is_path_draw(draws[k], paths[i], bitmaps, analytic)
        },
{
    reveal(in_order);
    lemma_in_order(draws, paths, bitmaps, analytic, i);
    lemma_count(paths, bitmaps, analytic, i);
    lemma_count(paths, bitmaps, analytic, paths.len() as int);
    reveal(has_draw);
    reveal(is_drawn_by);
}

#[verifier::opaque]
spec fn in_order(
    draws: Seq<Draw>,
    paths: Seq<DrawPath>,
    bitmaps: Map<u16, BitmapHandle>,
    analytic: bool,
) -> bool {
    are_draws(draws, paths, bitmaps, analytic)
}

#[verifier::opaque]
spec fn has_draw(path: DrawPath, bitmaps: Map<u16, BitmapHandle>, analytic: bool) -> bool {
    path_draws(path, bitmaps, analytic)
}

#[verifier::opaque]
spec fn is_drawn_by(
    path: DrawPath,
    draw: Draw,
    bitmaps: Map<u16, BitmapHandle>,
    analytic: bool,
) -> bool {
    is_path_draw(draw, path, bitmaps, analytic)
}

spec fn count_draws(
    paths: Seq<DrawPath>,
    bitmaps: Map<u16, BitmapHandle>,
    analytic: bool,
    n: int,
) -> int
    decreases n,
{
    if n <= 0 {
        0
    } else {
        count_draws(paths, bitmaps, analytic, n - 1) + if has_draw(
            paths[n - 1],
            bitmaps,
            analytic,
        ) {
            1int
        } else {
            0
        }
    }
}

proof fn lemma_count(paths: Seq<DrawPath>, bitmaps: Map<u16, BitmapHandle>, analytic: bool, n: int)
    ensures
        drawing_paths(paths, bitmaps, analytic, n) == count_draws(paths, bitmaps, analytic, n),
    decreases n,
{
    reveal(has_draw);
    if n > 0 {
        lemma_count(paths, bitmaps, analytic, n - 1);
    }
}

/// The last path is drawn by the last draw, if by any.
proof fn lemma_last_in_order(
    draws: Seq<Draw>,
    paths: Seq<DrawPath>,
    bitmaps: Map<u16, BitmapHandle>,
    analytic: bool,
)
    requires
        in_order(draws, paths, bitmaps, analytic),
    ensures
        paths.len() == 0 ==> draws.len() == 0,
        paths.len() > 0 && has_draw(paths.last(), bitmaps, analytic) ==> draws.len() > 0 && in_order(
            draws.drop_last(),
            paths.drop_last(),
            bitmaps,
            analytic,
        ) && is_drawn_by(paths.last(), draws.last(), bitmaps, analytic),
        paths.len() > 0 && !has_draw(paths.last(), bitmaps, analytic) ==> in_order(
            draws,
            paths.drop_last(),
            bitmaps,
            analytic,
        ),
{
    reveal(in_order);
    reveal(has_draw);
    reveal(is_drawn_by);
}

proof fn lemma_count_prefix(
    paths: Seq<DrawPath>,
    bitmaps: Map<u16, BitmapHandle>,
    analytic: bool,
    n: int,
)
    requires
        n < paths.len(),
    ensures
        count_draws(paths.drop_last(), bitmaps, analytic, n) == count_draws(
            paths,
            bitmaps,
            analytic,
            n,
        ),
        count_draws(paths, bitmaps, analytic, n) >= 0,
    decreases n,
{
    if n > 0 {
        lemma_count_prefix(paths, bitmaps, analytic, n - 1);
        assert(paths.drop_last()[n - 1] == paths[n - 1]);
    }
}

proof fn lemma_in_order(
    draws: Seq<Draw>,
    paths: Seq<DrawPath>,
    bitmaps: Map<u16, BitmapHandle>,
    analytic: bool,
    i: int,
)
    requires
        in_order(draws, paths, bitmaps, analytic),
    ensures
        draws.len() == count_draws(paths, bitmaps, analytic, paths.len() as int),
        0 <= i < paths.len() && has_draw(paths[i], bitmaps, analytic) ==> {
            let k = count_draws(paths, bitmaps, analytic, i);
            0 <= k < draws.len() && is_drawn_by(paths[i], draws[k], bitmaps, analytic)
        },
    decreases paths.len(),
{
    lemma_last_in_order(draws, paths, bitmaps, analytic);
    if paths.len() > 0 {
        let init = paths.drop_last();
        let n = init.len() as int;
        let most = if has_draw(paths.last(), bitmaps, analytic) {
            draws.drop_last()
        } else {
            draws
        };
        lemma_in_order(most, init, bitmaps, analytic, i);
        lemma_count_prefix(paths, bitmaps, analytic, n);
        if 0 <= i < n {
            lemma_count_prefix(paths, bitmaps, analytic, i);
            assert(init[i] == paths[i]);
        }
    }
}

/// A fill has something to draw where it has a triangle, or a segment to evaluate, and what it is
/// painted with is there; so has a stroke. A path that is painted with a bitmap needs that bitmap.
pub proof fn paths_draw_where_they_can(
    path: DrawPath,
    bitmaps: Map<u16, BitmapHandle>,
    analytic: bool,
)
    ensures
        path matches DrawPath::Fill { style, commands, .. } ==> (path_draws(path, bitmaps, analytic)
            <==> commands@.len() > 0 && (style matches FillStyle::Bitmap { id, .. }
            ==> bitmaps.contains_key(id)) && if analytic {
            quadratic_segments(commands@).len() > 0
        } else {
            fill_geometry(commands@, style is Color).indices.len() > 0
        }),
        path matches DrawPath::Stroke { style, commands, is_closed, joins } ==> (path_draws(
            path,
            bitmaps,
            analytic,
        ) <==> (style.fill_style matches FillStyle::Bitmap { id, .. } ==> bitmaps.contains_key(id))
            && if analytic && style.start_cap is Round && style.end_cap is Round
            && style.join_style is Round {
            quadratic_segments(commands@).len() > 0
        } else {
            stroke_geometry_of(commands@, style, is_closed, joins@).indices.len() > 0
        }),
        path matches DrawPath::Fill { style: FillStyle::Bitmap { id, .. }, .. } ==> bitmap_of(path)
            == Some(id),
        path matches DrawPath::Stroke { style, .. } ==> (style.fill_style matches FillStyle::Bitmap {
            id,
            ..
        } ==> bitmap_of(path) == Some(id)),
{
}

/// The draw for a path is one for its own commands, in its own style: for a fill by its own rule, and
/// for a stroke closed or not as it says, with its own joins.
pub proof fn draws_are_those_of_their_path(
    draw: Draw,
    path: DrawPath,
    bitmaps: Map<u16, BitmapHandle>,
    analytic: bool,
)
    requires
        is_path_draw(draw, path, bitmaps, analytic),
    ensures
        path matches DrawPath::Fill { style, commands, winding_rule } ==> is_fill_draw(
            draw,
            commands@,
            winding_rule,
            style,
            bitmaps,
            analytic,
        ),
        path matches DrawPath::Stroke { style, commands, is_closed, joins } ==> is_stroke_draw(
            draw,
            commands@,
            style,
            is_closed,
            joins@,
            bitmaps,
            analytic,
        ),
        draw.is_stroke <==> path is Stroke,
{
}

} // verus!
