//! Gradients and the matrices that place gradient and bitmap textures.
use crate::geometry::{Color, Ratio};
use crate::vertex::{GradientUniforms, Matrix4};
use vstd::prelude::*;

verus! {

/// How big to make gradient lookup textures.
pub const GRADIENT_SIZE: usize = 256;

/// A color at a position of a gradient.
#[derive(Clone, Copy, PartialEq, Eq, Structural, Debug)]
pub struct GradientRecord {
    pub ratio: u8,
    pub color: Color,
}

/// What lies beyond the ends of a gradient.
#[derive(Clone, Copy, PartialEq, Eq, Structural, Debug)]
pub enum GradientSpread {
    Pad,
    Reflect,
    Repeat,
}

/// The color space that a gradient is interpolated in.
#[derive(Clone, Copy, PartialEq, Eq, Structural, Debug)]
pub enum GradientInterpolation {
    Rgb,
    LinearRgb,
}

/// The shape of a gradient.
#[derive(Clone, Copy, PartialEq, Eq, Structural, Debug)]
pub enum GradientType {
    Linear,
    Radial,
    Focal,
}

/// A matrix as shapes carry it: coefficients in 16.16 fixed point, the translation
/// in twips.
#[derive(Clone, Copy, PartialEq, Eq, Structural, Debug)]
pub struct FixedMatrix {
    pub a: i32,
    pub b: i32,
    pub c: i32,
    pub d: i32,
    pub tx: i32,
    pub ty: i32,
}

/// A gradient fill.
#[derive(Debug)]
pub struct Gradient {
    pub matrix: FixedMatrix,
    pub spread: GradientSpread,
    pub interpolation: GradientInterpolation,
    pub records: Vec<GradientRecord>,
}

/// One entry of a gradient lookup texture: the color `num / den` of the way from
/// one color to another.
#[derive(Clone, Copy, PartialEq, Eq, Structural, Debug)]
pub struct LutEntry {
    pub from: Color,
    pub to: Color,
    pub num: u8,
    pub den: u8,
}

/// The last of the first `n` records at or before a position.
pub open spec fn last_at_or_before(records: Seq<GradientRecord>, t: int, n: int) -> Option<int>
    decreases n,
{
    if n <= 0 {
        None
    } else if records[n - 1].ratio <= t {
        Some(n - 1)
    } else {
        last_at_or_before(records, t, n - 1)
    }
}

/// A single color.
pub open spec fn solid(color: Color) -> LutEntry {
    LutEntry { from: color, to: color, num: 0, den: 1 }
}

/// The color of a gradient at a position: between the last record at or before it
/// and the record after that one. Before the first record it is the first color,
/// after the last the last. A gradient without records is transparent black.
pub open spec fn color_at(records: Seq<GradientRecord>, t: int) -> LutEntry {
    if records.len() == 0 {
        solid(Color { r: 0, g: 0, b: 0, a: 0 })
    } else {
        match last_at_or_before(records, t, records.len() as int) {
            None => solid(records[0].color),
            Some(i) => if i + 1 == records.len() {
                solid(records[i].color)
            } else {
                LutEntry {
                    from: records[i].color,
                    to: records[i + 1].color,
                    num: (t - records[i].ratio) as u8,
                    den: (records[i + 1].ratio - records[i].ratio) as u8,
                }
            },
        }
    }
}

proof fn lemma_last(records: Seq<GradientRecord>, t: int, n: int)
    requires
        0 <= n <= records.len(),
    ensures
        match last_at_or_before(records, t, n) {
            Some(i) => 0 <= i < n && records[i].ratio <= t && forall|j: int|
                i < j < n ==> (#[trigger] records[j]).ratio > t,
            None => forall|j: int| 0 <= j < n ==> (#[trigger] records[j]).ratio > t,
        },
    decreases n,
{
    if n > 0 && records[n - 1].ratio > t {
        lemma_last(records, t, n - 1);
    }
}

/// The color of a gradient at a position.
fn lut_entry(records: &Vec<GradientRecord>, t: u8) -> (r: LutEntry)
    ensures
        r == color_at(records@, t as int),
{
    if records.len() == 0 {
        let black = Color { r: 0, g: 0, b: 0, a: 0 };
        return LutEntry { from: black, to: black, num: 0, den: 1 };
    }
    let ghost n = records@.len() as int;
    proof {
        lemma_last(records@, t as int, n);
    }
    let mut i: usize = records.len();
    while i > 0
        invariant
            i <= records@.len(),
            n == records@.len(),
            n > 0,
            last_at_or_before(records@, t as int, n) == last_at_or_before(
                records@,
                t as int,
                i as int,
            ),
            match last_at_or_before(records@, t as int, n) {
                Some(k) => 0 <= k < n && records@[k].ratio <= t && forall|j: int|
                    k < j < n ==> (#[trigger] records@[j]).ratio > t,
                None => true,
            },
        decreases i,
    {
        let last = records[i - 1];
        if last.ratio <= t {
            if i == records.len() {
                return LutEntry { from: last.color, to: last.color, num: 0, den: 1 };
            }
            let next = records[i];
            assert(records@[i as int].ratio > t);
            return LutEntry {
                from: last.color,
                to: next.color,
                num: t - last.ratio,
                den: next.ratio - last.ratio,
            };
        }
        i -= 1;
    }
    LutEntry { from: records[0].color, to: records[0].color, num: 0, den: 1 }
}

/// Builds a gradient lookup texture.
pub fn build_gradient_lut(records: &Vec<GradientRecord>) -> (r: Vec<LutEntry>)
    ensures
        r@.len() == GRADIENT_SIZE,
        forall|t: int| 0 <= t < GRADIENT_SIZE ==> #[trigger] r@[t] == color_at(records@, t),
{
    let mut lut: Vec<LutEntry> = Vec::new();
    let mut t: usize = 0;
    while t < GRADIENT_SIZE
        invariant
            t <= GRADIENT_SIZE,
            lut@.len() == t,
            forall|i: int| 0 <= i < t ==> #[trigger] lut@[i] == color_at(records@, i),
        decreases GRADIENT_SIZE - t,
    {
        lut.push(lut_entry(records, t as u8));
        t += 1;
    }
    lut
}

/// Every entry of a lookup texture is a color between two: the way between them is
/// at least zero and less than one.
pub proof fn lut_interpolates(records: Seq<GradientRecord>, t: int)
    requires
        0 <= t < GRADIENT_SIZE,
    ensures
        color_at(records, t).num < color_at(records, t).den,
{
    lemma_last(records, t, records.len() as int);
    if let Some(i) = last_at_or_before(records, t, records.len() as int) {
        if i + 1 < records.len() {
            assert(records[i + 1].ratio > t);
        }
    }
}

/// At the position of a record the color is that record's, if no later record
/// stands at or before it.
pub proof fn lut_hits_records(records: Seq<GradientRecord>, i: int)
    requires
        0 <= i < records.len(),
        forall|j: int| i < j < records.len() ==> (#[trigger] records[j]).ratio > records[i].ratio,
    ensures
        color_at(records, records[i].ratio as int).from == records[i].color,
        color_at(records, records[i].ratio as int).num == 0,
{
    lemma_last(records, records[i].ratio as int, records.len() as int);
}

/// The focal point of a gradient, kept away from the rim: within 0.98 of the
/// center.
pub open spec fn clamped_focal_point(raw: i16) -> Ratio {
    if raw > 250 {
        Ratio { num: 98, den: 100 }
    } else if raw < -250 {
        Ratio { num: (-98) as i128, den: 100 }
    } else {
        Ratio { num: raw as i128, den: 256 }
    }
}

/// Gradient uniform data: the focal point is in 8.8 fixed point.
pub fn gradient_uniforms(
    gradient_type: GradientType,
    gradient: &Gradient,
    focal_point: i16,
) -> (r: GradientUniforms)
    ensures
        r.focal_point == clamped_focal_point(focal_point),
        r.interpolation == if gradient.interpolation is LinearRgb {
            1int
        } else {
            0
        },
        r.shape == match gradient_type {
            GradientType::Linear => 1int,
            GradientType::Radial => 2,
            GradientType::Focal => 3,
        },
        r.repeat == match gradient.spread {
            GradientSpread::Pad => 1int,
            GradientSpread::Reflect => 2,
            GradientSpread::Repeat => 3,
        },
{
    let focal_point = if focal_point > 250 {
        Ratio { num: 98, den: 100 }
    } else if focal_point < -250 {
        Ratio { num: -98, den: 100 }
    } else {
        Ratio { num: focal_point as i128, den: 256 }
    };
    GradientUniforms {
        focal_point,
        interpolation: match gradient.interpolation {
            GradientInterpolation::LinearRgb => 1,
            GradientInterpolation::Rgb => 0,
        },
        shape: match gradient_type {
            GradientType::Linear => 1,
            GradientType::Radial => 2,
            GradientType::Focal => 3,
        },
        repeat: match gradient.spread {
            GradientSpread::Pad => 1,
            GradientSpread::Reflect => 2,
            GradientSpread::Repeat => 3,
        },
    }
}

/// The focal point stays within 0.98 of the center, and where it already does it
/// is kept: 0.98 is 250.88 steps of 1/256.
pub proof fn focal_point_is_clamped(raw: i16)
    ensures
        ({
            let f = clamped_focal_point(raw);
            &&& f.den > 0
            &&& -98 * f.den <= 100 * f.num <= 98 * f.den
            &&& -98 * 256 <= 100 * raw <= 98 * 256 ==> f == (Ratio { num: raw as i128, den: 256 })
        }),
{
}

/// An exact 3x3 matrix, by columns.
pub type Matrix3 = [[Ratio; 3]; 3];

/// A whole number.
pub open spec fn whole(n: int) -> Ratio {
    Ratio { num: n as i128, den: 1 }
}

/// The matrix that changes nothing.
pub open spec fn identity() -> Matrix3 {
    [
        [whole(1), whole(0), whole(0)],
        [whole(0), whole(1), whole(0)],
        [whole(0), whole(0), whole(1)],
    ]
}

/// The determinant of a matrix, scaled by 2^32.
pub open spec fn det(m: FixedMatrix) -> int {
    m.a * m.d - m.c * m.b
}

/// A quotient.
pub open spec fn ratio(num: int, den: int) -> Ratio {
    Ratio { num: num as i128, den: den as i128 }
}

/// The matrix from object-space pixels to gradient texture coordinates.
pub open spec fn gradient_matrix(m: FixedMatrix) -> Matrix3 {
    let k = det(m);
    if k == 0 {
        identity()
    } else {
        [
            [ratio(40 * m.d, k), ratio(-(40 * m.b), k), whole(0)],
            [ratio(-(40 * m.c), k), ratio(40 * m.a, k), whole(0)],
            [
                ratio(k - 4 * (m.tx * m.d - m.c * m.ty), 2 * k),
                ratio(k + 4 * (m.tx * m.b - m.a * m.ty), 2 * k),
                whole(1),
            ],
        ]
    }
}

/// The matrix from object-space pixels to bitmap texture coordinates.
pub open spec fn bitmap_matrix(m: FixedMatrix, width: u32, height: u32) -> Matrix3 {
    let k = det(m);
    if k == 0 {
        identity()
    } else {
        [
            [ratio(1310720 * m.d, k * width), ratio(-(1310720 * m.b), k * height), whole(0)],
            [ratio(-(1310720 * m.c), k * width), ratio(1310720 * m.a, k * height), whole(0)],
            [
                ratio(-(65536 * (m.tx * m.d - m.c * m.ty)), k * width),
                ratio(65536 * (m.tx * m.b - m.a * m.ty), k * height),
                whole(1),
            ],
        ]
    }
}

/// The product of two 32-bit numbers.
fn product(a: i32, b: i32) -> (r: i128)
    ensures
        r == a * b,
        -0x4000_0000_0000_0000 <= r <= 0x4000_0000_0000_0000,
{
    proof {
        let (x, y) = (a as int, b as int);
        assert(-0x4000_0000_0000_0000 <= x * y <= 0x4000_0000_0000_0000) by (nonlinear_arith)
            requires
                -0x8000_0000 <= x <= 0x7fff_ffff,
                -0x8000_0000 <= y <= 0x7fff_ffff,
        ;
    }
    a as i128 * b as i128
}

/// A determinant times a size.
fn scaled(k: i128, size: u32) -> (r: i128)
    requires
        -0x8000_0000_0000_0000 <= k <= 0x8000_0000_0000_0000,
    ensures
        r == k * size,
{
    proof {
        let (x, y) = (k as int, size as int);
        assert(-0x8000_0000_0000_0000_0000_0000 <= x * y <= 0x8000_0000_0000_0000_0000_0000)
            by (nonlinear_arith)
            requires
                -0x8000_0000_0000_0000 <= x <= 0x8000_0000_0000_0000,
                0 <= y <= 0xffff_ffff,
        ;
    }
    k * size as i128
}

/// A whole number.
fn whole_number(n: i128) -> (r: Ratio)
    ensures
        r == whole(n as int),
{
    Ratio { num: n, den: 1 }
}

/// The matrix that changes nothing.
fn identity_matrix() -> (r: Matrix3)
    ensures
        r == identity(),
{
    let (zero, one) = (whole_number(0), whole_number(1));
    [[one, zero, zero], [zero, one, zero], [zero, zero, one]]
}

/// Convert a gradient matrix into a 3x3 GL-style texture transform matrix.
///
/// The gradient coordinate space uses a 32768x32768 space
/// (-16384 to +16384 twips). This matrix converts from object-space
/// pixels into normalized 0..1 UV space.
///
/// The factor of 20 converts the inverse matrix from "per twip" to
/// "per pixel" (since vertex positions in the shader are in pixels but
/// tx/ty are in raw twips). The 32768 normalizes to the gradient box.
/// The +0.5 centers the gradient in [0,1] UV space.
///
/// A degenerate matrix gives the identity.
pub fn swf_to_gl_matrix(m: &FixedMatrix) -> (r: Matrix3)
    ensures
        r == gradient_matrix(*m),
{
    let k: i128 = product(m.a, m.d) - product(m.c, m.b);
    if k == 0 {
        return identity_matrix();
    }
    let (zero, one) = (whole_number(0), whole_number(1));
    let a = Ratio { num: 40 * m.d as i128, den: k };
    let b = Ratio { num: -(40 * m.c as i128), den: k };
    let c = Ratio { num: k - 4 * (product(m.tx, m.d) - product(m.c, m.ty)), den: 2 * k };
    let d = Ratio { num: -(40 * m.b as i128), den: k };
    let e = Ratio { num: 40 * m.a as i128, den: k };
    let f = Ratio { num: k + 4 * (product(m.tx, m.b) - product(m.a, m.ty)), den: 2 * k };
    [[a, d, zero], [b, e, zero], [c, f, one]]
}

/// Convert a bitmap matrix into a 3x3 GL-style texture transform matrix.
///
/// Similar to [`swf_to_gl_matrix`] but normalizes by bitmap pixel dimensions
/// instead of the gradient box size. No +0.5 centering offset because the
/// bitmap origin is at the corner, not the center.
pub fn swf_bitmap_to_gl_matrix(m: &FixedMatrix, bitmap_width: u32, bitmap_height: u32) -> (r:
    Matrix3)
    ensures
        r == bitmap_matrix(*m, bitmap_width, bitmap_height),
{
    let k: i128 = product(m.a, m.d) - product(m.c, m.b);
    if k == 0 {
        return identity_matrix();
    }
    let (zero, one) = (whole_number(0), whole_number(1));
    let kw: i128 = scaled(k, bitmap_width);
    let kh: i128 = scaled(k, bitmap_height);
    let a = Ratio { num: 1310720 * m.d as i128, den: kw };
    let b = Ratio { num: -(1310720 * m.c as i128), den: kw };
    let c = Ratio { num: -(65536 * (product(m.tx, m.d) - product(m.c, m.ty))), den: kw };
    let d = Ratio { num: -(1310720 * m.b as i128), den: kh };
    let e = Ratio { num: 1310720 * m.a as i128, den: kh };
    let f = Ratio { num: 65536 * (product(m.tx, m.b) - product(m.a, m.ty)), den: kh };
    [[a, d, zero], [b, e, zero], [c, f, one]]
}

/// Pads a 3x3 matrix to 4x4.
pub fn matrix_3x3_to_4x4(m: &Matrix3) -> (r: Matrix4)
    ensures
        r == [
            [m@[0]@[0], m@[0]@[1], m@[0]@[2], whole(0)],
            [m@[1]@[0], m@[1]@[1], m@[1]@[2], whole(0)],
            [m@[2]@[0], m@[2]@[1], m@[2]@[2], whole(0)],
            [whole(0), whole(0), whole(0), whole(1)],
        ],
        r == crate::mesh::padded(*m),
{
    let (zero, one) = (whole_number(0), whole_number(1));
    [
        [m[0][0], m[0][1], m[0][2], zero],
        [m[1][0], m[1][1], m[1][2], zero],
        [m[2][0], m[2][1], m[2][2], zero],
        [zero, zero, zero, one],
    ]
}

/// Where a texture point of a fill lies in object space, in units of 1/65536 twip.
pub open spec fn placed(m: FixedMatrix, x: int, y: int) -> (int, int) {
    (m.a * x + m.c * y + 65536 * m.tx, m.b * x + m.d * y + 65536 * m.ty)
}

/// Whether a texture matrix takes an object-space point, in units of 1/65536 twip,
/// to the texture coordinates `u_num / u_den` and `v_num / v_den`: 20 twips are a
/// pixel, and the products are taken over common denominators.
pub open spec fn maps_to(
    t: Matrix3,
    p: (int, int),
    u_num: int,
    u_den: int,
    v_num: int,
    v_den: int,
) -> bool {
    let (a, b, c) = (t@[0]@[0], t@[1]@[0], t@[2]@[0]);
    let (d, e, f) = (t@[0]@[1], t@[1]@[1], t@[2]@[1]);
    &&& a.den == b.den && d.den == e.den
    &&& u_den * ((a.num * p.0 + b.num * p.1) * c.den + 1310720 * c.num * a.den) == u_num * (1310720
        * a.den * c.den)
    &&& v_den * ((d.num * p.0 + e.num * p.1) * f.den + 1310720 * f.num * d.den) == v_num * (1310720
        * d.den * f.den)
}

/// A gradient's own space, 32768 twips wide around its center, fills the texture
/// from zero to one: the gradient's point `x`, wherever its matrix places it, has
/// the texture coordinate `x / 32768 + 1/2`.
pub proof fn gradient_box_fills_texture(m: FixedMatrix, x: int, y: int)
    requires
        det(m) != 0,
    ensures
        maps_to(gradient_matrix(m), placed(m, x, y), x + 16384, 32768, y + 16384, 32768),
{
    let k = det(m);
    let (a, b, c, d) = (m.a as int, m.b as int, m.c as int, m.d as int);
    let (tx, ty) = (m.tx as int, m.ty as int);
    lemma_products_fit(m);
    let p = placed(m, x, y);
    lemma_inverse(a, b, c, d, tx, ty, x, y);
    let s = tx * d - c * ty;
    let r = tx * b - a * ty;
    // The first row.
    let u = 40 * d * p.0 + (-(40 * c)) * p.1;
    assert(u == 40 * (k * x + 65536 * s)) by (nonlinear_arith)
        requires
            u == 40 * d * p.0 + (-(40 * c)) * p.1,
            d * p.0 - c * p.1 == k * x + 65536 * s,
    ;
    assert(32768 * (u * (2 * k) + 1310720 * (k - 4 * s) * k) == (x + 16384) * (1310720 * k * (2
        * k))) by (nonlinear_arith)
        requires
            u == 40 * (k * x + 65536 * s),
    ;
    // The second row.
    let v = (-(40 * b)) * p.0 + 40 * a * p.1;
    assert(v == 40 * (k * y - 65536 * r)) by (nonlinear_arith)
        requires
            v == (-(40 * b)) * p.0 + 40 * a * p.1,
            a * p.1 - b * p.0 == k * y - 65536 * r,
    ;
    assert(32768 * (v * (2 * k) + 1310720 * (k + 4 * r) * k) == (y + 16384) * (1310720 * k * (2
        * k))) by (nonlinear_arith)
        requires
            v == 40 * (k * y - 65536 * r),
    ;
}

/// A bitmap's own space, one unit per pixel from its corner, fills the texture
/// from zero to one: the bitmap's point `x`, wherever its matrix places it, has
/// the texture coordinate `x / width`.
pub proof fn bitmap_fills_texture(m: FixedMatrix, width: u32, height: u32, x: int, y: int)
    requires
        det(m) != 0,
    ensures
        maps_to(
            bitmap_matrix(m, width, height),
            placed(m, x, y),
            x,
            width as int,
            y,
            height as int,
        ),
{
    let k = det(m);
    let (a, b, c, d) = (m.a as int, m.b as int, m.c as int, m.d as int);
    let (tx, ty) = (m.tx as int, m.ty as int);
    lemma_products_fit(m);
    let (w, h) = (width as int, height as int);
    assert(-0x8000_0000_0000_0000_0000_0000 <= k * w <= 0x8000_0000_0000_0000_0000_0000)
        by (nonlinear_arith)
        requires
            -0x8000_0000_0000_0000 <= k <= 0x8000_0000_0000_0000,
            0 <= w <= 0xffff_ffff,
    ;
    assert(-0x8000_0000_0000_0000_0000_0000 <= k * h <= 0x8000_0000_0000_0000_0000_0000)
        by (nonlinear_arith)
        requires
            -0x8000_0000_0000_0000 <= k <= 0x8000_0000_0000_0000,
            0 <= h <= 0xffff_ffff,
    ;
    let p = placed(m, x, y);
    lemma_inverse(a, b, c, d, tx, ty, x, y);
    let s = tx * d - c * ty;
    let r = tx * b - a * ty;
    let u = 1310720 * d * p.0 + (-(1310720 * c)) * p.1;
    assert(u == 1310720 * (k * x + 65536 * s)) by (nonlinear_arith)
        requires
            u == 1310720 * d * p.0 + (-(1310720 * c)) * p.1,
            d * p.0 - c * p.1 == k * x + 65536 * s,
    ;
    let kw = k * w;
    assert(w * (u * kw + 1310720 * (-(65536 * s)) * kw) == x * (1310720 * kw * kw))
        by (nonlinear_arith)
        requires
            u == 1310720 * (k * x + 65536 * s),
            kw == k * w,
    ;
    let v = (-(1310720 * b)) * p.0 + 1310720 * a * p.1;
    assert(v == 1310720 * (k * y - 65536 * r)) by (nonlinear_arith)
        requires
            v == (-(1310720 * b)) * p.0 + 1310720 * a * p.1,
            a * p.1 - b * p.0 == k * y - 65536 * r,
    ;
    let kh = k * h;
    assert(h * (v * kh + 1310720 * (65536 * r) * kh) == y * (1310720 * kh * kh))
        by (nonlinear_arith)
        requires
            v == 1310720 * (k * y - 65536 * r),
            kh == k * h,
    ;
}

/// Multiplying with the adjugate of a matrix undoes it, up to its determinant.
proof fn lemma_inverse(a: int, b: int, c: int, d: int, tx: int, ty: int, x: int, y: int)
    ensures
        ({
            let k = a * d - c * b;
            let (px, py) = (a * x + c * y + 65536 * tx, b * x + d * y + 65536 * ty);
            &&& d * px - c * py == k * x + 65536 * (tx * d - c * ty)
            &&& a * py - b * px == k * y - 65536 * (tx * b - a * ty)
        }),
{
    let k = a * d - c * b;
    let (px, py) = (a * x + c * y + 65536 * tx, b * x + d * y + 65536 * ty);
    let (ad, cb) = (a * d, c * b);
    lemma_combine(d, a, c, 65536 * tx, x, y);
    lemma_combine(c, b, d, 65536 * ty, x, y);
    lemma_combine(a, b, d, 65536 * ty, x, y);
    lemma_combine(b, a, c, 65536 * tx, x, y);
    assert((ad - cb) * x == ad * x - cb * x) by (nonlinear_arith);
    assert((ad - cb) * y == ad * y - cb * y) by (nonlinear_arith);
    assert(d * a == ad && a * d == ad && b * c == cb && c * b == cb && d * c == c * d && a * b == b
        * a) by (nonlinear_arith)
        requires
            ad == a * d,
            cb == c * b,
    ;
    assert(d * (65536 * tx) == 65536 * (tx * d)) by (nonlinear_arith);
    assert(c * (65536 * ty) == 65536 * (c * ty)) by (nonlinear_arith);
    assert(a * (65536 * ty) == 65536 * (a * ty)) by (nonlinear_arith);
    assert(b * (65536 * tx) == 65536 * (tx * b)) by (nonlinear_arith);
}

proof fn lemma_combine(f: int, p: int, q: int, t: int, x: int, y: int)
    ensures
        f * (p * x + q * y + t) == (f * p) * x + (f * q) * y + f * t,
{
    assert(f * (p * x + q * y + t) == (f * p) * x + (f * q) * y + f * t) by (nonlinear_arith);
}

proof fn lemma_products_fit(m: FixedMatrix)
    ensures
        -0x8000_0000_0000_0000 <= det(m) <= 0x8000_0000_0000_0000,
        -0x8000_0000_0000_0000 <= m.tx * m.d - m.c * m.ty <= 0x8000_0000_0000_0000,
        -0x8000_0000_0000_0000 <= m.tx * m.b - m.a * m.ty <= 0x8000_0000_0000_0000,
{
    lemma_product_fits(m.a as int, m.d as int);
    lemma_product_fits(m.c as int, m.b as int);
    lemma_product_fits(m.tx as int, m.d as int);
    lemma_product_fits(m.c as int, m.ty as int);
    lemma_product_fits(m.tx as int, m.b as int);
    lemma_product_fits(m.a as int, m.ty as int);
}

proof fn lemma_product_fits(x: int, y: int)
    requires
        -0x8000_0000 <= x <= 0x7fff_ffff,
        -0x8000_0000 <= y <= 0x7fff_ffff,
    ensures
        -0x4000_0000_0000_0000 <= x * y <= 0x4000_0000_0000_0000,
{
    assert(-0x4000_0000_0000_0000 <= x * y <= 0x4000_0000_0000_0000) by (nonlinear_arith)
        requires
            -0x8000_0000 <= x <= 0x7fff_ffff,
            -0x8000_0000 <= y <= 0x7fff_ffff,
    ;
}

/// Whether an entry of a lookup texture is one color throughout.
pub open spec fn is_one_color(e: LutEntry, color: Color) -> bool {
    &&& e.from.r == color.r && e.from.g == color.g && e.from.b == color.b && e.from.a == color.a
    &&& e.to.r == color.r && e.to.g == color.g && e.to.b == color.b && e.to.a == color.a
    &&& e.num == 0 && e.den > 0
}

/// One channel of an entry, times its denominator: `num / den` of the way from one color to
/// the other.
pub open spec fn channel_at(e: LutEntry, from: u8, to: u8) -> int {
    from * (e.den - e.num) + to * e.num
}

/// Between two stops that follow each other, with the position at or after the first and
/// before the second and all later ones, a gradient goes from the color of the first to that
/// of the second, in all four channels, by as much of the way as the position has gone from
/// the one to the other.
pub proof fn gradients_go_from_stop_to_stop(records: Seq<GradientRecord>, t: int, i: int)
    requires
        0 <= i < records.len() - 1,
        records[i].ratio <= t,
        forall|j: int| i < j < records.len() ==> t < (#[trigger] records[j]).ratio,
        0 <= t < 256,
    ensures
        ({
            let e = color_at(records, t);
            let (a, b) = (records[i], records[i + 1]);
            let way = b.ratio - a.ratio;
            let gone = t - a.ratio;
            let left = b.ratio - t;
            &&& e.num * way == e.den * gone && e.den > 0
            &&& channel_at(e, e.from.r, e.to.r) * way == e.den * (a.color.r * left + b.color.r
                * gone)
            &&& channel_at(e, e.from.g, e.to.g) * way == e.den * (a.color.g * left + b.color.g
                * gone)
            &&& channel_at(e, e.from.b, e.to.b) * way == e.den * (a.color.b * left + b.color.b
                * gone)
            &&& channel_at(e, e.from.a, e.to.a) * way == e.den * (a.color.a * left + b.color.a
                * gone)
            &&& (e.from.r, e.from.g, e.from.b, e.from.a) == (
                a.color.r,
                a.color.g,
                a.color.b,
                a.color.a,
            )
            &&& (e.to.r, e.to.g, e.to.b, e.to.a) == (b.color.r, b.color.g, b.color.b, b.color.a)
        }),
{
    lemma_last(records, t, records.len() as int);
    let e = color_at(records, t);
    let (a, b) = (records[i], records[i + 1]);
    assert(t < b.ratio);
    let (way, gone) = (b.ratio - a.ratio, t - a.ratio);
    assert(e.num == gone && e.den == way);
    assert(gone * way == way * gone) by (nonlinear_arith);
    lemma_same_way(a.color.r as int, b.color.r as int, way, gone);
    lemma_same_way(a.color.g as int, b.color.g as int, way, gone);
    lemma_same_way(a.color.b as int, b.color.b as int, way, gone);
    lemma_same_way(a.color.a as int, b.color.a as int, way, gone);
}

proof fn lemma_same_way(p: int, q: int, way: int, gone: int)
    ensures
        (p * (way - gone) + q * gone) * way == way * (p * (way - gone) + q * gone),
{
    let v = p * (way - gone) + q * gone;
    assert(v * way == way * v) by (nonlinear_arith);
}

/// A gradient is its first color where all stops are still to come, its last color from the
/// last stop on, and transparent black where there are none.
pub proof fn gradients_end_in_their_outer_colors(records: Seq<GradientRecord>, t: int)
    requires
        0 <= t < 256,
    ensures
        records.len() == 0 ==> is_one_color(
            color_at(records, t),
            Color { r: 0, g: 0, b: 0, a: 0 },
        ),
        records.len() > 0 && records.last().ratio <= t ==> is_one_color(
            color_at(records, t),
            records.last().color,
        ),
        records.len() > 0 && (forall|j: int|
            0 <= j < records.len() ==> t < (#[trigger] records[j]).ratio) ==> is_one_color(
            color_at(records, t),
            records[0].color,
        ),
{
    lemma_last(records, t, records.len() as int);
}

/// A gradient between opaque stops is opaque, and one between stops of one color has that
/// color throughout.
pub proof fn gradients_keep_what_stops_share(records: Seq<GradientRecord>, t: int, color: Color)
    requires
        0 <= t < 256,
        records.len() > 0,
    ensures
        (forall|j: int| 0 <= j < records.len() ==> (#[trigger] records[j]).color.a == color.a) ==> {
            let e = color_at(records, t);
            e.from.a == color.a && e.to.a == color.a
        },
        (forall|j: int| 0 <= j < records.len() ==> (#[trigger] records[j]).color == color) ==> {
            let e = color_at(records, t);
            e.from == color && e.to == color
        },
{
    lemma_last(records, t, records.len() as int);
    if let Some(i) = last_at_or_before(records, t, records.len() as int) {
        assert(records[i].color == records[i].color);
        if i + 1 < records.len() {
            assert(records[i + 1].color == records[i + 1].color);
        }
    }
    assert(records[0].color == records[0].color);
}

/// A matrix that flattens everything gives a texture matrix that changes nothing.
pub proof fn degenerate_matrices_change_nothing(m: FixedMatrix, width: u32, height: u32)
    requires
        m.a * m.d == m.b * m.c,
    ensures
        ({
            let (g, b) = (gradient_matrix(m), bitmap_matrix(m, width, height));
            forall|i: int, j: int|
                0 <= i < 3 && 0 <= j < 3 ==> {
                    let expected = if i == j {
                        1int
                    } else {
                        0
                    };
                    &&& (#[trigger] g@[i]@[j]).num == expected && g@[i]@[j].den == 1
                    &&& b@[i]@[j].num == expected && b@[i]@[j].den == 1
                }
        }),
{
    assert(m.b * m.c == m.c * m.b) by (nonlinear_arith);
    let (g, b) = (gradient_matrix(m), bitmap_matrix(m, width, height));
    assert(g == identity() && b == identity());
    assert forall|i: int, j: int| 0 <= i < 3 && 0 <= j < 3 implies {
        let expected = if i == j {
            1int
        } else {
            0
        };
        &&& (#[trigger] g@[i]@[j]).num == expected && g@[i]@[j].den == 1
        &&& b@[i]@[j].num == expected && b@[i]@[j].den == 1
    } by {
        assert(i == 0 || i == 1 || i == 2);
        assert(j == 0 || j == 1 || j == 2);
    }
}

/// The third row of a texture matrix is that of an affine map: it neither divides nor
/// flattens.
pub proof fn texture_matrices_are_affine(m: FixedMatrix, width: u32, height: u32)
    ensures
        ({
            let (g, b) = (gradient_matrix(m), bitmap_matrix(m, width, height));
            &&& g@[0]@[2].num == 0 && g@[1]@[2].num == 0 && g@[2]@[2].num == g@[2]@[2].den
            &&& b@[0]@[2].num == 0 && b@[1]@[2].num == 0 && b@[2]@[2].num == b@[2]@[2].den
            &&& g@[0]@[2].den == 1 && g@[1]@[2].den == 1 && g@[2]@[2].den == 1
            &&& b@[0]@[2].den == 1 && b@[1]@[2].den == 1 && b@[2]@[2].den == 1
        }),
{
}

/// A texture matrix can be evaluated: it divides by nothing that is zero, but by the size of
/// an empty bitmap.
pub proof fn texture_matrices_can_be_evaluated(m: FixedMatrix, width: u32, height: u32)
    requires
        width > 0,
        height > 0,
    ensures
        ({
            let (g, b) = (gradient_matrix(m), bitmap_matrix(m, width, height));
            forall|i: int, j: int|
                0 <= i < 3 && 0 <= j < 3 ==> (#[trigger] g@[i]@[j]).den != 0 && b@[i]@[j].den != 0
        }),
{
    let (g, b) = (gradient_matrix(m), bitmap_matrix(m, width, height));
    let (k, w, h) = (det(m), width as int, height as int);
    lemma_products_fit(m);
    assert(k != 0 ==> k * w != 0 && k * h != 0) by (nonlinear_arith)
        requires
            w > 0,
            h > 0,
    ;
    assert(-0x8000_0000_0000_0000_0000_0000 <= k * w <= 0x8000_0000_0000_0000_0000_0000)
        by (nonlinear_arith)
        requires
            -0x8000_0000_0000_0000 <= k <= 0x8000_0000_0000_0000,
            0 <= w <= 0xffff_ffff,
    ;
    assert(-0x8000_0000_0000_0000_0000_0000 <= k * h <= 0x8000_0000_0000_0000_0000_0000)
        by (nonlinear_arith)
        requires
            -0x8000_0000_0000_0000 <= k <= 0x8000_0000_0000_0000,
            0 <= h <= 0xffff_ffff,
    ;
    assert forall|i: int, j: int| 0 <= i < 3 && 0 <= j < 3 implies (#[trigger] g@[i]@[j]).den != 0
        && b@[i]@[j].den != 0 by {
        assert(i == 0 || i == 1 || i == 2);
        assert(j == 0 || j == 1 || j == 2);
    }
}

} // verus!
