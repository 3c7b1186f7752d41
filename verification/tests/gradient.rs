use wgpu_bezier::geometry::{Color, Ratio};
use wgpu_bezier::gradient::{
    build_gradient_lut, gradient_uniforms, matrix_3x3_to_4x4, swf_bitmap_to_gl_matrix,
    swf_to_gl_matrix, FixedMatrix, Gradient, GradientInterpolation, GradientRecord,
    GradientSpread, GradientType, LutEntry,
};

fn gray(v: u8) -> Color {
    Color { r: v, g: v / 2, b: 255 - v, a: v }
}

fn record(ratio: u8, v: u8) -> GradientRecord {
    GradientRecord { ratio, color: gray(v) }
}

fn lerp(a: u8, b: u8, t: f32) -> u8 {
    (a as f32 + (b as f32 - a as f32) * t) as u8
}

fn shade(e: &LutEntry) -> [u8; 4] {
    let t = f32::from(e.num) / f32::from(e.den);
    [
        lerp(e.from.r, e.to.r, t),
        lerp(e.from.g, e.to.g, t),
        lerp(e.from.b, e.to.b, t),
        lerp(e.from.a, e.to.a, t),
    ]
}

/// The lookup table in single precision, from the stops around each position.
fn reference(records: &[GradientRecord]) -> Vec<[u8; 4]> {
    (0..256)
        .map(|t| {
            let ratio = (t as f32 / 255.0) * 255.0;
            let (mut last, mut next) = (0, 0);
            for (i, r) in records.iter().enumerate().rev() {
                if f32::from(r.ratio) <= ratio {
                    last = i;
                    next = (i + 1).min(records.len() - 1);
                    break;
                }
            }
            let (l, n) = (&records[last], &records[next]);
            let a = if next == last {
                0.0
            } else {
                (ratio - f32::from(l.ratio)) / (f32::from(n.ratio) - f32::from(l.ratio))
            };
            [
                lerp(l.color.r, n.color.r, a),
                lerp(l.color.g, n.color.g, a),
                lerp(l.color.b, n.color.b, a),
                lerp(l.color.a, n.color.a, a),
            ]
        })
        .collect()
}

#[test]
fn lookup_tables_match_single_precision() {
    let tables = [
        vec![record(0, 10), record(255, 250)],
        vec![record(30, 232), record(35, 22), record(200, 99)],
        vec![record(128, 7)],
        vec![record(200, 1), record(100, 2), record(50, 3)],
        vec![record(10, 5), record(10, 50), record(10, 90), record(20, 0)],
    ];
    for records in tables {
        let shaded: Vec<[u8; 4]> = build_gradient_lut(&records).iter().map(shade).collect();
        assert_eq!(shaded, reference(&records));
    }
}

#[test]
fn lookup_positions_are_whole_in_single_precision() {
    for t in 0..256u32 {
        assert_eq!((t as f32 / 255u32 as f32) * 255.0, t as f32);
    }
    // A stop has its own color at its own position.
    for ratio in 1..=254u8 {
        let lut = build_gradient_lut(&vec![record(0, 3), record(ratio, 200), record(255, 90)]);
        let c = gray(200);
        assert_eq!(shade(&lut[usize::from(ratio)]), [c.r, c.g, c.b, c.a]);
    }
}

#[test]
fn empty_gradients_are_transparent_black() {
    let lut = build_gradient_lut(&vec![]);
    assert_eq!(lut.len(), 256);
    assert!(lut.iter().all(|e| shade(e) == [0, 0, 0, 0]));
}

#[test]
fn gradients_extend_beyond_their_stops() {
    let lut = build_gradient_lut(&vec![record(30, 11), record(200, 99)]);
    let solid = |v| LutEntry { from: gray(v), to: gray(v), num: 0, den: 1 };
    assert_eq!(lut[0], solid(11));
    assert_eq!(lut[29], solid(11));
    assert_eq!(lut[30], LutEntry { from: gray(11), to: gray(99), num: 0, den: 170 });
    assert_eq!(lut[115], LutEntry { from: gray(11), to: gray(99), num: 85, den: 170 });
    assert_eq!(lut[200], solid(99));
    assert_eq!(lut[255], solid(99));
}

fn gradient(spread: GradientSpread, interpolation: GradientInterpolation) -> Gradient {
    Gradient { matrix: matrix(1, 0, 0, 1, 0, 0), spread, interpolation, records: vec![] }
}

#[test]
fn uniforms_number_the_choices() {
    let pad = gradient(GradientSpread::Pad, GradientInterpolation::Rgb);
    let u = gradient_uniforms(GradientType::Linear, &pad, 0);
    assert_eq!((u.interpolation, u.shape, u.repeat), (0, 1, 1));
    let reflect = gradient(GradientSpread::Reflect, GradientInterpolation::LinearRgb);
    let u = gradient_uniforms(GradientType::Radial, &reflect, 0);
    assert_eq!((u.interpolation, u.shape, u.repeat), (1, 2, 2));
    let repeat = gradient(GradientSpread::Repeat, GradientInterpolation::Rgb);
    let u = gradient_uniforms(GradientType::Focal, &repeat, 0);
    assert_eq!((u.interpolation, u.shape, u.repeat), (0, 3, 3));
}

#[test]
fn focal_points_are_clamped_like_in_single_precision() {
    let g = gradient(GradientSpread::Pad, GradientInterpolation::Rgb);
    for raw in i16::MIN..=i16::MAX {
        let f = gradient_uniforms(GradientType::Focal, &g, raw).focal_point;
        let expected = swf::Fixed8::from_bits(raw).to_f32().clamp(-0.98, 0.98);
        assert_eq!(f.num as f32 / f.den as f32, expected);
    }
}

/// A matrix with whole coefficients.
fn matrix(a: i32, b: i32, c: i32, d: i32, tx: i32, ty: i32) -> FixedMatrix {
    FixedMatrix { a: a << 16, b: b << 16, c: c << 16, d: d << 16, tx, ty }
}

fn value(r: Ratio) -> f64 {
    r.num as f64 / r.den as f64
}

fn map(m: &[[Ratio; 3]; 3], x: f64, y: f64) -> (f64, f64) {
    (
        value(m[0][0]) * x + value(m[1][0]) * y + value(m[2][0]),
        value(m[0][1]) * x + value(m[1][1]) * y + value(m[2][1]),
    )
}

#[test]
fn gradient_boxes_fill_the_texture() {
    // An identity matrix: 16384 twips are 819.2 pixels.
    let m = swf_to_gl_matrix(&matrix(1, 0, 0, 1, 0, 0));
    assert_eq!(map(&m, 0.0, 0.0), (0.5, 0.5));
    assert_eq!(map(&m, 819.2, -819.2), (1.0, 0.0));
    // A quarter turn, moved: the gradient's center is at its translation.
    let m = swf_to_gl_matrix(&matrix(0, 2, -2, 0, 400, 800));
    assert_eq!(map(&m, 20.0, 40.0), (0.5, 0.5));
    let (u, v) = map(&m, 20.0, 40.0 + 2.0 * 819.2);
    assert!((u - 1.0).abs() < 1e-9 && (v - 0.5).abs() < 1e-9);
}

#[test]
fn gradient_matrices_match_single_precision() {
    let raw = FixedMatrix { a: 70000, b: -1234, c: 4321, d: 50000, tx: 777, ty: -333 };
    let fixed = |v: i32| v as f32 / 65536.0;
    let (a, b, c, d) = (fixed(raw.a), fixed(raw.b), fixed(raw.c), fixed(raw.d));
    let (tx, ty) = (raw.tx as f32, raw.ty as f32);
    let det = a * d - c * b;
    let scale = 20.0 / 32768.0;
    let expected = [
        [d / det * scale, -b / det * scale],
        [-c / det * scale, a / det * scale],
        [
            -(tx * d - c * ty) / det / 32768.0 + 0.5,
            (tx * b - a * ty) / det / 32768.0 + 0.5,
        ],
    ];
    let m = swf_to_gl_matrix(&raw);
    for i in 0..3 {
        for j in 0..2 {
            assert!((value(m[i][j]) as f32 - expected[i][j]).abs() < 1e-6);
        }
    }
}

#[test]
fn bitmaps_fill_the_texture() {
    // Twenty twips per texel: one pixel per texel.
    let m = swf_bitmap_to_gl_matrix(&matrix(20, 0, 0, 20, 100, 0), 64, 32);
    assert_eq!(map(&m, 5.0, 0.0), (0.0, 0.0));
    assert_eq!(map(&m, 69.0, 32.0), (1.0, 1.0));
}

#[test]
fn degenerate_matrices_give_the_identity() {
    let one = Ratio { num: 1, den: 1 };
    let zero = Ratio { num: 0, den: 1 };
    let identity = [[one, zero, zero], [zero, one, zero], [zero, zero, one]];
    assert_eq!(swf_to_gl_matrix(&matrix(1, 2, 2, 4, 9, 9)), identity);
    assert_eq!(swf_bitmap_to_gl_matrix(&matrix(0, 0, 0, 0, 9, 9), 4, 4), identity);
}

#[test]
fn extreme_matrices_do_not_overflow() {
    let lo = FixedMatrix {
        a: i32::MIN,
        b: i32::MAX,
        c: i32::MIN,
        d: i32::MIN,
        tx: i32::MIN,
        ty: i32::MIN,
    };
    swf_to_gl_matrix(&lo);
    swf_bitmap_to_gl_matrix(&lo, u32::MAX, u32::MAX);
}

#[test]
fn padded_matrices_keep_their_entries() {
    let m = swf_to_gl_matrix(&matrix(3, 1, 2, 4, 5, 6));
    let p = matrix_3x3_to_4x4(&m);
    let one = Ratio { num: 1, den: 1 };
    let zero = Ratio { num: 0, den: 1 };
    for i in 0..3 {
        assert_eq!(p[i], [m[i][0], m[i][1], m[i][2], zero]);
    }
    assert_eq!(p[3], [zero, zero, zero, one]);
}
