use std::collections::HashMap;
use wgpu_bezier::bitmaps::{BitmapBindCache, BitmapBinding};
use wgpu_bezier::blend::{BlendMode, RenderBlendMode};
use wgpu_bezier::commands::{
    BitmapHandle, ColorTransform, Command, CommandList, LineRectExtent, PixelSnapping,
    RenderMatrix, Transform,
};
use wgpu_bezier::geometry::{Color, Ratio, Size, TwipsPoint};
use wgpu_bezier::transforms::{
    align_to, check_twips, collect_transforms, color_to_color_transform, world_matrix,
    Coefficient, LineSegment, TransformQueue, Transforms, WorldMatrix,
};

fn matrix(tx: i32, ty: i32) -> RenderMatrix {
    RenderMatrix { a: 1, b: 2, c: 3, d: 4, tx, ty }
}

fn plain_color() -> ColorTransform {
    ColorTransform {
        r_multiply: 256,
        g_multiply: 256,
        b_multiply: 256,
        a_multiply: 256,
        r_add: 0,
        g_add: 0,
        b_add: 0,
        a_add: 0,
    }
}

fn transform(tx: i32, ty: i32) -> Transform {
    Transform { matrix: matrix(tx, ty), color_transform: plain_color() }
}

fn red() -> Color {
    Color { r: 255, g: 0, b: 0, a: 255 }
}

fn list(commands: Vec<Command>) -> CommandList {
    CommandList { commands }
}

fn point(x: i32, y: i32) -> TwipsPoint {
    TwipsPoint { x, y }
}

fn collect(commands: &CommandList, bitmaps: &HashMap<usize, BitmapBinding>) -> Vec<Transforms> {
    assert!(check_twips(commands));
    let mut queue = TransformQueue::new(256);
    collect_transforms(commands, bitmaps, &mut queue);
    queue.data
}

#[test]
fn align_to_rounds_up() {
    assert_eq!(align_to(96, 256), 256);
    assert_eq!(align_to(256, 256), 256);
    assert_eq!(align_to(257, 256), 512);
    assert_eq!(align_to(0, 256), 0);
    assert_eq!(align_to(96, 1), 96);
    assert_eq!(align_to(96, 64), 128);
}

#[test]
fn color_multipliers_are_those_of_fixed_point() {
    for c in 0..=255u8 {
        let t = color_to_color_transform(Color { r: c, g: 0, b: 255, a: c });
        let expected = swf::Fixed8::from_f32(f32::from(c) / 255.0).get();
        assert_eq!(t.r_multiply, expected);
        assert_eq!(t.a_multiply, expected);
        assert_eq!(t.g_multiply, 0);
        assert_eq!(t.b_multiply, 256);
        assert_eq!((t.r_add, t.g_add, t.b_add, t.a_add), (0, 0, 0, 0));
    }
}

#[test]
fn pushed_transforms_get_aligned_offsets() {
    let mut queue = TransformQueue::new(256);
    assert_eq!(queue.aligned_size, 256);
    assert_eq!(queue.buffer_size(), 4096 * 256);
    let t = Transforms { world: WorldMatrix::Matrix(matrix(0, 0)), color: plain_color() };
    assert_eq!(queue.push_transform(t), 0);
    assert_eq!(queue.push_transform(t), 256);
    assert_eq!(queue.push_transform(t), 512);
    assert_eq!(queue.upload_offsets(), vec![0, 256, 512]);
    queue.clear();
    assert!(queue.data.is_empty());
    assert!(queue.upload_offsets().is_empty());
}

#[test]
fn small_alignments_leave_no_gaps() {
    let mut queue = TransformQueue::new(4);
    assert_eq!(queue.aligned_size, 96);
    let t = Transforms { world: WorldMatrix::Matrix(matrix(0, 0)), color: plain_color() };
    queue.push_transform(t);
    assert_eq!(queue.push_transform(t), 96);
}

#[test]
fn rects_carry_their_color() {
    let commands = list(vec![Command::DrawRect { color: red(), matrix: matrix(5, 6) }]);
    let data = collect(&commands, &HashMap::new());
    assert_eq!(
        data,
        vec![Transforms {
            world: WorldMatrix::Matrix(matrix(5, 6)),
            color: color_to_color_transform(red()),
        }]
    );
    assert_eq!(data[0].color.r_multiply, 256);
    assert_eq!(data[0].color.g_multiply, 0);
}

#[test]
fn lines_are_moved_by_half_a_pixel() {
    let commands = list(vec![Command::DrawLine { color: red(), matrix: matrix(100, -100) }]);
    let data = collect(&commands, &HashMap::new());
    assert_eq!(data[0].world, WorldMatrix::Matrix(matrix(110, -90)));
}

#[test]
fn line_rects_become_four_edges() {
    let extent =
        LineRectExtent { first: point(40, 0), both: point(40, 20), second: point(0, 20) };
    let commands =
        list(vec![Command::DrawLineRect { color: red(), matrix: matrix(100, 200), extent }]);
    let edges: Vec<WorldMatrix> =
        collect(&commands, &HashMap::new()).into_iter().map(|t| t.world).collect();
    let edge = |x, y, dx, dy| WorldMatrix::Line(LineSegment { start: point(x, y), dx, dy });
    assert_eq!(
        edges,
        vec![
            edge(110, 210, 40, 0),
            edge(150, 210, 0, 20),
            edge(150, 230, -40, 0),
            edge(110, 230, 0, -20),
        ]
    );
}

#[test]
fn flat_line_rects_have_degenerate_edges() {
    let extent = LineRectExtent { first: point(40, 0), both: point(40, 0), second: point(0, 0) };
    let commands =
        list(vec![Command::DrawLineRect { color: red(), matrix: matrix(0, 0), extent }]);
    let degenerate: Vec<bool> = collect(&commands, &HashMap::new())
        .into_iter()
        .map(|t| match t.world {
            WorldMatrix::Line(line) => line.is_degenerate(),
            _ => panic!("an edge is a line"),
        })
        .collect();
    assert_eq!(degenerate, vec![false, true, false, true]);
}

fn bitmap_command(key: usize, smoothing: bool) -> Command {
    Command::RenderBitmap {
        bitmap: BitmapHandle { key, width: 64, height: 32 },
        transform: transform(1, 2),
        smoothing,
        pixel_snapping: PixelSnapping::Auto,
    }
}

#[test]
fn bound_bitmaps_are_scaled_to_their_texture() {
    let commands = list(vec![bitmap_command(7, true)]);
    let mut cache = BitmapBindCache::new();
    cache.collect_bitmap_bind_groups(&commands);
    let bound = collect(&commands, &cache.bindings);
    assert_eq!(
        bound[0].world,
        WorldMatrix::Bitmap {
            matrix: matrix(1, 2),
            pixel_snapping: PixelSnapping::Auto,
            scale: Some(Size { width: 64, height: 32 }),
        }
    );
    let unbound = collect(&commands, &HashMap::new());
    assert!(matches!(unbound[0].world, WorldMatrix::Bitmap { scale: None, .. }));
}

#[test]
fn bitmaps_are_bound_once_with_their_first_smoothing() {
    let commands = list(vec![
        bitmap_command(7, true),
        Command::Blend(
            list(vec![bitmap_command(9, false), bitmap_command(7, false)]),
            RenderBlendMode::Builtin(BlendMode::Add),
        ),
        Command::RenderAlphaMask {
            maskee_commands: list(vec![bitmap_command(11, true)]),
            mask_commands: list(vec![bitmap_command(10, true)]),
        },
    ]);
    let mut cache = BitmapBindCache::new();
    cache.collect_bitmap_bind_groups(&commands);
    let keys = |cache: &BitmapBindCache| {
        let mut keys: Vec<usize> = cache.bindings.keys().copied().collect();
        keys.sort();
        keys
    };
    assert_eq!(keys(&cache), vec![7, 9, 10, 11]);
    assert_eq!(
        cache.bindings[&7],
        BitmapBinding { width: 64, height: 32, smoothing: true }
    );
    assert!(!cache.bindings[&9].smoothing);

    // Collecting again changes nothing.
    cache.collect_bitmap_bind_groups(&commands);
    assert_eq!(keys(&cache), vec![7, 9, 10, 11]);
    assert_eq!(
        cache.get_or_create_bitmap_bind_group(
            &BitmapHandle { key: 7, width: 1, height: 1 },
            false
        ),
        7
    );
    assert_eq!(cache.bindings[&7].width, 64);
    cache.clear();
    assert!(cache.bindings.is_empty());
}

#[test]
fn bindings_have_the_size_of_their_bitmaps() {
    let mut cache = BitmapBindCache::new();
    let handles =
        [(1, 10, 20), (2, 30, 40), (1, 10, 20)].map(|(key, width, height)| BitmapHandle {
            key,
            width,
            height,
        });
    for (handle, smoothing) in handles.iter().zip([true, false, false]) {
        assert_eq!(cache.get_or_create_bitmap_bind_group(handle, smoothing), handle.key);
        let binding = cache.bindings[&handle.key];
        assert_eq!((binding.width, binding.height), (handle.width, handle.height));
    }
    assert_eq!(cache.bindings.len(), 2);
    assert!(cache.bindings[&1].smoothing && !cache.bindings[&2].smoothing);
}

#[test]
fn alpha_masks_collect_the_mask_first() {
    let stage = |tx| Command::RenderStage3D { transform: transform(tx, 0) };
    let commands = list(vec![
        stage(1),
        Command::RenderAlphaMask {
            maskee_commands: list(vec![stage(2)]),
            mask_commands: list(vec![stage(3), stage(4)]),
        },
        Command::PushMask,
        stage(5),
    ]);
    let order: Vec<i32> = collect(&commands, &HashMap::new())
        .into_iter()
        .map(|t| match t.world {
            WorldMatrix::Matrix(m) => m.tx,
            _ => panic!("a stage has a plain matrix"),
        })
        .collect();
    assert_eq!(order, vec![1, 3, 4, 2, 5]);
}

#[test]
fn overflowing_coordinates_are_found() {
    let line = |tx| list(vec![Command::DrawLine { color: red(), matrix: matrix(tx, 0) }]);
    assert!(check_twips(&line(i32::MAX - 10)));
    assert!(!check_twips(&line(i32::MAX - 9)));
    let rect = |tx, w| {
        let extent =
            LineRectExtent { first: point(w, 0), both: point(w, 9), second: point(0, 9) };
        list(vec![Command::DrawLineRect { color: red(), matrix: matrix(tx, 0), extent }])
    };
    assert!(check_twips(&rect(0, 1000)));
    assert!(!check_twips(&rect(i32::MAX - 20, 1000)));
    let nested = list(vec![Command::Blend(
        line(i32::MAX),
        RenderBlendMode::Builtin(BlendMode::Normal),
    )]);
    assert!(!check_twips(&nested));
}

#[test]
fn world_matrices_hold_pixels() {
    let m = world_matrix(&matrix(30, -5));
    let exact = |num, den| Coefficient::Exact(Ratio { num, den });
    assert_eq!(m[0], [Coefficient::Bits(1), Coefficient::Bits(2), exact(0, 1), exact(0, 1)]);
    assert_eq!(m[1], [Coefficient::Bits(3), Coefficient::Bits(4), exact(0, 1), exact(0, 1)]);
    assert_eq!(m[2], [exact(0, 1), exact(0, 1), exact(1, 1), exact(0, 1)]);
    assert_eq!(m[3], [exact(30, 20), exact(-5, 20), exact(0, 1), exact(1, 1)]);
}
