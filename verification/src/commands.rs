//! Command lists: what one frame asks the renderer to draw.
use crate::blend::{classify, RenderBlendMode};
use crate::geometry::{Color, TwipsPoint};
use crate::mesh::BezierMesh;
use std::sync::Arc;
use vstd::prelude::*;

verus! {

/// A 2D affine matrix as display objects carry it.
///
/// The four coefficients are IEEE-754 single precision bit patterns. They are
/// passed on to the GPU untouched; only the translation, in twips, is computed
/// with.
#[derive(Clone, Copy, PartialEq, Eq, Structural, Debug)]
pub struct RenderMatrix {
    pub a: u32,
    pub b: u32,
    pub c: u32,
    pub d: u32,
    pub tx: i32,
    pub ty: i32,
}

/// A color transform: multipliers in 8.8 fixed point, addends in 1/255 steps.
#[derive(Clone, Copy, PartialEq, Eq, Structural, Debug)]
pub struct ColorTransform {
    pub r_multiply: i16,
    pub g_multiply: i16,
    pub b_multiply: i16,
    pub a_multiply: i16,
    pub r_add: i16,
    pub g_add: i16,
    pub b_add: i16,
    pub a_add: i16,
}

/// Where and in what color an object is drawn.
#[derive(Clone, Copy, PartialEq, Eq, Structural, Debug)]
pub struct Transform {
    pub matrix: RenderMatrix,
    pub color_transform: ColorTransform,
}

/// Whether a bitmap's position is rounded to whole pixels.
#[derive(Clone, Copy, PartialEq, Eq, Structural, Debug)]
pub enum PixelSnapping {
    Always,
    Auto,
    Never,
}

/// A registered bitmap: the key of its texture and the texture's size.
#[derive(Clone, Copy, PartialEq, Eq, Structural, Debug)]
pub struct BitmapHandle {
    pub key: usize,
    pub width: u32,
    pub height: u32,
}

/// A registered shape.
#[derive(Clone, Debug)]
pub struct ShapeHandle(pub Arc<BezierMesh>);

/// How far the corners of an outlined rectangle lie from its origin, in twips:
/// along its first axis, along both, and along its second axis.
#[derive(Clone, Copy, PartialEq, Eq, Structural, Debug)]
pub struct LineRectExtent {
    pub first: TwipsPoint,
    pub both: TwipsPoint,
    pub second: TwipsPoint,
}

/// One drawing command.
#[derive(Debug)]
pub enum Command {
    RenderBitmap {
        bitmap: BitmapHandle,
        transform: Transform,
        smoothing: bool,
        pixel_snapping: PixelSnapping,
    },
    RenderStage3D { transform: Transform },
    RenderShape { shape: ShapeHandle, transform: Transform },
    DrawRect { color: Color, matrix: RenderMatrix },
    DrawLine { color: Color, matrix: RenderMatrix },
    DrawLineRect { color: Color, matrix: RenderMatrix, extent: LineRectExtent },
    PushMask,
    ActivateMask,
    DeactivateMask,
    PopMask,
    Blend(CommandList, RenderBlendMode),
    RenderAlphaMask { maskee_commands: CommandList, mask_commands: CommandList },
}

/// A sequence of commands, drawn in order.
#[derive(Debug)]
pub struct CommandList {
    pub commands: Vec<Command>,
}

/// Whether a command is a blend that needs a shader pass.
pub open spec fn is_complex_blend(cmd: Command) -> bool {
    cmd matches Command::Blend(_, mode) && classify(mode) is Complex
}

/// Whether a list contains a complex blend at any depth.
pub open spec fn contains_complex_blend(cmds: Seq<Command>) -> bool
    decreases cmds,
{
    cmds.len() > 0 && (contains_complex_blend(cmds.drop_last()) || holds_complex_blend(cmds.last()))
}

/// Whether a command is or contains a complex blend.
pub open spec fn holds_complex_blend(cmd: Command) -> bool
    decreases cmd,
{
    is_complex_blend(cmd) || match cmd {
        Command::Blend(sub, _) => contains_complex_blend(sub.commands@),
        Command::RenderAlphaMask { maskee_commands, mask_commands } => {
            contains_complex_blend(maskee_commands.commands@) || contains_complex_blend(
                mask_commands.commands@,
            )
        },
        _ => false,
    }
}

} // verus!
