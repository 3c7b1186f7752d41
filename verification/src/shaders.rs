//! Shaders: their names, and how their sources are put together.
//!
//! All shaders have `common.wgsl` prepended before compilation, but for the blend
//! shaders, which are standalone.
use crate::blend::ComplexBlend;
use vstd::prelude::*;

verus! {

/// A shader of the renderer.
#[derive(Clone, Copy, PartialEq, Eq, Structural, Debug)]
pub enum Shader {
    /// Loop-Blinn quadratic Bézier fill with per-vertex color.
    BezierFill,
    /// Loop-Blinn fill with gradient texture lookup.
    BezierGradient,
    /// Loop-Blinn fill with bitmap texture lookup.
    BezierBitmap,
    /// Bitmap rendering for RenderBitmap commands (simpler bind group).
    RenderBitmap,
    /// Simple copy/blit shader for final presentation.
    Copy,
    /// Complex blend mode shaders.
    Blend(ComplexBlend),
}

/// The name of a shader's source file.
pub open spec fn shader_name(shader: Shader) -> Seq<char> {
    match shader {
        Shader::BezierFill => "bezier_fill.wgsl"@,
        Shader::BezierGradient => "bezier_gradient.wgsl"@,
        Shader::BezierBitmap => "bezier_bitmap.wgsl"@,
        Shader::RenderBitmap => "render_bitmap.wgsl"@,
        Shader::Copy => "copy.wgsl"@,
        Shader::Blend(ComplexBlend::Multiply) => "blend/multiply.wgsl"@,
        Shader::Blend(ComplexBlend::Lighten) => "blend/lighten.wgsl"@,
        Shader::Blend(ComplexBlend::Darken) => "blend/darken.wgsl"@,
        Shader::Blend(ComplexBlend::Difference) => "blend/difference.wgsl"@,
        Shader::Blend(ComplexBlend::Invert) => "blend/invert.wgsl"@,
        Shader::Blend(ComplexBlend::Alpha) => "blend/alpha.wgsl"@,
        Shader::Blend(ComplexBlend::Erase) => "blend/erase.wgsl"@,
        Shader::Blend(ComplexBlend::Overlay) => "blend/overlay.wgsl"@,
        Shader::Blend(ComplexBlend::HardLight) => "blend/hardlight.wgsl"@,
    }
}

/// Whether a shader has the common source prepended. The blend shaders draw a
/// full-screen triangle that they make up themselves, and are standalone.
pub open spec fn has_common_source(shader: Shader) -> bool {
    !(shader is Blend)
}

impl Shader {
    /// The name of this shader's source file.
    pub fn name(&self) -> (r: &'static str)
        ensures
            r@ == shader_name(*self),
    {
        match self {
            Shader::BezierFill => "bezier_fill.wgsl",
            Shader::BezierGradient => "bezier_gradient.wgsl",
            Shader::BezierBitmap => "bezier_bitmap.wgsl",
            Shader::RenderBitmap => "render_bitmap.wgsl",
            Shader::Copy => "copy.wgsl",
            Shader::Blend(ComplexBlend::Multiply) => "blend/multiply.wgsl",
            Shader::Blend(ComplexBlend::Lighten) => "blend/lighten.wgsl",
            Shader::Blend(ComplexBlend::Darken) => "blend/darken.wgsl",
            Shader::Blend(ComplexBlend::Difference) => "blend/difference.wgsl",
            Shader::Blend(ComplexBlend::Invert) => "blend/invert.wgsl",
            Shader::Blend(ComplexBlend::Alpha) => "blend/alpha.wgsl",
            Shader::Blend(ComplexBlend::Erase) => "blend/erase.wgsl",
            Shader::Blend(ComplexBlend::Overlay) => "blend/overlay.wgsl",
            Shader::Blend(ComplexBlend::HardLight) => "blend/hardlight.wgsl",
        }
    }

    /// The complete source of this shader, from the common source and its own.
    pub fn full_source(&self, common: &str, source: &str) -> (r: String)
        ensures
            r@ == if has_common_source(*self) {
                common@ + source@
            } else {
                source@
            },
    {
        match self {
            Shader::Blend(_) => String::from_str(source),
            _ => String::from_str(common).concat(source),
        }
    }
}

/// Every shader has a file of its own: the five by their names, and one for each complex blend by
/// the name of the blend.
pub proof fn shaders_have_files_of_their_own()
    ensures
        shader_name(Shader::BezierFill) == "bezier_fill.wgsl"@,
        shader_name(Shader::BezierGradient) == "bezier_gradient.wgsl"@,
        shader_name(Shader::BezierBitmap) == "bezier_bitmap.wgsl"@,
        shader_name(Shader::RenderBitmap) == "render_bitmap.wgsl"@,
        shader_name(Shader::Copy) == "copy.wgsl"@,
        shader_name(Shader::Blend(ComplexBlend::Multiply)) == "blend/multiply.wgsl"@,
        shader_name(Shader::Blend(ComplexBlend::Lighten)) == "blend/lighten.wgsl"@,
        shader_name(Shader::Blend(ComplexBlend::Darken)) == "blend/darken.wgsl"@,
        shader_name(Shader::Blend(ComplexBlend::Difference)) == "blend/difference.wgsl"@,
        shader_name(Shader::Blend(ComplexBlend::Invert)) == "blend/invert.wgsl"@,
        shader_name(Shader::Blend(ComplexBlend::Alpha)) == "blend/alpha.wgsl"@,
        shader_name(Shader::Blend(ComplexBlend::Erase)) == "blend/erase.wgsl"@,
        shader_name(Shader::Blend(ComplexBlend::Overlay)) == "blend/overlay.wgsl"@,
        shader_name(Shader::Blend(ComplexBlend::HardLight)) == "blend/hardlight.wgsl"@,
        forall|b: ComplexBlend| !#[trigger] has_common_source(Shader::Blend(b)),
        has_common_source(Shader::BezierFill) && has_common_source(Shader::BezierGradient)
            && has_common_source(Shader::BezierBitmap) && has_common_source(Shader::RenderBitmap)
            && has_common_source(Shader::Copy),
{
}

} // verus!
