//! Blend mode classification and GPU blend state definitions.
//!
//! Blend modes are split into two tiers:
//! - **Trivial**: Can be expressed with hardware blend states (Normal, Add, Subtract, Screen).
//! - **Complex**: Require a shader pass compositing two textures (Multiply, Lighten, Darken, etc.).
use vstd::prelude::*;

verus! {

/// The blend modes that display objects can ask for.
#[derive(Clone, Copy, PartialEq, Eq, Structural, Debug)]
pub enum BlendMode {
    Normal,
    Layer,
    Multiply,
    Screen,
    Lighten,
    Darken,
    Difference,
    Add,
    Subtract,
    Invert,
    Alpha,
    Erase,
    Overlay,
    HardLight,
}

/// A blend mode as it appears in a command list.
#[derive(Clone, Copy, PartialEq, Eq, Structural, Debug)]
pub enum RenderBlendMode {
    /// One of the built-in modes.
    Builtin(BlendMode),
    /// A custom PixelBender shader.
    Shader,
}

/// Complex blend modes that require shader-based compositing.
#[derive(Clone, Copy, PartialEq, Eq, Structural, Debug)]
pub enum ComplexBlend {
    Multiply,
    Lighten,
    Darken,
    Difference,
    Invert,
    Alpha,
    Erase,
    Overlay,
    HardLight,
}

/// Trivial blend modes expressible via hardware blend state.
#[derive(Clone, Copy, PartialEq, Eq, Structural, Debug)]
pub enum TrivialBlend {
    Normal,
    Add,
    Subtract,
    Screen,
}

/// Classification of a blend mode into trivial or complex.
#[derive(Clone, Copy, PartialEq, Eq, Structural, Debug)]
pub enum BlendType {
    /// Can be expressed with just a hardware blend state.
    Trivial(TrivialBlend),
    /// Requires a shader to composite two textures.
    Complex(ComplexBlend),
}

/// The tier and variant that a blend mode belongs to.
pub open spec fn classify(mode: RenderBlendMode) -> BlendType {
    match mode {
        RenderBlendMode::Shader => BlendType::Trivial(TrivialBlend::Normal),
        RenderBlendMode::Builtin(builtin) => match builtin {
            BlendMode::Normal | BlendMode::Layer => BlendType::Trivial(TrivialBlend::Normal),
            BlendMode::Add => BlendType::Trivial(TrivialBlend::Add),
            BlendMode::Subtract => BlendType::Trivial(TrivialBlend::Subtract),
            BlendMode::Screen => BlendType::Trivial(TrivialBlend::Screen),
            BlendMode::Multiply => BlendType::Complex(ComplexBlend::Multiply),
            BlendMode::Lighten => BlendType::Complex(ComplexBlend::Lighten),
            BlendMode::Darken => BlendType::Complex(ComplexBlend::Darken),
            BlendMode::Difference => BlendType::Complex(ComplexBlend::Difference),
            BlendMode::Invert => BlendType::Complex(ComplexBlend::Invert),
            BlendMode::Alpha => BlendType::Complex(ComplexBlend::Alpha),
            BlendMode::Erase => BlendType::Complex(ComplexBlend::Erase),
            BlendMode::Overlay => BlendType::Complex(ComplexBlend::Overlay),
            BlendMode::HardLight => BlendType::Complex(ComplexBlend::HardLight),
        },
    }
}

impl BlendType {
    /// Classifies a blend mode. PixelBender shader blends are not supported and
    /// fall back to Normal.
    pub fn from(mode: RenderBlendMode) -> (r: BlendType)
        ensures
            r == classify(mode),
    {
        match mode {
            RenderBlendMode::Builtin(BlendMode::Normal) => BlendType::Trivial(TrivialBlend::Normal),
            RenderBlendMode::Builtin(BlendMode::Layer) => BlendType::Trivial(TrivialBlend::Normal),
            RenderBlendMode::Builtin(BlendMode::Multiply) => {
                BlendType::Complex(ComplexBlend::Multiply)
            },
            RenderBlendMode::Builtin(BlendMode::Screen) => BlendType::Trivial(TrivialBlend::Screen),
            RenderBlendMode::Builtin(BlendMode::Lighten) => {
                BlendType::Complex(ComplexBlend::Lighten)
            },
            RenderBlendMode::Builtin(BlendMode::Darken) => BlendType::Complex(ComplexBlend::Darken),
            RenderBlendMode::Builtin(BlendMode::Difference) => {
                BlendType::Complex(ComplexBlend::Difference)
            },
            RenderBlendMode::Builtin(BlendMode::Add) => BlendType::Trivial(TrivialBlend::Add),
            RenderBlendMode::Builtin(BlendMode::Subtract) => {
                BlendType::Trivial(TrivialBlend::Subtract)
            },
            RenderBlendMode::Builtin(BlendMode::Invert) => BlendType::Complex(ComplexBlend::Invert),
            RenderBlendMode::Builtin(BlendMode::Alpha) => BlendType::Complex(ComplexBlend::Alpha),
            RenderBlendMode::Builtin(BlendMode::Erase) => BlendType::Complex(ComplexBlend::Erase),
            RenderBlendMode::Builtin(BlendMode::Overlay) => {
                BlendType::Complex(ComplexBlend::Overlay)
            },
            RenderBlendMode::Builtin(BlendMode::HardLight) => {
                BlendType::Complex(ComplexBlend::HardLight)
            },
            RenderBlendMode::Shader => BlendType::Trivial(TrivialBlend::Normal),
        }
    }

    /// Whether compositing this blend needs a shader pass.
    pub fn is_complex(&self) -> (r: bool)
        ensures
            r == (self is Complex),
    {
        match self {
            BlendType::Trivial(_) => false,
            BlendType::Complex(_) => true,
        }
    }
}

/// What a color or alpha value is multiplied with before it is blended.
#[derive(Clone, Copy, PartialEq, Eq, Structural, Debug)]
pub enum BlendFactor {
    One,
    OneMinusSrc,
    OneMinusSrcAlpha,
}

/// How the two scaled values are combined.
#[derive(Clone, Copy, PartialEq, Eq, Structural, Debug)]
pub enum BlendOperation {
    /// Source plus destination.
    Add,
    /// Destination minus source.
    ReverseSubtract,
}

/// The blend equation for color or for alpha.
#[derive(Clone, Copy, PartialEq, Eq, Structural, Debug)]
pub struct BlendComponent {
    pub src_factor: BlendFactor,
    pub dst_factor: BlendFactor,
    pub operation: BlendOperation,
}

/// A complete hardware blend state.
#[derive(Clone, Copy, PartialEq, Eq, Structural, Debug)]
pub struct BlendState {
    pub color: BlendComponent,
    pub alpha: BlendComponent,
}

/// Premultiplied source-over.
pub open spec fn over() -> BlendComponent {
    BlendComponent {
        src_factor: BlendFactor::One,
        dst_factor: BlendFactor::OneMinusSrcAlpha,
        operation: BlendOperation::Add,
    }
}

/// The color equation of each trivial blend mode.
pub open spec fn color_equation(blend: TrivialBlend) -> BlendComponent {
    match blend {
        TrivialBlend::Normal => over(),
        TrivialBlend::Add => BlendComponent {
            src_factor: BlendFactor::One,
            dst_factor: BlendFactor::One,
            operation: BlendOperation::Add,
        },
        TrivialBlend::Screen => BlendComponent {
            src_factor: BlendFactor::One,
            dst_factor: BlendFactor::OneMinusSrc,
            operation: BlendOperation::Add,
        },
        TrivialBlend::Subtract => BlendComponent {
            src_factor: BlendFactor::One,
            dst_factor: BlendFactor::One,
            operation: BlendOperation::ReverseSubtract,
        },
    }
}

impl BlendComponent {
    /// One channel of the blend equation, with 0 and 255 for nothing and all of
    /// it, and every product scaled by 255 so that it stays exact.
    pub open spec fn eval(self, src: int, src_alpha: int, dst: int) -> int {
        let s = match self.src_factor {
            BlendFactor::One => 255 * src,
            BlendFactor::OneMinusSrc => (255 - src) * src,
            BlendFactor::OneMinusSrcAlpha => (255 - src_alpha) * src,
        };
        let d = match self.dst_factor {
            BlendFactor::One => 255 * dst,
            BlendFactor::OneMinusSrc => (255 - src) * dst,
            BlendFactor::OneMinusSrcAlpha => (255 - src_alpha) * dst,
        };
        match self.operation {
            BlendOperation::Add => s + d,
            BlendOperation::ReverseSubtract => d - s,
        }
    }
}

impl TrivialBlend {
    /// The hardware blend state for this trivial blend mode. Alpha is always
    /// composited source-over.
    pub fn blend_state(self) -> (r: BlendState)
        ensures
            r == (BlendState { color: color_equation(self), alpha: over() }),
    {
        let alpha = BlendComponent {
            src_factor: BlendFactor::One,
            dst_factor: BlendFactor::OneMinusSrcAlpha,
            operation: BlendOperation::Add,
        };
        let color = match self {
            TrivialBlend::Normal => alpha,
            TrivialBlend::Add => BlendComponent {
                src_factor: BlendFactor::One,
                dst_factor: BlendFactor::One,
                operation: BlendOperation::Add,
            },
            TrivialBlend::Screen => BlendComponent {
                src_factor: BlendFactor::One,
                dst_factor: BlendFactor::OneMinusSrc,
                operation: BlendOperation::Add,
            },
            TrivialBlend::Subtract => BlendComponent {
                src_factor: BlendFactor::One,
                dst_factor: BlendFactor::One,
                operation: BlendOperation::ReverseSubtract,
            },
        };
        BlendState { color, alpha }
    }
}

/// Every complex blend is asked for by exactly one mode: classification loses
/// nothing of the modes that have a shader of their own.
pub proof fn complex_blends_are_injective(a: RenderBlendMode, b: RenderBlendMode)
    requires
        classify(a) is Complex,
        classify(a) == classify(b),
    ensures
        a == b,
{
}

/// Screen leaves a black destination channel showing the source and a white one
/// white, whatever the source is.
pub proof fn screen_keeps_white(src: int, src_alpha: int)
    requires
        0 <= src <= 255,
    ensures
        color_equation(TrivialBlend::Screen).eval(src, src_alpha, 255) == 255 * 255,
        color_equation(TrivialBlend::Screen).eval(src, src_alpha, 0) == 255 * src,
{
    assert((255 - src) * 255 == 255 * 255 - 255 * src) by (nonlinear_arith);
}

/// A fully transparent premultiplied source leaves the destination unchanged
/// under every trivial blend.
pub proof fn transparent_source_changes_nothing(blend: TrivialBlend, dst: int)
    ensures
        color_equation(blend).eval(0, 0, dst) == 255 * dst,
        over().eval(0, 0, dst) == 255 * dst,
{
}

/// Every blend mode is composited as its name says. Normal, a layer and a custom shader are
/// drawn over what is there; Add, Subtract and Screen have a hardware blend of their own;
/// and each other mode has a shader of its own name.
pub proof fn modes_are_composited_by_name(mode: RenderBlendMode)
    ensures
        ({
            let t = classify(mode);
            let normal = BlendType::Trivial(TrivialBlend::Normal);
            &&& t == normal <==> mode is Shader || mode == RenderBlendMode::Builtin(
                BlendMode::Normal,
            ) || mode == RenderBlendMode::Builtin(BlendMode::Layer)
            &&& t == BlendType::Trivial(TrivialBlend::Add) <==> mode == RenderBlendMode::Builtin(
                BlendMode::Add,
            )
            &&& t == BlendType::Trivial(TrivialBlend::Subtract) <==> mode
                == RenderBlendMode::Builtin(BlendMode::Subtract)
            &&& t == BlendType::Trivial(TrivialBlend::Screen) <==> mode
                == RenderBlendMode::Builtin(BlendMode::Screen)
            &&& t == BlendType::Complex(ComplexBlend::Multiply) <==> mode
                == RenderBlendMode::Builtin(BlendMode::Multiply)
            &&& t == BlendType::Complex(ComplexBlend::Lighten) <==> mode
                == RenderBlendMode::Builtin(BlendMode::Lighten)
            &&& t == BlendType::Complex(ComplexBlend::Darken) <==> mode
                == RenderBlendMode::Builtin(BlendMode::Darken)
            &&& t == BlendType::Complex(ComplexBlend::Difference) <==> mode
                == RenderBlendMode::Builtin(BlendMode::Difference)
            &&& t == BlendType::Complex(ComplexBlend::Invert) <==> mode
                == RenderBlendMode::Builtin(BlendMode::Invert)
            &&& t == BlendType::Complex(ComplexBlend::Alpha) <==> mode
                == RenderBlendMode::Builtin(BlendMode::Alpha)
            &&& t == BlendType::Complex(ComplexBlend::Erase) <==> mode
                == RenderBlendMode::Builtin(BlendMode::Erase)
            &&& t == BlendType::Complex(ComplexBlend::Overlay) <==> mode
                == RenderBlendMode::Builtin(BlendMode::Overlay)
            &&& t == BlendType::Complex(ComplexBlend::HardLight) <==> mode
                == RenderBlendMode::Builtin(BlendMode::HardLight)
        }),
{
}

/// What the hardware blends compute, of a premultiplied source and a destination channel
/// between 0 and 255, times 255: Normal covers the destination as far as the source is
/// opaque, Add adds the source, Subtract takes it away, and Screen adds what the source
/// leaves of the destination. Alpha is covered as by Normal.
pub proof fn hardware_blends_compute(src: int, src_alpha: int, dst: int)
    ensures
        color_equation(TrivialBlend::Normal).eval(src, src_alpha, dst) == 255 * src + (255
            - src_alpha) * dst,
        color_equation(TrivialBlend::Add).eval(src, src_alpha, dst) == 255 * (src + dst),
        color_equation(TrivialBlend::Subtract).eval(src, src_alpha, dst) == 255 * (dst - src),
        color_equation(TrivialBlend::Screen).eval(src, src_alpha, dst) == 255 * (src + dst) - src
            * dst,
        over().eval(src, src_alpha, dst) == 255 * src + (255 - src_alpha) * dst,
{
    assert((255 - src) * dst == 255 * dst - src * dst) by (nonlinear_arith);
}

} // verus!
