//! Render target abstraction.
//!
//! This module provides the [`RenderTarget`] trait and implementations for
//! both surface-based rendering ([`SwapChainTarget`]) and texture-based
//! rendering ([`TextureTarget`]).
use crate::geometry::Size;
use vstd::prelude::*;

verus! {

/// A texture format. Formats that the renderer does not single out are told apart
/// by a number.
#[derive(Clone, Copy, PartialEq, Eq, Structural, Debug)]
pub enum TextureFormat {
    Rgba8Unorm,
    Bgra8Unorm,
    Depth24PlusStencil8,
    Other(u32),
}

/// What a texture is used for.
#[derive(Clone, Copy, PartialEq, Eq, Structural, Debug)]
pub struct TextureUsages {
    pub render_attachment: bool,
    pub texture_binding: bool,
    pub copy_src: bool,
    pub copy_dst: bool,
}

/// A two-dimensional texture to be created, with one layer and one mip level.
#[derive(Clone, Copy, PartialEq, Eq, Structural, Debug)]
pub struct TextureDescriptor {
    pub size: Size,
    pub sample_count: u32,
    pub format: TextureFormat,
    pub usage: TextureUsages,
}

/// A render target that can be rendered to.
///
/// This trait abstracts over both window surfaces ([`SwapChainTarget`]) and
/// off-screen textures ([`TextureTarget`]), so that either can be rendered to.
pub trait RenderTarget {
    /// The size of this target.
    spec fn spec_size(&self) -> Size;

    /// The texture format of this target.
    spec fn spec_format(&self) -> TextureFormat;

    /// Whether this target can have a size.
    spec fn allows(&self, size: Size) -> bool;

    /// Whether this target can have a size.
    fn can_resize(&self, width: u32, height: u32) -> (r: bool)
        ensures
            r == self.allows(Size { width, height }),
    ;

    /// Resize this render target to the given dimensions.
    fn resize(&mut self, width: u32, height: u32)
        requires
            old(self).allows(Size { width, height }),
        ensures
            final(self).spec_size() == (Size { width, height }),
            final(self).spec_format() == old(self).spec_format(),
            forall|size: Size| #[trigger] final(self).allows(size) == old(self).allows(size),
    ;

    /// Get the texture format of this target.
    fn format(&self) -> (r: TextureFormat)
        ensures
            r == self.spec_format(),
    ;

    /// Get the width of this target.
    fn width(&self) -> (r: u32)
        ensures
            r == self.spec_size().width,
    ;

    /// Get the height of this target.
    fn height(&self) -> (r: u32)
        ensures
            r == self.spec_size().height,
    ;
}

/// A render target that renders to a window surface.
#[derive(Clone, Copy, PartialEq, Eq, Structural, Debug)]
pub struct SwapChainTarget {
    pub format: TextureFormat,
    pub width: u32,
    pub height: u32,
}

/// In which order and when frames are presented.
#[derive(Clone, Copy, PartialEq, Eq, Structural, Debug)]
pub enum PresentMode {
    /// First in, first out, each at a refresh of the screen.
    Fifo,
    /// Without waiting for a refresh of the screen.
    Immediate,
}

/// How a window surface is configured.
#[derive(Debug)]
pub struct SurfaceConfiguration {
    pub usage: TextureUsages,
    pub format: TextureFormat,
    pub width: u32,
    pub height: u32,
    pub present_mode: PresentMode,
    pub desired_maximum_frame_latency: u32,
    /// The position of the alpha mode among those that the surface supports.
    pub alpha_mode: usize,
    pub view_formats: Vec<TextureFormat>,
}

/// Whether a surface format is preferred.
pub open spec fn is_preferred(format: TextureFormat) -> bool {
    format is Rgba8Unorm || format is Bgra8Unorm
}

/// The first preferred of the formats from a position on.
pub open spec fn first_preferred(formats: Seq<TextureFormat>, from: int) -> Option<TextureFormat>
    decreases formats.len() - from,
{
    if from >= formats.len() {
        None
    } else if is_preferred(formats[from]) {
        Some(formats[from])
    } else {
        first_preferred(formats, from + 1)
    }
}

/// The format that a surface is configured with: the first preferred one that it
/// supports, or the first one, or eight bits per channel.
pub open spec fn surface_format(formats: Seq<TextureFormat>) -> TextureFormat {
    match first_preferred(formats, 0) {
        Some(format) => format,
        None => if formats.len() > 0 {
            formats[0]
        } else {
            TextureFormat::Rgba8Unorm
        },
    }
}

impl SwapChainTarget {
    /// Create a new target for a surface that supports the given formats.
    pub fn new(formats: &Vec<TextureFormat>, width: u32, height: u32) -> (r: SwapChainTarget)
        ensures
            r == (SwapChainTarget { format: surface_format(formats@), width, height }),
    {
        let mut i: usize = 0;
        while i < formats.len()
            invariant
                i <= formats@.len(),
                first_preferred(formats@, 0) == first_preferred(formats@, i as int),
            decreases formats.len() - i,
        {
            let format = formats[i];
            if matches!(format, TextureFormat::Rgba8Unorm | TextureFormat::Bgra8Unorm) {
                return SwapChainTarget { format, width, height };
            }
            i += 1;
        }
        let format = if formats.len() > 0 {
            formats[0]
        } else {
            TextureFormat::Rgba8Unorm
        };
        SwapChainTarget { format, width, height }
    }

    /// How the surface of this target is configured: it is only drawn to, frames are
    /// presented in order with at most two waiting, and the first alpha mode is taken.
    pub fn surface_configuration(&self) -> (r: SurfaceConfiguration)
        ensures
            r.usage == (TextureUsages {
                render_attachment: true,
                texture_binding: false,
                copy_src: false,
                copy_dst: false,
            }),
            r.format == self.format,
            r.width == self.width,
            r.height == self.height,
            r.present_mode == PresentMode::Fifo,
            r.desired_maximum_frame_latency == 2,
            r.alpha_mode == 0,
            r.view_formats@ == seq![self.format],
    {
        let view_formats = vec![self.format];
        assert(view_formats@ == seq![self.format]);
        SurfaceConfiguration {
            usage: TextureUsages {
                render_attachment: true,
                texture_binding: false,
                copy_src: false,
                copy_dst: false,
            },
            format: self.format,
            width: self.width,
            height: self.height,
            present_mode: PresentMode::Fifo,
            desired_maximum_frame_latency: 2,
            alpha_mode: 0,
            view_formats,
        }
    }
}

impl RenderTarget for SwapChainTarget {
    open spec fn spec_size(&self) -> Size {
        Size { width: self.width, height: self.height }
    }

    open spec fn spec_format(&self) -> TextureFormat {
        self.format
    }

    open spec fn allows(&self, size: Size) -> bool {
        true
    }

    fn can_resize(&self, width: u32, height: u32) -> (r: bool) {
        true
    }

    fn resize(&mut self, width: u32, height: u32) {
        self.width = width;
        self.height = height;
    }

    fn format(&self) -> (r: TextureFormat) {
        self.format
    }

    fn width(&self) -> (r: u32) {
        self.width
    }

    fn height(&self) -> (r: u32) {
        self.height
    }
}

/// A render target that renders to an off-screen texture.
#[derive(Clone, Copy, PartialEq, Eq, Structural, Debug)]
pub struct TextureTarget {
    pub size: Size,
    pub format: TextureFormat,
    /// The largest width and height that the device supports.
    pub max_dimension: u32,
}

/// A decimal digit.
pub open spec fn digit(d: int) -> char {
    if d == 0 {
        '0'
    } else if d == 1 {
        '1'
    } else if d == 2 {
        '2'
    } else if d == 3 {
        '3'
    } else if d == 4 {
        '4'
    } else if d == 5 {
        '5'
    } else if d == 6 {
        '6'
    } else if d == 7 {
        '7'
    } else if d == 8 {
        '8'
    } else {
        '9'
    }
}

/// A number in decimal.
pub open spec fn decimal(n: nat) -> Seq<char>
    decreases n,
{
    if n < 10 {
        seq![digit(n as int)]
    } else {
        decimal(n / 10).push(digit((n % 10) as int))
    }
}

/// A decimal digit.
fn digit_str(d: u32) -> (r: &'static str)
    requires
        d < 10,
    ensures
        r@ == seq![digit(d as int)],
{
    proof {
        reveal_strlit("0");
        reveal_strlit("1");
        reveal_strlit("2");
        reveal_strlit("3");
        reveal_strlit("4");
        reveal_strlit("5");
        reveal_strlit("6");
        reveal_strlit("7");
        reveal_strlit("8");
        reveal_strlit("9");
    }
    match d {
        0 => "0",
        1 => "1",
        2 => "2",
        3 => "3",
        4 => "4",
        5 => "5",
        6 => "6",
        7 => "7",
        8 => "8",
        _ => "9",
    }
}

/// Appends a number in decimal.
fn push_decimal(s: String, n: u32) -> (r: String)
    ensures
        r@ == s@ + decimal(n as nat),
    decreases n,
{
    if n < 10 {
        s.concat(digit_str(n))
    } else {
        let prefix = push_decimal(s, n / 10);
        prefix.concat(digit_str(n % 10))
    }
}

/// What is said of a size that a texture target cannot have.
pub open spec fn size_error(max_dimension: u32, size: Size) -> Seq<char> {
    "Texture target cannot be smaller than 1 or larger than "@ + decimal(max_dimension as nat)
        + "px on either dimension (requested "@ + decimal(size.width as nat) + " x "@ + decimal(
        size.height as nat,
    ) + ")"@
}

/// Whether a texture target can have a size.
pub open spec fn size_allowed(max_dimension: u32, size: Size) -> bool {
    1 <= size.width <= max_dimension && 1 <= size.height <= max_dimension
}

impl TextureTarget {
    /// Create a new TextureTarget with the given dimensions, on a device that
    /// supports textures up to `max_dimension` wide and high.
    pub fn new(max_dimension: u32, size: Size) -> (r: Result<TextureTarget, String>)
        ensures
            match r {
                Ok(target) => size_allowed(max_dimension, size) && target == (TextureTarget {
                    size,
                    format: TextureFormat::Rgba8Unorm,
                    max_dimension,
                }),
                Err(message) => !size_allowed(max_dimension, size) && message@ == size_error(
                    max_dimension,
                    size,
                ),
            },
    {
        if size.width > max_dimension || size.height > max_dimension || size.width < 1
            || size.height < 1 {
            let message = String::from_str(
                "Texture target cannot be smaller than 1 or larger than ",
            );
            let message = push_decimal(message, max_dimension);
            let message = message.concat("px on either dimension (requested ");
            let message = push_decimal(message, size.width);
            let message = message.concat(" x ");
            let message = push_decimal(message, size.height);
            return Err(message.concat(")"));
        }
        Ok(TextureTarget { size, format: TextureFormat::Rgba8Unorm, max_dimension })
    }

    /// The texture of this target.
    pub fn texture_descriptor(&self) -> (r: TextureDescriptor)
        ensures
            crate::backend::is_used_for(r, true, true, true, false),
            r == (TextureDescriptor {
                size: self.size,
                sample_count: 1,
                format: self.format,
                usage: TextureUsages {
                    render_attachment: true,
                    texture_binding: true,
                    copy_src: true,
                    copy_dst: false,
                },
            }),
    {
        TextureDescriptor {
            size: self.size,
            sample_count: 1,
            format: self.format,
            usage: TextureUsages {
                render_attachment: true,
                texture_binding: true,
                copy_src: true,
                copy_dst: false,
            },
        }
    }
}

impl RenderTarget for TextureTarget {
    open spec fn spec_size(&self) -> Size {
        self.size
    }

    open spec fn spec_format(&self) -> TextureFormat {
        self.format
    }

    open spec fn allows(&self, size: Size) -> bool {
        size_allowed(self.max_dimension, size)
    }

    fn can_resize(&self, width: u32, height: u32) -> (r: bool) {
        1 <= width && width <= self.max_dimension && 1 <= height && height <= self.max_dimension
    }

    fn resize(&mut self, width: u32, height: u32) {
        self.size = Size { width, height };
    }

    fn format(&self) -> (r: TextureFormat) {
        self.format
    }

    fn width(&self) -> (r: u32) {
        self.size.width
    }

    fn height(&self) -> (r: u32) {
        self.size.height
    }
}

/// The chosen surface format is one that the surface supports, if it supports any.
pub proof fn surface_format_is_supported(formats: Seq<TextureFormat>)
    requires
        formats.len() > 0,
    ensures
        formats.contains(surface_format(formats)),
{
    lemma_first_preferred(formats, 0);
    if first_preferred(formats, 0) is None {
        assert(formats[0] == surface_format(formats));
    }
}

/// Whenever a preferred format is supported, a preferred format is chosen.
pub proof fn preferred_format_is_chosen(formats: Seq<TextureFormat>, i: int)
    requires
        0 <= i < formats.len(),
        is_preferred(formats[i]),
    ensures
        is_preferred(surface_format(formats)),
{
    lemma_first_preferred(formats, 0);
}

proof fn lemma_first_preferred(formats: Seq<TextureFormat>, from: int)
    requires
        0 <= from,
    ensures
        match first_preferred(formats, from) {
            Some(format) => formats.contains(format) && is_preferred(format),
            None => forall|i: int|
                from <= i < formats.len() ==> !is_preferred(#[trigger] formats[i]),
        },
    decreases formats.len() - from,
{
    if from < formats.len() && !is_preferred(formats[from]) {
        lemma_first_preferred(formats, from + 1);
    }
}

/// The format of a surface is the first of those it supports that has eight bits for each channel,
/// red or blue first; or else the first of all; or else red first.
pub proof fn surface_format_is_the_first_that_fits(formats: Seq<TextureFormat>, i: int)
    ensures
        ({
            let fits = |f: TextureFormat|
                f == TextureFormat::Rgba8Unorm || f == TextureFormat::Bgra8Unorm;
            &&& 0 <= i < formats.len() && fits(formats[i]) && (forall|j: int|
                0 <= j < i ==> !fits(#[trigger] formats[j])) ==> surface_format(formats)
                == formats[i]
            &&& formats.len() > 0 && (forall|j: int|
                0 <= j < formats.len() ==> !fits(#[trigger] formats[j])) ==> surface_format(formats)
                == formats[0]
            &&& formats.len() == 0 ==> surface_format(formats) == TextureFormat::Rgba8Unorm
        }),
{
    lemma_first_preferred(formats, 0);
    if 0 <= i < formats.len() && is_preferred(formats[i]) && (forall|j: int|
        0 <= j < i ==> !is_preferred(#[trigger] formats[j])) {
        lemma_first_is(formats, 0, i);
    }
    assert forall|j: int| 0 <= j < i && j < formats.len() implies is_preferred(#[trigger] formats[j])
        == (formats[j] == TextureFormat::Rgba8Unorm || formats[j]
        == TextureFormat::Bgra8Unorm) by {
    }
}

proof fn lemma_first_is(formats: Seq<TextureFormat>, from: int, i: int)
    requires
        0 <= from <= i < formats.len(),
        is_preferred(formats[i]),
        forall|j: int| from <= j < i ==> !is_preferred(#[trigger] formats[j]),
    ensures
        first_preferred(formats, from) == Some(formats[i]),
    decreases i - from,
{
    if from < i {
        assert(!is_preferred(formats[from]));
        lemma_first_is(formats, from + 1, i);
    }
}

/// The number that a decimal digit stands for.
pub open spec fn digit_value(c: char) -> int {
    c as int - '0' as int
}

/// The number that decimal digits stand for.
pub open spec fn decimal_value(digits: Seq<char>) -> int
    decreases digits.len(),
{
    if digits.len() == 0 {
        0
    } else {
        10 * decimal_value(digits.drop_last()) + digit_value(digits.last())
    }
}

/// A number that is written in decimal reads as itself, without leading zeros.
pub proof fn decimals_read_as_themselves(n: nat)
    ensures
        decimal_value(decimal(n)) == n,
        decimal(n).len() > 0,
        n > 0 ==> decimal(n)[0] != '0',
        forall|i: int|
            0 <= i < decimal(n).len() ==> '0' as int <= #[trigger] decimal(n)[i] as int <= '9' as int,
    decreases n,
{
    if n >= 10 {
        decimals_read_as_themselves(n / 10);
        assert(decimal(n).drop_last() == decimal(n / 10));
        assert(decimal(n)[0] == decimal(n / 10)[0]);
    } else {
        assert(decimal(n).drop_last() == Seq::<char>::empty());
        reveal_with_fuel(decimal_value, 2);
    }
}

/// A texture target has at least one pixel each way and at most as many as the device allows, and
/// no other limit.
pub proof fn texture_targets_have_any_size_that_fits(max_dimension: u32, size: Size)
    ensures
        size_allowed(max_dimension, size) <==> size.width > 0 && size.height > 0 && size.width
            <= max_dimension && size.height <= max_dimension,
{
}

} // verus!
