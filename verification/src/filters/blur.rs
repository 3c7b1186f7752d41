//! Blur filter: a box blur along each axis in turn, repeated.
use crate::filters::{FilterBinding, FilterPipeline, FilterSampler};
use crate::geometry::{Ratio, Size};
use vstd::prelude::*;

verus! {

/// A blur filter: the box sizes along each axis, in 16.16 fixed point, and flags
/// that hold the number of passes in their upper five bits.
#[derive(Clone, Copy, PartialEq, Eq, Structural, Debug)]
pub struct BlurFilter {
    pub blur_x: i32,
    pub blur_y: i32,
    pub flags: u8,
}

/// What the blur shader needs to know of one pass.
///
/// The box covers the pixel itself, `m` whole pixels on each side, and a part of
/// one more pixel on each side.
#[derive(Clone, Copy, PartialEq, Eq, Structural, Debug)]
pub struct BlurUniform {
    /// From one texel to the next, along x and along y.
    pub direction_x: Ratio,
    pub direction_y: Ratio,
    pub full_size: Ratio,
    pub m: u32,
    pub m2: u32,
    pub first_weight: Ratio,
    pub last_offset: Ratio,
    pub last_weight: Ratio,
}

/// What a pass reads.
#[derive(Clone, Copy, PartialEq, Eq, Structural, Debug)]
pub enum BlurInput {
    /// The region of the texture that the filter is applied to.
    Source,
    /// One of the two textures that passes write in turn.
    Texture(usize),
}

/// One pass of a blur.
#[derive(Clone, Copy, PartialEq, Eq, Structural, Debug)]
pub struct BlurPass {
    pub input: BlurInput,
    /// Which of the two textures the pass writes.
    pub output: usize,
    pub horizontal: bool,
    pub uniform: BlurUniform,
}

/// The number of passes of a blur filter, from its flags:
/// `swf::BlurFilter::num_passes`, which gives the upper five bits as a number.
#[verifier::external_body]
fn swf_num_passes(flags: u8) -> (r: u8)
    ensures
        r == flags / 8,
{
    let filter = swf::BlurFilter {
        blur_x: swf::Fixed16::ZERO,
        blur_y: swf::Fixed16::ZERO,
        flags: swf::BlurFilterFlags::from_bits_retain(flags),
    };
    filter.num_passes()
}

/// The largest box size, in 16.16 fixed point.
pub const MAX_SIZE: i32 = 16711680;

/// The box size that is blurred with: at most 255 pixels.
pub open spec fn full_size(strength: i32) -> int {
    if strength < MAX_SIZE {
        strength as int
    } else {
        MAX_SIZE as int
    }
}

/// Whether there is anything to blur: a box of one pixel changes nothing.
pub open spec fn blurs(strength: i32) -> bool {
    full_size(strength) > 65536
}

/// How far the box reaches beyond the pixel itself, to both sides together.
pub open spec fn reach(strength: i32) -> int {
    full_size(strength) - 65536
}

/// The whole pixels on one side, short of the last one that is covered: a reach of
/// 131072 covers one whole pixel on each side.
pub open spec fn whole_pixels(strength: i32) -> int {
    (reach(strength) - 1) / 131072
}

/// How much of the last pixel on one side is covered, in 255ths, rounded down.
pub open spec fn coverage(strength: i32) -> int {
    255 * (reach(strength) - 131072 * whole_pixels(strength)) / 131072
}

/// What the shader needs to know of a pass over a texture of a given size.
pub open spec fn blur_uniform(strength: i32, horizontal: bool, input: Size) -> BlurUniform {
    let n = coverage(strength);
    BlurUniform {
        direction_x: if horizontal {
            Ratio { num: 1, den: input.width as i128 }
        } else {
            Ratio { num: 0, den: 1 }
        },
        direction_y: if horizontal {
            Ratio { num: 0, den: 1 }
        } else {
            Ratio { num: 1, den: input.height as i128 }
        },
        full_size: Ratio { num: full_size(strength) as i128, den: 65536 },
        m: whole_pixels(strength) as u32,
        m2: (2 * whole_pixels(strength)) as u32,
        first_weight: Ratio { num: n as i128, den: 255 },
        last_offset: Ratio { num: n as i128, den: (n + 255) as i128 },
        last_weight: Ratio { num: (n + 255) as i128, den: 255 },
    }
}

/// The axes that one round of a blur passes over: x, then y, as far as they blur.
pub open spec fn round_axes(filter: BlurFilter) -> Seq<bool> {
    (if blurs(filter.blur_x) {
        seq![true]
    } else {
        seq![]
    }) + (if blurs(filter.blur_y) {
        seq![false]
    } else {
        seq![]
    })
}

/// The axes that `n` rounds of a blur pass over; true stands for x.
pub open spec fn blur_axes(filter: BlurFilter, n: nat) -> Seq<bool>
    decreases n,
{
    if n == 0 {
        seq![]
    } else {
        blur_axes(filter, (n - 1) as nat) + round_axes(filter)
    }
}

/// The pass at a position: the first reads the source, each later one what the one
/// before it wrote.
pub open spec fn blur_pass(
    filter: BlurFilter,
    horizontal: bool,
    i: int,
    texture: Size,
    output: Size,
) -> BlurPass {
    let strength = if horizontal {
        filter.blur_x
    } else {
        filter.blur_y
    };
    BlurPass {
        input: if i == 0 {
            BlurInput::Source
        } else {
            BlurInput::Texture((i % 2) as usize)
        },
        output: ((i + 1) % 2) as usize,
        horizontal,
        uniform: blur_uniform(
            strength,
            horizontal,
            if i == 0 {
                texture
            } else {
                output
            },
        ),
    }
}

/// All passes of a blur, on a texture of a given size into textures of another.
pub open spec fn blur_passes(filter: BlurFilter, texture: Size, output: Size) -> Seq<BlurPass> {
    blur_axes(filter, (filter.flags / 8) as nat).map(
        |i: int, horizontal: bool| blur_pass(filter, horizontal, i, texture, output),
    )
}

/// What the shader needs to know of a pass.
fn make_uniform(strength: i32, horizontal: bool, input: Size) -> (r: BlurUniform)
    requires
        blurs(strength),
    ensures
        r == blur_uniform(strength, horizontal, input),
{
    let full: i32 = if strength < MAX_SIZE {
        strength
    } else {
        MAX_SIZE
    };
    let reach: i64 = full as i64 - 65536;
    let m: i64 = (reach - 1) / 131072;
    let n: i64 = 255 * (reach - 131072 * m) / 131072;
    BlurUniform {
        direction_x: if horizontal {
            Ratio { num: 1, den: input.width as i128 }
        } else {
            Ratio { num: 0, den: 1 }
        },
        direction_y: if horizontal {
            Ratio { num: 0, den: 1 }
        } else {
            Ratio { num: 1, den: input.height as i128 }
        },
        full_size: Ratio { num: full as i128, den: 65536 },
        m: m as u32,
        m2: (2 * m) as u32,
        first_weight: Ratio { num: n as i128, den: 255 },
        last_offset: Ratio { num: n as i128, den: n as i128 + 255 },
        last_weight: Ratio { num: n as i128 + 255, den: 255 },
    }
}

/// The bytes of the uniform block of a blur: eight numbers.
pub const BLUR_UNIFORM_SIZE: u64 = 32;

/// What the blur shader finds at its bindings: what to blur, a sampler and the
/// uniform block, which its vertices read as well.
pub open spec fn blur_bindings() -> Seq<FilterBinding> {
    seq![
        FilterBinding::Texture { filterable: true },
        FilterBinding::Sampler { filtering: true },
        FilterBinding::Uniform { min_size: BLUR_UNIFORM_SIZE, for_vertices: true },
    ]
}

impl BlurFilter {
    /// The pipeline that blurs.
    pub fn pipeline() -> (r: FilterPipeline)
        ensures
            r.bindings@ == blur_bindings(),
            r.vertex_pairs == 2,
    {
        let bindings = vec![
            FilterBinding::Texture { filterable: true },
            FilterBinding::Sampler { filtering: true },
            FilterBinding::Uniform { min_size: BLUR_UNIFORM_SIZE, for_vertices: true },
        ];
        assert(bindings@ == blur_bindings());
        FilterPipeline { bindings, vertex_pairs: 2 }
    }

    /// The sampler that each pass reads with.
    pub fn sampler() -> (r: FilterSampler)
        ensures
            r == FilterSampler::Linear,
    {
        FilterSampler::Linear
    }

    /// The passes of this filter; none if it changes nothing.
    pub fn apply(&self, texture: Size, output: Size) -> (r: Option<Vec<BlurPass>>)
        ensures
            match r {
                Some(passes) => passes@.len() > 0 && passes@ == blur_passes(*self, texture, output),
                None => blur_passes(*self, texture, output).len() == 0,
            },
    {
        let mut passes: Vec<BlurPass> = Vec::new();
        let rounds: u8 = swf_num_passes(self.flags);
        let mut round: u8 = 0;
        assert(passes@ == blur_axes(*self, 0).map(
            |i: int, h: bool| blur_pass(*self, h, i, texture, output),
        ));
        while round < rounds
            invariant
                round <= rounds <= 31,
                passes@.len() <= 2 * round,
                passes@ == blur_axes(*self, round as nat).map(
                    |i: int, h: bool| blur_pass(*self, h, i, texture, output),
                ),
            decreases rounds - round,
        {
            let ghost axes = blur_axes(*self, round as nat);
            if is_blurring(self.blur_x) {
                self.push_pass(true, texture, output, &mut passes);
            }
            if is_blurring(self.blur_y) {
                self.push_pass(false, texture, output, &mut passes);
            }
            assert(passes@ =~= blur_axes(*self, (round + 1) as nat).map(
                |i: int, h: bool| blur_pass(*self, h, i, texture, output),
            ));
            round += 1;
        }
        if passes.len() == 0 {
            None
        } else {
            Some(passes)
        }
    }

    /// Appends the next pass.
    fn push_pass(&self, horizontal: bool, texture: Size, output: Size, passes: &mut Vec<BlurPass>)
        requires
            blurs(if horizontal { self.blur_x } else { self.blur_y }),
            old(passes)@.len() < 100,
        ensures
            final(passes)@ == old(passes)@.push(
                blur_pass(*self, horizontal, old(passes)@.len() as int, texture, output),
            ),
    {
        let i: usize = passes.len();
        let strength: i32 = if horizontal {
            self.blur_x
        } else {
            self.blur_y
        };
        let uniform = make_uniform(
            strength,
            horizontal,
            if i == 0 {
                texture
            } else {
                output
            },
        );
        let input = if i == 0 {
            BlurInput::Source
        } else {
            BlurInput::Texture(i % 2)
        };
        passes.push(BlurPass { input, output: (i + 1) % 2, horizontal, uniform });
    }
}

/// Whether there is anything to blur.
fn is_blurring(strength: i32) -> (r: bool)
    ensures
        r == blurs(strength),
{
    strength > 65536
}

/// Each pass reads what the pass before it wrote, and never what it writes itself.
pub proof fn passes_alternate(filter: BlurFilter, texture: Size, output: Size, i: int)
    requires
        0 <= i < blur_passes(filter, texture, output).len(),
    ensures
        ({
            let passes = blur_passes(filter, texture, output);
            &&& passes[i].input != BlurInput::Texture(passes[i].output)
            &&& i > 0 ==> passes[i].input == BlurInput::Texture(passes[i - 1].output)
            &&& i == 0 ==> passes[i].input == BlurInput::Source
        }),
{
}

/// A blur filter does something exactly where it has a pass and an axis on which
/// its box is larger than a pixel.
pub proof fn blur_needs_a_pass_and_a_size(filter: BlurFilter, texture: Size, output: Size)
    ensures
        blur_passes(filter, texture, output).len() > 0 <==> filter.flags >= 8 && (filter.blur_x
            > 65536 || filter.blur_y > 65536),
{
    lemma_axes_len(filter, (filter.flags / 8) as nat);
}

proof fn lemma_axes_len(filter: BlurFilter, n: nat)
    ensures
        round_axes(filter).len() == 0 ==> blur_axes(filter, n).len() == 0,
        n > 0 ==> blur_axes(filter, n).len() >= round_axes(filter).len(),
        n == 0 ==> blur_axes(filter, n).len() == 0,
    decreases n,
{
    if n > 0 {
        lemma_axes_len(filter, (n - 1) as nat);
    }
}

/// The weights of a pass fit its box: the whole pixels and the part of the last one
/// make up how far the box reaches, to within 1/255 of a pixel on each side.
pub proof fn weights_make_up_the_box(strength: i32)
    requires
        blurs(strength),
    ensures
        0 <= whole_pixels(strength) <= 126,
        0 <= coverage(strength) <= 255,
        255 * whole_pixels(strength) + coverage(strength) <= 255 * reach(strength) / 131072,
        255 * reach(strength) / 131072 < 255 * whole_pixels(strength) + coverage(strength) + 1,
{
    let r = reach(strength);
    let m = whole_pixels(strength);
    assert(255 * r == 131072 * (255 * m) + 255 * (r - 131072 * m));
}

/// In every pass, along either axis, the weights make up the box: the pixel itself, `m`
/// whole pixels on each side and the part of one more that `first_weight` says are as wide as
/// the box, to within 1/255 of a pixel on each side. The box is that of the pass's own axis,
/// at most 255 pixels. The last two samples on a side are taken together, with the sum of
/// their weights, at the place between them where both weigh as they should. Samples lie one
/// texel of what is read apart, along the axis of the pass.
pub proof fn passes_make_up_their_box(filter: BlurFilter, texture: Size, output: Size, i: int)
    requires
        0 <= i < blur_passes(filter, texture, output).len(),
    ensures
        ({
            let pass = blur_passes(filter, texture, output)[i];
            let u = pass.uniform;
            let size = if pass.horizontal {
                filter.blur_x as int
            } else {
                filter.blur_y as int
            };
            let width: int = if size <= 16711680 {
                size
            } else {
                16711680
            };
            let (n, d) = (u.first_weight.num as int, u.first_weight.den as int);
            let read = if i == 0 {
                texture
            } else {
                output
            };
            // Widths are in 1/65536 pixel, and times the denominator of the weight.
            let made_up = 65536 * (d + 2 * (u.m * d + n));
            &&& size > 65536
            &&& u.full_size.den == 65536 && u.full_size.num == width
            &&& d > 0 && 0 <= n <= d
            &&& made_up <= d * width
            &&& 255 * (d * width - made_up) < 2 * 65536 * d
            &&& u.m2 == 2 * u.m
            &&& u.last_weight.den == d && u.last_weight.num == d + n
            &&& u.last_offset.num == n && u.last_offset.den == d + n
            &&& pass.horizontal ==> u.direction_x.num == 1 && u.direction_x.den == read.width
                && u.direction_y.num == 0 && u.direction_y.den != 0
            &&& !pass.horizontal ==> u.direction_y.num == 1 && u.direction_y.den == read.height
                && u.direction_x.num == 0 && u.direction_x.den != 0
        }),
{
    let axes = blur_axes(filter, (filter.flags / 8) as nat);
    lemma_axes_blur(filter, (filter.flags / 8) as nat, i);
    let strength = if axes[i] {
        filter.blur_x
    } else {
        filter.blur_y
    };
    let r = reach(strength);
    let m = whole_pixels(strength);
    weights_make_up_the_box(strength);
    assert(255 * r == 131072 * (255 * m) + 255 * (r - 131072 * m));
}

/// Every round of a blur passes over the axes whose box is larger than a pixel, x before y,
/// and there are as many rounds as the upper five bits of the flags say.
pub proof fn rounds_pass_over_both_axes(filter: BlurFilter, texture: Size, output: Size, i: int)
    ensures
        ({
            let passes = blur_passes(filter, texture, output);
            let rounds = (filter.flags / 8) as int;
            let (x, y) = (filter.blur_x > 65536, filter.blur_y > 65536);
            &&& x && y ==> passes.len() == 2 * rounds
            &&& x != y ==> passes.len() == rounds
            &&& !x && !y ==> passes.len() == 0
            &&& 0 <= i < passes.len() ==> passes[i].horizontal == (if x && y {
                i % 2 == 0
            } else {
                x
            })
        }),
{
    lemma_axes(filter, (filter.flags / 8) as nat, i);
}

proof fn lemma_axes(filter: BlurFilter, n: nat, i: int)
    ensures
        ({
            let axes = blur_axes(filter, n);
            let (x, y) = (filter.blur_x > 65536, filter.blur_y > 65536);
            &&& x && y ==> axes.len() == 2 * n
            &&& x != y ==> axes.len() == n
            &&& !x && !y ==> axes.len() == 0
            &&& 0 <= i < axes.len() ==> axes[i] == (if x && y {
                i % 2 == 0
            } else {
                x
            })
        }),
    decreases n,
{
    if n > 0 {
        lemma_axes(filter, (n - 1) as nat, i);
    }
}

proof fn lemma_axes_blur(filter: BlurFilter, n: nat, i: int)
    requires
        0 <= i < blur_axes(filter, n).len(),
    ensures
        blurs(
            if blur_axes(filter, n)[i] {
                filter.blur_x
            } else {
                filter.blur_y
            },
        ),
    decreases n,
{
    if n > 0 {
        let before = blur_axes(filter, (n - 1) as nat);
        if i < before.len() {
            lemma_axes_blur(filter, (n - 1) as nat, i);
        }
    }
}

} // verus!
