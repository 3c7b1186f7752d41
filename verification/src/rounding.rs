//! What becomes of a coordinate that is stored as pixels in single precision and read
//! back as whole twips.
//!
//! A single precision number has 24 significant bits. One twip, the least number of
//! pixels besides zero, takes them all in units of 2⁻²⁸ pixel; so numbers of pixels are
//! counted in these units here.
use crate::geometry::TwipsPoint;
use vstd::prelude::*;

verus! {

/// Units of 2⁻²⁸ pixel in five twips.
pub const FIVE_TWIPS: u64 = 0x400_0000;

/// The first power of two from `u` on that is more than four fifths of a number.
pub open spec fn power_above(a: nat, u: nat) -> nat
    decreases
            if u == 0 || 5 * u > 4 * a {
                0
            } else {
                4 * a - 5 * u + 1
            },
{
    if u == 0 || 5 * u > 4 * a {
        u
    } else {
        power_above(a, 2 * u)
    }
}

/// How far neighbouring single precision numbers of pixels are apart around a number of
/// twips, in units: the least power of two with which it takes no more than 24 bits.
pub open spec fn spacing(twips: nat) -> nat {
    power_above(twips, 1)
}

/// The nearest whole number to a quotient; the even one of two.
pub open spec fn nearest(num: int, den: int) -> int {
    let (q, r) = (num / den, num % den);
    if 2 * r > den || (2 * r == den && q % 2 == 1) {
        q + 1
    } else {
        q
    }
}

/// A number of twips as pixels in single precision, in units.
pub open spec fn single_pixels(twips: nat) -> int {
    let u = spacing(twips) as int;
    u * nearest(twips * FIVE_TWIPS, 5 * u)
}

/// The whole twips in a number of units.
pub open spec fn whole_twips(units: int) -> int {
    5 * units / (FIVE_TWIPS as int)
}

/// A coordinate that has been stored as pixels in single precision and is read back as
/// whole twips: rounded to the nearest pixels that can be stored, and truncated. What
/// 32 bits cannot hold becomes the largest or least number that they can.
pub open spec fn read_back(twips: int) -> int {
    if twips >= 0 {
        let r = whole_twips(single_pixels(twips as nat));
        if r > i32::MAX {
            i32::MAX as int
        } else {
            r
        }
    } else {
        let r = -whole_twips(single_pixels((-twips) as nat));
        if r < i32::MIN {
            i32::MIN as int
        } else {
            r
        }
    }
}

/// A point whose coordinates have been read back.
pub open spec fn read_back_point(p: TwipsPoint) -> TwipsPoint {
    TwipsPoint { x: read_back(p.x as int) as i32, y: read_back(p.y as int) as i32 }
}

/// The nearest whole number lies within half of the divisor.
proof fn lemma_nearest(num: int, den: int)
    requires
        den > 0,
        num >= 0,
    ensures
        nearest(num, den) >= 0,
        num / den <= nearest(num, den) <= num / den + 1,
        2 * num - den <= 2 * (den * nearest(num, den)) <= 2 * num + den,
{
    let (q, r) = (num / den, num % den);
    vstd::arithmetic::div_mod::lemma_fundamental_div_mod(num, den);
    vstd::arithmetic::div_mod::lemma_mod_bound(num, den);
    vstd::arithmetic::div_mod::lemma_div_pos_is_pos(num, den);
    assert(den * (q + 1) == den * q + den) by (nonlinear_arith);
}

/// The spacing is the least power of two above four fifths.
proof fn lemma_power_above(a: nat, u: nat)
    requires
        u >= 1,
        u == 1 || 5 * u <= 8 * a,
    ensures
        power_above(a, u) >= 1,
        5 * power_above(a, u) > 4 * a,
        power_above(a, u) == 1 || 5 * power_above(a, u) <= 8 * a,
    decreases
            if 5 * u > 4 * a {
                0
            } else {
                4 * a - 5 * u + 1
            },
{
    if 5 * u <= 4 * a {
        lemma_power_above(a, 2 * u);
    }
}

/// The whole twips of the pixels that a length is rounded to.
fn read_back_length(twips: u64) -> (r: u64)
    requires
        twips <= 0x8000_0000,
    ensures
        r == whole_twips(single_pixels(twips as nat)),
{
    let mut u: u64 = 1;
    while 5 * u <= 4 * twips
        invariant
            1 <= u <= 0x1_0000_0000,
            twips <= 0x8000_0000,
            spacing(twips as nat) == power_above(twips as nat, u as nat),
            u == 1 || 5 * u <= 8 * twips,
        decreases 8 * twips + 5 - 5 * u,
    {
        u = 2 * u;
    }
    assert(u == spacing(twips as nat));
    let (num, den): (u64, u64) = (twips * FIVE_TWIPS, 5 * u);
    let (q, rest): (u64, u64) = (num / den, num % den);
    let m: u64 = if 2 * rest > den || (2 * rest == den && q % 2 == 1) {
        q + 1
    } else {
        q
    };
    proof {
        assert(m == nearest(num as int, den as int));
        lemma_nearest(num as int, den as int);
        assert(5 * (u * m) == den * m) by (nonlinear_arith)
            requires
                den == 5 * u,
        ;
    }
    den * m / FIVE_TWIPS
}

/// A coordinate that has been stored as pixels in single precision and is read back as
/// whole twips.
pub fn read_back_twips(twips: i32) -> (r: i32)
    ensures
        r == read_back(twips as int),
{
    let length: u64 = if twips >= 0 {
        twips as u64
    } else {
        (-(twips as i64)) as u64
    };
    let back: u64 = read_back_length(length);
    if twips >= 0 {
        if back > i32::MAX as u64 {
            i32::MAX
        } else {
            back as i32
        }
    } else if back > 0x8000_0000 {
        i32::MIN
    } else {
        (-(back as i64)) as i32
    }
}

/// A point whose coordinates have been stored as pixels in single precision and are
/// read back as whole twips.
pub fn read_back_twips_point(p: TwipsPoint) -> (r: TwipsPoint)
    ensures
        r == read_back_point(p),
{
    TwipsPoint { x: read_back_twips(p.x), y: read_back_twips(p.y) }
}

/// A coordinate of less than 2²⁴ twips is read back as it was, or one twip nearer to
/// zero.
pub proof fn read_back_is_close(twips: int)
    requires
        -0x100_0000 < twips < 0x100_0000,
    ensures
        twips >= 0 ==> twips - 1 <= read_back(twips) <= twips,
        twips <= 0 ==> twips <= read_back(twips) <= twips + 1,
{
    let a: nat = if twips >= 0 {
        twips as nat
    } else {
        (-twips) as nat
    };
    let u = spacing(a) as int;
    lemma_power_above(a, 1);
    let (num, den) = (a * FIVE_TWIPS, 5 * u);
    lemma_nearest(num, den);
    let m = nearest(num, den);
    assert(5 * (u * m) == den * m) by (nonlinear_arith)
        requires
            den == 5 * u,
    ;
}

/// A number without its sign.
pub open spec fn magnitude(v: int) -> int {
    if v < 0 {
        -v
    } else {
        v
    }
}

/// A number of twips is stored as the nearest number of pixels that single precision has: no
/// multiple of the spacing around it is nearer. The spacing is such that the number takes 24 bits.
pub proof fn single_precision_is_nearest(twips: nat, k: int)
    ensures
        ({
            let u = spacing(twips) as int;
            let exact = twips * FIVE_TWIPS;
            let off = 5 * single_pixels(twips) - exact;
            let other = 5 * (u * k) - exact;
            &&& u >= 1
            &&& magnitude(off) <= magnitude(other)
            &&& exact < 5 * (u * 0x100_0000)
            &&& twips > 0 ==> 5 * (u * 0x80_0000) <= exact || u == 1
        }),
{
    let u = spacing(twips) as int;
    lemma_power_above(twips, 1);
    let (num, den) = (twips * FIVE_TWIPS, 5 * u);
    lemma_nearest(num, den);
    let m = nearest(num, den);
    assert(5 * (u * m) == den * m && 5 * (u * k) == den * k) by (nonlinear_arith)
        requires
            den == 5 * u,
    ;
    if k > m {
        assert(den * k >= den * m + den) by (nonlinear_arith)
            requires
                k >= m + 1,
                den > 0,
        ;
    } else if k < m {
        assert(den * k <= den * m - den) by (nonlinear_arith)
            requires
                k <= m - 1,
                den > 0,
        ;
    }
}

} // verus!
