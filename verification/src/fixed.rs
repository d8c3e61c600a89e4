//! Fixed-point arithmetic: the numeric domain of the simulation.
//!
//! A scalar is an `i64` counting thousandths of a game unit (seconds, pixels,
//! pixels per second). All operations saturate at the `i64` range instead of
//! wrapping, so a tick can never panic on arithmetic.
use vstd::prelude::*;

verus! {

/// A fixed-point scalar: a signed count of [`FX_ONE`]ths of a unit.
pub type Fx = i64;

/// The fixed-point scale: the representation of 1.0.
pub const FX_ONE: i64 = 1000;

/// A 2D vector of fixed-point scalars.
#[derive(Clone, Copy, Debug, PartialEq, Eq, Structural)]
pub struct Vec2 {
    pub x: Fx,
    pub y: Fx,
}

/// Clamps a mathematical integer into the `i64` range.
pub open spec fn clamp_i64(x: int) -> int {
    if x > i64::MAX {
        i64::MAX as int
    } else if x < i64::MIN {
        i64::MIN as int
    } else {
        x
    }
}

/// Division truncating toward zero (the machine convention), for `b > 0`.
pub open spec fn div_trunc(a: int, b: int) -> int {
    if a >= 0 {
        a / b
    } else {
        -((-a) / b)
    }
}

/// Division rounding to the nearest integer, half away from zero, for `b > 0`.
pub open spec fn div_round(a: int, b: int) -> int {
    if a >= 0 {
        (2 * a + b) / (2 * b)
    } else {
        -((2 * (-a) + b) / (2 * b))
    }
}

/// The saturating sum of two scalars.
pub open spec fn spec_add(a: int, b: int) -> int {
    clamp_i64(a + b)
}

/// The saturating difference of two scalars.
pub open spec fn spec_sub(a: int, b: int) -> int {
    clamp_i64(a - b)
}

/// The saturating fixed-point product of two scalars: `a * b` rescaled by
/// [`FX_ONE`], truncating toward zero.
pub open spec fn spec_mul(a: int, b: int) -> int {
    clamp_i64(div_trunc(a * b, FX_ONE as int))
}

pub fn fx_add(a: Fx, b: Fx) -> (r: Fx)
    ensures
        r == spec_add(a as int, b as int),
{
    let wide: i128 = a as i128 + b as i128;
    if wide > i64::MAX as i128 {
        i64::MAX
    } else if wide < i64::MIN as i128 {
        i64::MIN
    } else {
        wide as i64
    }
}

pub fn fx_sub(a: Fx, b: Fx) -> (r: Fx)
    ensures
        r == spec_sub(a as int, b as int),
{
    let wide: i128 = a as i128 - b as i128;
    if wide > i64::MAX as i128 {
        i64::MAX
    } else if wide < i64::MIN as i128 {
        i64::MIN
    } else {
        wide as i64
    }
}

/// The absolute value of a scalar, widened so that `i64::MIN` has one too.
fn fx_abs_u128(a: Fx) -> (r: u128)
    ensures
        r == if a >= 0 {
            a as int
        } else {
            -(a as int)
        },
{
    if a >= 0 {
        a as u128
    } else {
        (-(a as i128)) as u128
    }
}

/// Clamps an unsigned magnitude with a sign into the `i64` range.
fn apply_sign_clamped(mag: u128, neg: bool) -> (r: i64)
    ensures
        r == clamp_i64(if neg {
            -(mag as int)
        } else {
            mag as int
        }),
{
    if neg {
        if mag >= 0x8000_0000_0000_0000u128 {
            i64::MIN
        } else {
            -(mag as i64)
        }
    } else {
        if mag > i64::MAX as u128 {
            i64::MAX
        } else {
            mag as i64
        }
    }
}

pub fn fx_mul(a: Fx, b: Fx) -> (r: Fx)
    ensures
        r == spec_mul(a as int, b as int),
{
    let neg = (a < 0) != (b < 0);
    let abs_a = fx_abs_u128(a);
    let abs_b = fx_abs_u128(b);
    assert(abs_a * abs_b <= 0x8000_0000_0000_0000u128 * 0x8000_0000_0000_0000u128)
        by (nonlinear_arith)
        requires
            abs_a <= 0x8000_0000_0000_0000u128,
            abs_b <= 0x8000_0000_0000_0000u128,
    ;
    let prod: u128 = abs_a * abs_b;
    let q: u128 = prod / (FX_ONE as u128);
    proof {
        lemma_abs_mul(a as int, b as int, abs_a as int, abs_b as int);
        lemma_abs_div_trunc(a as int * b as int, prod as int, FX_ONE as int, neg);
    }
    apply_sign_clamped(q, neg)
}

/// The magnitudes of the factors determine the magnitude of the product.
proof fn lemma_abs_mul(a: int, b: int, abs_a: int, abs_b: int)
    requires
        abs_a == if a >= 0 {
            a
        } else {
            -a
        },
        abs_b == if b >= 0 {
            b
        } else {
            -b
        },
    ensures
        a * b == if (a < 0) != (b < 0) {
            -(abs_a * abs_b)
        } else {
            abs_a * abs_b
        },
{
    assert(a * b == if (a < 0) != (b < 0) {
        -(abs_a * abs_b)
    } else {
        abs_a * abs_b
    }) by (nonlinear_arith)
        requires
            abs_a == if a >= 0 {
                a
            } else {
                -a
            },
            abs_b == if b >= 0 {
                b
            } else {
                -b
            },
    ;
}

/// Unsigned division of the magnitude computes truncating division.
proof fn lemma_abs_div_trunc(p: int, mag: int, d: int, neg: bool)
    requires
        d > 0,
        mag >= 0,
        p == if neg {
            -mag
        } else {
            mag
        },
    ensures
        div_trunc(p, d) == if neg {
            -(mag / d)
        } else {
            mag / d
        },
{
    if p >= 0 && neg {
        assert(mag == 0);
        assert(mag / d == 0) by (nonlinear_arith)
            requires
                d > 0,
                mag == 0,
        ;
    }
}

/// One axis of a grid snap: the position rounded to the nearest multiple of
/// the cell size, shifted by a whole number of cells. An axis whose cell size
/// is not positive passes through unchanged.
pub open spec fn spec_snap_axis(p: int, c: int, off: int) -> int {
    if c > 0 {
        clamp_i64((clamp_i64(div_round(p, c)) + off) * c)
    } else {
        p
    }
}

/// Snaps one axis of a position to a grid of `c`-sized cells, `off` cells
/// over.
pub fn snap_axis(p: Fx, c: Fx, off: i32) -> (r: Fx)
    ensures
        r == spec_snap_axis(p as int, c as int, off as int),
{
    if c <= 0 {
        return p;
    }
    let q = fx_div_round(p, c);
    let cell: i128 = q as i128 + off as i128;
    assert(cell * (c as i128) <= 0x8000_0000_8000_0000i128 * 0x7fff_ffff_ffff_ffffi128 && cell * (
    c as i128) >= -(0x8000_0000_8000_0000i128 * 0x7fff_ffff_ffff_ffffi128)) by (nonlinear_arith)
        requires
            -0x8000_0000_8000_0000i128 <= cell <= 0x8000_0000_8000_0000i128,
            0 < (c as i128) <= 0x7fff_ffff_ffff_ffffi128,
    ;
    let prod: i128 = cell * (c as i128);
    if prod > i64::MAX as i128 {
        i64::MAX
    } else if prod < i64::MIN as i128 {
        i64::MIN
    } else {
        prod as i64
    }
}

/// Rounded division of two scalars, `b > 0`; rounds half away from zero.
pub fn fx_div_round(a: Fx, b: Fx) -> (r: Fx)
    requires
        b > 0,
    ensures
        r == clamp_i64(div_round(a as int, b as int)),
{
    let neg = a < 0;
    let abs_a = fx_abs_u128(a);
    let num: u128 = 2 * abs_a + b as u128;
    let den: u128 = 2 * (b as u128);
    let q: u128 = num / den;
    proof {
        if neg {
            assert(div_round(a as int, b as int) == -(num as int / den as int));
        } else {
            assert(div_round(a as int, b as int) == num as int / den as int);
        }
    }
    apply_sign_clamped(q, neg)
}

} // verus!
