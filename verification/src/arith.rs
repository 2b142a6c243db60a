//! Integer helpers shared by the statistics code.
//!
//! Every statistic in this crate is an `i32`.  Intermediate values are
//! computed exactly in `i128` and brought back with [`saturate`], so a
//! result that leaves the `i32` range sticks at the nearest limit instead
//! of wrapping around.

use vstd::prelude::*;

verus! {

/// `v` limited to the range of `i32`.
pub open spec fn clamp_i32(v: int) -> int {
    if v < i32::MIN as int {
        i32::MIN as int
    } else if v > i32::MAX as int {
        i32::MAX as int
    } else {
        v
    }
}

/// Quotient of `a` by `b` rounded toward zero (`b != 0`).
pub open spec fn trunc_div(a: int, b: int) -> int {
    if b > 0 {
        if a >= 0 {
            a / b
        } else {
            -((-a) / b)
        }
    } else {
        if a >= 0 {
            -(a / (-b))
        } else {
            (-a) / (-b)
        }
    }
}

/// `num / den` rounded toward zero and limited to `i32`.  A zero
/// denominator is read as the limit of the quotient: the result keeps the
/// sign of `num` and sticks at the matching end of the range.
pub open spec fn ratio(num: int, den: int) -> int {
    if den == 0 {
        if num > 0 {
            i32::MAX as int
        } else if num < 0 {
            i32::MIN as int
        } else {
            0
        }
    } else {
        clamp_i32(trunc_div(num, den))
    }
}

/// `a - b` limited to `i32`.
pub open spec fn sat_sub(a: int, b: int) -> int {
    clamp_i32(a - b)
}

/// `a * b` limited to `i32`.
pub open spec fn sat_mul(a: int, b: int) -> int {
    clamp_i32(a * b)
}

/// The product of two bounded factors is bounded by the product of the bounds.
pub proof fn lemma_mul_bounded(a: int, b: int, ba: int, bb: int)
    by (nonlinear_arith)
    requires
        -ba <= a <= ba,
        -bb <= b <= bb,
    ensures
        -(ba * bb) <= a * b <= ba * bb,
{
}

/// `v` limited to the range of `i32`.
pub fn saturate(v: i128) -> (r: i32)
    ensures
        r as int == clamp_i32(v as int),
{
    if v < i32::MIN as i128 {
        i32::MIN
    } else if v > i32::MAX as i128 {
        i32::MAX
    } else {
        v as i32
    }
}

/// The quotient of `a` by `b`, rounded toward zero.
pub fn quotient(a: i128, b: i128) -> (q: i128)
    requires
        b != 0,
        a > i128::MIN,
        b > i128::MIN,
    ensures
        q as int == trunc_div(a as int, b as int),
{
    if b > 0 {
        a / b
    } else {
        (-a) / (-b)
    }
}

/// `num / den` rounded toward zero and limited to `i32`, a zero
/// denominator read as the limit.
pub fn saturating_ratio(num: i128, den: i128) -> (r: i32)
    requires
        num > i128::MIN,
        den > i128::MIN,
    ensures
        r as int == ratio(num as int, den as int),
{
    if den == 0 {
        if num > 0 {
            i32::MAX
        } else if num < 0 {
            i32::MIN
        } else {
            0
        }
    } else {
        saturate(quotient(num, den))
    }
}

/// `a * b` limited to `i32`.
pub fn saturating_product(a: i32, b: i32) -> (r: i32)
    ensures
        r as int == sat_mul(a as int, b as int),
{
    proof {
        lemma_mul_bounded(a as int, b as int, 0x8000_0000, 0x8000_0000);
    }
    saturate((a as i128) * (b as i128))
}

/// `a - b` limited to `i32`.
pub fn saturating_difference(a: i32, b: i32) -> (r: i32)
    ensures
        r as int == sat_sub(a as int, b as int),
{
    saturate((a as i128) - (b as i128))
}

} // verus!
