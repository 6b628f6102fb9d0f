//! Saturating integer arithmetic for attribute values.
//!
//! Attribute values and change magnitudes are `i64`. All value arithmetic
//! saturates at the `i64` range, and division truncates toward zero, so every
//! operation is total and exactly specified.

use vstd::prelude::*;

verus! {

/// Clamp an unbounded integer to the `i64` range.
pub open spec fn sat64(x: int) -> i64 {
    if x > i64::MAX {
        i64::MAX
    } else if x < i64::MIN {
        i64::MIN
    } else {
        x as i64
    }
}

/// Quotient of `a / d` truncated toward zero, as Rust's `/` computes it.
/// Unspecified for `d == 0` (callers never pass it).
pub open spec fn trunc_div(a: int, d: int) -> int {
    if a == 0 {
        0
    } else if a > 0 && d > 0 {
        a / d
    } else if a < 0 && d < 0 {
        (a * -1) / (d * -1)
    } else if a < 0 {
        ((a * -1) / d) * -1
    } else {
        (a / (d * -1)) * -1
    }
}

/// Saturating addition.
pub fn sat_add(a: i64, b: i64) -> (r: i64)
    ensures
        r == sat64(a + b),
{
    match a.checked_add(b) {
        Some(x) => x,
        None => {
            if b > 0 {
                i64::MAX
            } else {
                i64::MIN
            }
        },
    }
}

/// Saturating multiplication.
pub fn sat_mul(a: i64, b: i64) -> (r: i64)
    ensures
        r == sat64(a * b),
{
    match a.checked_mul(b) {
        Some(x) => x,
        None => {
            if (a < 0) != (b < 0) {
                proof {
                    assert(a * b <= 0) by (nonlinear_arith)
                        requires (a < 0) != (b < 0);
                }
                i64::MIN
            } else {
                proof {
                    assert(a * b >= 0) by (nonlinear_arith)
                        requires (a < 0) == (b < 0);
                }
                i64::MAX
            }
        },
    }
}

/// Division truncated toward zero, saturating on the one overflowing case
/// (`i64::MIN / -1`).
pub fn sat_div(a: i64, d: i64) -> (r: i64)
    requires
        d != 0,
    ensures
        r == sat64(trunc_div(a as int, d as int)),
{
    match a.checked_div(d) {
        Some(x) => x,
        None => i64::MAX,
    }
}

/// The weighted average a weight pair defines. Zero total weight keeps the
/// current value.
pub open spec fn spec_weighted_average(current: i64, incoming: i64, wc: u32, wn: u32) -> i64 {
    if wc + wn == 0 {
        current
    } else {
        sat64(trunc_div(current * wc + incoming * wn, wc + wn))
    }
}

/// Weighted average of the current and an incoming value, truncated toward
/// zero and saturating at the `i64` range.
pub fn weighted_average(current: i64, incoming: i64, wc: u32, wn: u32) -> (r: i64)
    ensures
        r == spec_weighted_average(current, incoming, wc, wn),
{
    let denom: i64 = wc as i64 + wn as i64;
    if denom == 0 {
        return current;
    }
    proof {
        assert(current as int * wc as int <= 0x8000_0000_0000_0000 * 0x1_0000_0000
            && current as int * wc as int >= -0x8000_0000_0000_0000 * 0x1_0000_0000)
            by (nonlinear_arith)
            requires
                -0x8000_0000_0000_0000 <= (current as int) <= 0x7fff_ffff_ffff_ffff,
                0 <= (wc as int) && (wc as int) < 0x1_0000_0000;
        assert(incoming as int * wn as int <= 0x8000_0000_0000_0000 * 0x1_0000_0000
            && incoming as int * wn as int >= -0x8000_0000_0000_0000 * 0x1_0000_0000)
            by (nonlinear_arith)
            requires
                -0x8000_0000_0000_0000 <= (incoming as int) <= 0x7fff_ffff_ffff_ffff,
                0 <= (wn as int) && (wn as int) < 0x1_0000_0000;
    }
    let num: i128 = current as i128 * wc as i128 + incoming as i128 * wn as i128;
    let q: i128 = match num.checked_div(denom as i128) {
        Some(x) => x,
        None => 0,
    };
    if q > i64::MAX as i128 {
        i64::MAX
    } else if q < i64::MIN as i128 {
        i64::MIN
    } else {
        q as i64
    }
}

} // verus!
