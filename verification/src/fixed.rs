//! Fixed-point scalar arithmetic.
//!
//! Every real-valued quantity of the network (weights, biases, activations,
//! gradients) is represented as a signed 64-bit integer holding the value
//! scaled by `SCALE`, so `SCALE` itself stands for 1.0.  All operations
//! saturate at `LIMIT`, so arithmetic is total and never overflows.

use vstd::prelude::*;

verus! {

/// The fixed-point scale: the integer `SCALE` represents the real number 1.0.
pub const SCALE: i64 = 65536;

/// Saturation bound: every scalar the library computes stays in
/// `[-LIMIT, LIMIT]` (that is, real values in about `[-2^24, 2^24]`).
pub const LIMIT: i64 = 1099511627776;

/// The fixed learning rate 0.1, in fixed point (`SCALE / 10`, rounded).
pub const LEARNING_RATE: i64 = 6554;

/// A scalar is in range when it lies within the saturation bound.
pub open spec fn fits(x: int) -> bool {
    -(LIMIT as int) <= x <= LIMIT as int
}

/// Saturate a mathematical integer into the representable range.
pub open spec fn fp_clamp(x: int) -> int {
    if x > LIMIT as int {
        LIMIT as int
    } else if x < -(LIMIT as int) {
        -(LIMIT as int)
    } else {
        x
    }
}

pub open spec fn fp_abs(a: int) -> int {
    if a >= 0 {
        a
    } else {
        -a
    }
}

/// Saturating fixed-point addition.
pub open spec fn fp_add(a: int, b: int) -> int {
    fp_clamp(a + b)
}

/// Saturating fixed-point subtraction.
pub open spec fn fp_sub(a: int, b: int) -> int {
    fp_clamp(a - b)
}

/// Saturating fixed-point multiplication: the product of the magnitudes is
/// rescaled by `SCALE` (rounding toward zero), then the sign is reapplied.
pub open spec fn fp_mul(a: int, b: int) -> int {
    let m = fp_abs(a) * fp_abs(b) / (SCALE as int);
    if (a < 0) != (b < 0) {
        fp_clamp(-m)
    } else {
        fp_clamp(m)
    }
}

pub fn add_fp(a: i64, b: i64) -> (r: i64)
    requires
        fits(a as int),
        fits(b as int),
    ensures
        r as int == fp_add(a as int, b as int),
        fits(r as int),
{
    let s: i64 = a + b;
    if s > LIMIT {
        LIMIT
    } else if s < -LIMIT {
        -LIMIT
    } else {
        s
    }
}

pub fn sub_fp(a: i64, b: i64) -> (r: i64)
    requires
        fits(a as int),
        fits(b as int),
    ensures
        r as int == fp_sub(a as int, b as int),
        fits(r as int),
{
    let s: i64 = a - b;
    if s > LIMIT {
        LIMIT
    } else if s < -LIMIT {
        -LIMIT
    } else {
        s
    }
}

pub fn mul_fp(a: i64, b: i64) -> (r: i64)
    requires
        fits(a as int),
        fits(b as int),
    ensures
        r as int == fp_mul(a as int, b as int),
        fits(r as int),
{
    let neg: bool = (a < 0) != (b < 0);
    let ma: u64 = if a >= 0 {
        a as u64
    } else {
        (-a) as u64
    };
    let mb: u64 = if b >= 0 {
        b as u64
    } else {
        (-b) as u64
    };
    assert(ma as int * mb as int <= LIMIT as int * LIMIT as int) by (nonlinear_arith)
        requires
            0 <= ma as int <= LIMIT as int,
            0 <= mb as int <= LIMIT as int,
    ;
    let p: u128 = (ma as u128) * (mb as u128) / (SCALE as u128);
    let m: i64 = if p > LIMIT as u128 {
        LIMIT
    } else {
        p as i64
    };
    if neg {
        -m
    } else {
        m
    }
}

} // verus!
