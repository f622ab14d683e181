//! The activation strategy: a closed set of elementwise nonlinearities, each
//! with its derivative.
//!
//! One derivative convention is used throughout the library: the derivative is
//! evaluated as a function of the activation's own *output* (`dsigma_of_y`),
//! and `dsigma`, the input-based form, is defined to agree with it exactly
//! (see `lemma_relu_derivative_convention` and
//! `lemma_sigmoid_derivative_convention`).

use vstd::prelude::*;
use vstd::arithmetic::div_mod::{
    lemma_div_by_self, lemma_div_is_ordered, lemma_div_multiples_vanish, lemma_div_nonincreasing,
    lemma_div_pos_is_pos, lemma_mod_division_less_than_divisor,
};
use crate::fixed::{fits, fp_mul, fp_sub, mul_fp, sub_fp, LIMIT, SCALE};
use crate::linear::{affine, vec_fits, vview};

verus! {

/// Euler's number in fixed point: `e * SCALE`, rounded.
pub const EULER_FP: i64 = 178145;

/// Cap on the fixed-point exponential, `SCALE * (SCALE - 1)`.  Keeping the
/// exponential at or below this bound is exactly what keeps the sigmoid's
/// output strictly between 0 and `SCALE`.
pub const EXP_MAX: i64 = 4294901760;

/// Arguments at or past `12 * SCALE` saturate the capped exponential.
pub const EXP_INPUT_CAP: i64 = 786432;

/// An elementwise activation: the nonlinearity `sigma` and its derivative,
/// available both as a function of the input (`dsigma`) and as a function of
/// the already-computed output (`dsigma_of_y`).  Every variant must supply
/// both forms, and they must be exact mirrors of the spec functions.
pub trait Activation {
    spec fn sigma_spec(x: int) -> int;

    spec fn dsigma_spec(x: int) -> int;

    spec fn dsigma_of_y_spec(y: int) -> int;

    /// The nonlinearity itself.
    fn sigma(x: i64) -> (r: i64)
        requires
            fits(x as int),
        ensures
            r as int == Self::sigma_spec(x as int),
            fits(r as int),
    ;

    /// The derivative, as a function of the pre-activation input.
    fn dsigma(x: i64) -> (r: i64)
        requires
            fits(x as int),
        ensures
            r as int == Self::dsigma_spec(x as int),
            fits(r as int),
    ;

    /// The derivative, as a function of the activation's own output.
    fn dsigma_of_y(y: i64) -> (r: i64)
        requires
            fits(y as int),
        ensures
            r as int == Self::dsigma_of_y_spec(y as int),
            fits(r as int),
    ;
}

/// Rectified linear unit: `max(0, x)`.
pub struct Relu;

impl Activation for Relu {
    open spec fn sigma_spec(x: int) -> int {
        if x > 0 {
            x
        } else {
            0
        }
    }

    open spec fn dsigma_spec(x: int) -> int {
        if x > 0 {
            SCALE as int
        } else {
            0
        }
    }

    open spec fn dsigma_of_y_spec(y: int) -> int {
        if y > 0 {
            SCALE as int
        } else {
            0
        }
    }

    fn sigma(x: i64) -> (r: i64) {
        if x > 0 {
            x
        } else {
            0
        }
    }

    fn dsigma(x: i64) -> (r: i64) {
        if x > 0 {
            SCALE
        } else {
            0
        }
    }

    fn dsigma_of_y(y: i64) -> (r: i64) {
        if y > 0 {
            SCALE
        } else {
            0
        }
    }
}

/// One term of the truncated Taylor series of `e^(u / SCALE)`, in fixed point:
/// term 0 is `SCALE` (that is, 1.0) and each later term divides by one more
/// factor, exactly as the executable loop computes it.
pub open spec fn exp_term(u: int, k: nat) -> int
    decreases k,
{
    if k == 0 {
        SCALE as int
    } else {
        exp_term(u, (k - 1) as nat) * u / (SCALE as int) / (k as int)
    }
}

/// The sum of the Taylor terms `0 ..= n`.
pub open spec fn exp_taylor(u: int, n: nat) -> int
    decreases n,
{
    if n == 0 {
        exp_term(u, 0)
    } else {
        exp_taylor(u, (n - 1) as nat) + exp_term(u, n)
    }
}

/// `e^(u / SCALE)` for a fractional argument `0 <= u < SCALE`, as the sum of
/// the first thirteen Taylor terms.
pub open spec fn exp_frac(u: int) -> int {
    exp_taylor(u, 12)
}

/// `e^n` in fixed point, by repeated multiplication with `EULER_FP`, capped
/// at `EXP_MAX`.
pub open spec fn exp_whole(n: nat) -> int
    decreases n,
{
    if n == 0 {
        SCALE as int
    } else {
        let w = exp_whole((n - 1) as nat) * (EULER_FP as int) / (SCALE as int);
        if w > EXP_MAX as int {
            EXP_MAX as int
        } else {
            w
        }
    }
}

/// The capped fixed-point exponential of a nonnegative argument: the whole
/// part by repeated multiplication, the fractional part by Taylor series.
pub open spec fn exp_fp(t: int) -> int {
    if t >= EXP_INPUT_CAP as int {
        EXP_MAX as int
    } else {
        let p = exp_whole((t / (SCALE as int)) as nat) * exp_frac(t % (SCALE as int)) / (
        SCALE as int);
        if p > EXP_MAX as int {
            EXP_MAX as int
        } else {
            p
        }
    }
}

/// The fixed-point sigmoid `1 / (1 + e^(-x))`, written over the capped
/// exponential of `|x|` so that both branches divide by `SCALE + e`.
pub open spec fn sigmoid_of(x: int) -> int {
    if x >= 0 {
        let e = exp_fp(x);
        (SCALE as int) * e / ((SCALE as int) + e)
    } else {
        let e = exp_fp(-x);
        (SCALE as int) * (SCALE as int) / ((SCALE as int) + e)
    }
}

proof fn lemma_exp_term_bounds(u: int, k: nat)
    requires
        0 <= u < SCALE as int,
    ensures
        0 <= exp_term(u, k) <= SCALE as int,
    decreases k,
{
    if k != 0 {
        lemma_exp_term_bounds(u, (k - 1) as nat);
        let prev = exp_term(u, (k - 1) as nat);
        assert(0 <= prev * u <= 65536 * 65536) by (nonlinear_arith)
            requires
                0 <= prev <= 65536,
                0 <= u < 65536,
        ;
        lemma_div_pos_is_pos(prev * u, 65536);
        lemma_div_is_ordered(prev * u, 65536int * 65536, 65536);
        lemma_div_multiples_vanish(65536, 65536);
        lemma_div_pos_is_pos(prev * u / 65536, k as int);
        lemma_div_nonincreasing(prev * u / 65536, k as int);
    }
}

proof fn lemma_exp_taylor_bounds(u: int, n: nat)
    requires
        0 <= u < SCALE as int,
    ensures
        SCALE as int <= exp_taylor(u, n) <= (SCALE as int) * (n + 1),
    decreases n,
{
    lemma_exp_term_bounds(u, n);
    if n != 0 {
        lemma_exp_taylor_bounds(u, (n - 1) as nat);
    }
}

proof fn lemma_exp_whole_bounds(n: nat)
    ensures
        SCALE as int <= exp_whole(n) <= EXP_MAX as int,
    decreases n,
{
    if n != 0 {
        lemma_exp_whole_bounds((n - 1) as nat);
        let prev = exp_whole((n - 1) as nat);
        assert(prev * 65536 <= prev * 178145);
        lemma_div_is_ordered(prev * 65536, prev * 178145, 65536);
        lemma_div_multiples_vanish(prev, 65536);
        assert(65536 * prev == prev * 65536);
    }
}

proof fn lemma_exp_fp_bounds(t: int)
    requires
        t >= 0,
    ensures
        SCALE as int <= exp_fp(t) <= EXP_MAX as int,
{
    if t < EXP_INPUT_CAP as int {
        lemma_div_pos_is_pos(t, 65536);
        lemma_mod_division_less_than_divisor(t, 65536);
        let n = (t / 65536) as nat;
        let f = t % 65536;
        let w = exp_whole(n);
        let fr = exp_frac(f);
        lemma_exp_whole_bounds(n);
        lemma_exp_taylor_bounds(f, 12);
        assert(w * 65536 <= w * fr) by (nonlinear_arith)
            requires
                0 <= w,
                65536 <= fr,
        ;
        lemma_div_is_ordered(w * 65536, w * fr, 65536);
        lemma_div_multiples_vanish(w, 65536);
        assert(65536 * w == w * 65536);
    }
}

/// Every sigmoid output is strictly between 0 and `SCALE`: strictly between
/// 0.0 and 1.0 in fixed point, whatever the argument.
pub proof fn lemma_sigmoid_of_range(x: int)
    ensures
        0 < sigmoid_of(x) < SCALE as int,
{
    if x >= 0 {
        let e = exp_fp(x);
        lemma_exp_fp_bounds(x);
        let den = 65536 + e;
        assert(den <= 65536 * e);
        lemma_div_is_ordered(den, 65536 * e, den);
        lemma_div_by_self(den);
        assert(65536 * e <= 65535 * den);
        lemma_div_is_ordered(65536 * e, 65535 * den, den);
        lemma_div_multiples_vanish(65535, den);
        assert(den * 65535 == 65535 * den);
    } else {
        let e = exp_fp(-x);
        lemma_exp_fp_bounds(-x);
        let den = 65536 + e;
        assert(den <= 65536 * 65536);
        lemma_div_is_ordered(den, 65536int * 65536, den);
        lemma_div_by_self(den);
        assert(65536 * 65536 <= 65535 * den);
        lemma_div_is_ordered(65536int * 65536, 65535 * den, den);
        lemma_div_multiples_vanish(65535, den);
        assert(den * 65535 == 65535 * den);
    }
}

/// The Taylor sum for the fractional part of the exponent.
fn exp_frac_x(u: u64) -> (r: u64)
    requires
        u < SCALE as u64,
    ensures
        r as int == exp_frac(u as int),
{
    let mut term: u64 = 65536;
    let mut acc: u64 = 65536;
    let mut k: u64 = 1;
    while k <= 12
        invariant
            1 <= k <= 13,
            u < 65536,
            term as int == exp_term(u as int, (k - 1) as nat),
            acc as int == exp_taylor(u as int, (k - 1) as nat),
            0 <= term <= 65536,
            acc <= 65536 * k,
        decreases 13 - k,
    {
        assert(term as int * u as int <= 65536 * 65536) by (nonlinear_arith)
            requires
                0 <= term as int <= 65536,
                0 <= (u as int) < 65536,
        ;
        term = term * u / 65536 / k;
        proof {
            lemma_exp_term_bounds(u as int, k as nat);
        }
        acc = acc + term;
        k = k + 1;
    }
    acc
}

/// The whole part of the exponent, by repeated multiplication with
/// `EULER_FP`, capped at `EXP_MAX`.
fn exp_whole_x(n: u64) -> (r: u64)
    requires
        n <= 12,
    ensures
        r as int == exp_whole(n as nat),
        SCALE as u64 <= r <= EXP_MAX as u64,
{
    let mut w: u64 = 65536;
    let mut i: u64 = 0;
    while i < n
        invariant
            i <= n,
            w as int == exp_whole(i as nat),
            65536 <= w <= 4294901760,
        decreases n - i,
    {
        proof {
            lemma_exp_whole_bounds((i + 1) as nat);
        }
        let t: u64 = w * 178145 / 65536;
        w = if t > 4294901760 {
            4294901760
        } else {
            t
        };
        i = i + 1;
    }
    w
}

/// The capped fixed-point exponential of a nonnegative argument.
fn exp_fp_x(t: u64) -> (r: u64)
    requires
        t <= LIMIT as u64,
    ensures
        r as int == exp_fp(t as int),
        SCALE as u64 <= r <= EXP_MAX as u64,
{
    if t >= 786432 {
        return 4294901760;
    }
    let n: u64 = t / 65536;
    let f: u64 = t % 65536;
    let w: u64 = exp_whole_x(n);
    let fr: u64 = exp_frac_x(f);
    proof {
        lemma_exp_taylor_bounds(f as int, 12);
        assert(w as int * 65536 <= w as int * fr as int <= 4294901760 * 851968)
            by (nonlinear_arith)
            requires
                65536 <= fr as int <= 851968,
                0 <= w as int <= 4294901760,
        ;
        lemma_div_is_ordered(w as int * 65536, w as int * fr as int, 65536);
        lemma_div_multiples_vanish(w as int, 65536);
        assert(65536 * w as int == w as int * 65536);
    }
    let p: u64 = w * fr / 65536;
    if p > 4294901760 {
        4294901760
    } else {
        p
    }
}

/// Logistic sigmoid: `1 / (1 + e^(-x))`.
pub struct Sigmoid;

impl Activation for Sigmoid {
    open spec fn sigma_spec(x: int) -> int {
        sigmoid_of(x)
    }

    open spec fn dsigma_spec(x: int) -> int {
        fp_mul(sigmoid_of(x), fp_sub(SCALE as int, sigmoid_of(x)))
    }

    open spec fn dsigma_of_y_spec(y: int) -> int {
        fp_mul(y, fp_sub(SCALE as int, y))
    }

    fn sigma(x: i64) -> (r: i64) {
        proof {
            lemma_sigmoid_of_range(x as int);
        }
        if x >= 0 {
            let e: u64 = exp_fp_x(x as u64);
            let s: u64 = 65536 * e / (65536 + e);
            s as i64
        } else {
            let e: u64 = exp_fp_x((-x) as u64);
            let s: u64 = 65536 * 65536 / (65536 + e);
            s as i64
        }
    }

    fn dsigma(x: i64) -> (r: i64) {
        let y: i64 = Self::sigma(x);
        Self::dsigma_of_y(y)
    }

    fn dsigma_of_y(y: i64) -> (r: i64) {
        mul_fp(y, sub_fp(SCALE, y))
    }
}

/// The activation lifted elementwise over a vector.
pub open spec fn act_vec<A: Activation>(v: Seq<int>) -> Seq<int> {
    Seq::new(v.len(), |i: int| A::sigma_spec(v[i]))
}

/// One layer of the forward pass: the affine map `w * x + b` followed by the
/// elementwise activation.
pub open spec fn layer<A: Activation>(w: Seq<Seq<int>>, b: Seq<int>, x: Seq<int>) -> Seq<int> {
    act_vec::<A>(affine(w, x, b))
}

/// Executable elementwise activation of a vector.
pub fn act_vec_x<A: Activation>(v: &Vec<i64>) -> (r: Vec<i64>)
    requires
        vec_fits(vview(*v)),
    ensures
        vview(r) == act_vec::<A>(vview(*v)),
        r@.len() == v@.len(),
        vec_fits(vview(r)),
{
    let mut out: Vec<i64> = Vec::new();
    let n: usize = v.len();
    for i in 0..n
        invariant
            n == v@.len(),
            vec_fits(vview(*v)),
            out@.len() == i,
            forall|j: int| 0 <= j < i ==> (#[trigger] out@[j]) as int == act_vec::<A>(vview(*v))[j],
            forall|j: int| 0 <= j < i ==> fits((#[trigger] out@[j]) as int),
    {
        proof {
            assert(vview(*v)[i as int] == v@[i as int] as int);
        }
        out.push(A::sigma(v[i]));
    }
    proof {
        assert forall|j: int| 0 <= j < out@.len() implies vview(out)[j] == out@[j] as int by {}
        assert(vview(out) =~= act_vec::<A>(vview(*v)));
    }
    out
}

/// Law: for the rectified linear unit, the input-based derivative at `x`
/// equals the output-based derivative at `sigma(x)`.
pub proof fn lemma_relu_derivative_convention(x: int)
    ensures
        <Relu as Activation>::dsigma_spec(x) == <Relu as Activation>::dsigma_of_y_spec(
            <Relu as Activation>::sigma_spec(x),
        ),
{
}

/// Law: for the sigmoid, the input-based derivative at `x` equals the
/// output-based derivative at `sigma(x)`.
pub proof fn lemma_sigmoid_derivative_convention(x: int)
    ensures
        <Sigmoid as Activation>::dsigma_spec(x) == <Sigmoid as Activation>::dsigma_of_y_spec(
            <Sigmoid as Activation>::sigma_spec(x),
        ),
{
}

} // verus!
