//! Dense vector and matrix primitives over fixed-point scalars.
//!
//! A vector is a `Vec<i64>`, a matrix a row-major `Vec<Vec<i64>>`.  The
//! mathematical model of a vector is a `Seq<int>` of the scaled values, and
//! every operation is specified against that model, accumulating in exactly
//! the order the executable loops do.

use vstd::prelude::*;
use crate::fixed::{add_fp, fits, fp_add, fp_mul, mul_fp, SCALE};

verus! {

/// The model of a vector: its elements as mathematical integers.
pub open spec fn vview(v: Vec<i64>) -> Seq<int> {
    v@.map(|i: int, x: i64| x as int)
}

/// The model of a row-major matrix.
pub open spec fn mview(m: Vec<Vec<i64>>) -> Seq<Seq<int>> {
    m@.map(|i: int, row: Vec<i64>| vview(row))
}

/// Every element is within the saturation bound.
pub open spec fn vec_fits(s: Seq<int>) -> bool {
    forall|k: int| 0 <= k < s.len() ==> fits(#[trigger] s[k])
}

/// Every row's elements are within the saturation bound.
pub open spec fn mat_fits(m: Seq<Seq<int>>) -> bool {
    forall|r: int| 0 <= r < m.len() ==> vec_fits(#[trigger] m[r])
}

/// Every element lies in `[0, SCALE)`: a fixed-point value in `[0, 1)`.
pub open spec fn vec_in_unit(s: Seq<int>) -> bool {
    forall|k: int| 0 <= k < s.len() ==> 0 <= #[trigger] s[k] < SCALE as int
}

/// Every row's elements lie in `[0, SCALE)`.
pub open spec fn mat_in_unit(m: Seq<Seq<int>>) -> bool {
    forall|r: int| 0 <= r < m.len() ==> vec_in_unit(#[trigger] m[r])
}

/// How a vector's model indexes: element by element, as integers.
pub proof fn lemma_vview_index(v: Vec<i64>)
    ensures
        vview(v).len() == v@.len(),
        forall|k: int| 0 <= k < v@.len() ==> #[trigger] vview(v)[k] == v@[k] as int,
{
    assert forall|k: int| 0 <= k < v@.len() implies #[trigger] vview(v)[k] == v@[k] as int by {}
}

/// How a matrix's model indexes: row by row.
pub proof fn lemma_mview_index(m: Vec<Vec<i64>>)
    ensures
        mview(m).len() == m@.len(),
        forall|j: int| 0 <= j < m@.len() ==> #[trigger] mview(m)[j] == vview(m@[j]),
{
    assert forall|j: int| 0 <= j < m@.len() implies #[trigger] mview(m)[j] == vview(m@[j]) by {}
}

/// Every element is zero.
pub open spec fn all_zero(s: Seq<int>) -> bool {
    forall|k: int| 0 <= k < s.len() ==> #[trigger] s[k] == 0
}

/// Every row's elements are zero.
pub open spec fn mat_all_zero(m: Seq<Seq<int>>) -> bool {
    forall|r: int| 0 <= r < m.len() ==> all_zero(#[trigger] m[r])
}

/// The saturating dot product of the first `n` components, accumulated left
/// to right.
pub open spec fn dot_prefix(row: Seq<int>, v: Seq<int>, n: nat) -> int
    decreases n,
{
    if n == 0 {
        0
    } else {
        fp_add(dot_prefix(row, v, (n - 1) as nat), fp_mul(row[n - 1], v[n - 1]))
    }
}

/// The saturating dot product of a matrix row with a vector.
pub open spec fn dot(row: Seq<int>, v: Seq<int>) -> int {
    dot_prefix(row, v, v.len())
}

/// The saturating dot product of matrix column `c` (over the first `n` rows)
/// with a vector: what backpropagation uses to push errors through the
/// transpose of a weight matrix.
pub open spec fn col_dot_prefix(m: Seq<Seq<int>>, v: Seq<int>, n: nat, c: int) -> int
    decreases n,
{
    if n == 0 {
        0
    } else {
        fp_add(col_dot_prefix(m, v, (n - 1) as nat, c), fp_mul(m[n - 1][c], v[n - 1]))
    }
}

/// The saturating dot product of matrix column `c` with a vector.
pub open spec fn col_dot(m: Seq<Seq<int>>, v: Seq<int>, c: int) -> int {
    col_dot_prefix(m, v, m.len(), c)
}

/// The affine map `w * x + b`, row by row.
pub open spec fn affine(w: Seq<Seq<int>>, x: Seq<int>, b: Seq<int>) -> Seq<int> {
    Seq::new(w.len(), |r: int| fp_add(dot(w[r], x), b[r]))
}

/// A dot product of only zeros is zero.
pub proof fn lemma_dot_prefix_zero_row(row: Seq<int>, v: Seq<int>, n: nat)
    requires
        forall|k: int| 0 <= k < n ==> #[trigger] row[k] == 0,
    ensures
        dot_prefix(row, v, n) == 0,
    decreases n,
{
    if n != 0 {
        lemma_dot_prefix_zero_row(row, v, (n - 1) as nat);
        vstd::arithmetic::div_mod::lemma_div_of0(65536);
        assert(fp_mul(0, v[n - 1]) == 0);
    }
}

/// Executable dot product of a row with a vector.
pub fn dot_x(row: &Vec<i64>, v: &Vec<i64>) -> (r: i64)
    requires
        row@.len() == v@.len(),
        vec_fits(vview(*row)),
        vec_fits(vview(*v)),
    ensures
        r as int == dot(vview(*row), vview(*v)),
        fits(r as int),
{
    let mut acc: i64 = 0;
    let n: usize = v.len();
    for k in 0..n
        invariant
            n == v@.len(),
            row@.len() == v@.len(),
            vec_fits(vview(*row)),
            vec_fits(vview(*v)),
            acc as int == dot_prefix(vview(*row), vview(*v), k as nat),
            fits(acc as int),
    {
        proof {
            assert(vview(*row)[k as int] == row@[k as int] as int);
            assert(vview(*v)[k as int] == v@[k as int] as int);
        }
        acc = add_fp(acc, mul_fp(row[k], v[k]));
    }
    acc
}

/// Executable affine map `w * x + b`.
pub fn affine_x(w: &Vec<Vec<i64>>, x: &Vec<i64>, b: &Vec<i64>) -> (r: Vec<i64>)
    requires
        w@.len() == b@.len(),
        forall|i: int| 0 <= i < w@.len() ==> (#[trigger] w@[i])@.len() == x@.len(),
        mat_fits(mview(*w)),
        vec_fits(vview(*x)),
        vec_fits(vview(*b)),
    ensures
        vview(r) == affine(mview(*w), vview(*x), vview(*b)),
        r@.len() == w@.len(),
        vec_fits(vview(r)),
{
    let mut out: Vec<i64> = Vec::new();
    let rows: usize = w.len();
    for i in 0..rows
        invariant
            rows == w@.len(),
            w@.len() == b@.len(),
            forall|j: int| 0 <= j < w@.len() ==> (#[trigger] w@[j])@.len() == x@.len(),
            mat_fits(mview(*w)),
            vec_fits(vview(*x)),
            vec_fits(vview(*b)),
            out@.len() == i,
            forall|j: int| 0 <= j < i ==> (#[trigger] out@[j]) as int == affine(
                mview(*w),
                vview(*x),
                vview(*b),
            )[j],
            forall|j: int| 0 <= j < i ==> fits((#[trigger] out@[j]) as int),
    {
        proof {
            assert(mview(*w)[i as int] == vview(w@[i as int]));
            assert(vview(*b)[i as int] == b@[i as int] as int);
        }
        let d: i64 = dot_x(&w[i], x);
        let e: i64 = add_fp(d, b[i]);
        out.push(e);
    }
    proof {
        assert forall|j: int| 0 <= j < out@.len() implies vview(out)[j] == out@[j] as int by {}
        assert(vview(out) =~= affine(mview(*w), vview(*x), vview(*b)));
    }
    out
}

} // verus!
