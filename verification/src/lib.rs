//! A minimal fully-connected neural network: one hidden layer, fixed widths
//! chosen at construction, a pluggable elementwise activation, and an online
//! (per-sample) gradient-descent training step by backpropagation.
//!
//! All arithmetic is saturating fixed-point over scaled 64-bit integers (see
//! `fixed`), so every operation is total and every result is pinned down
//! exactly by the spec functions below.

pub mod activation;
pub mod fixed;
pub mod linear;
pub mod random;

use vstd::prelude::*;
use core::marker::PhantomData;
use crate::activation::{act_vec_x, layer, lemma_sigmoid_of_range, Activation, Relu, Sigmoid};
use crate::fixed::{fits, fp_add, fp_mul, fp_sub, sub_fp, add_fp, mul_fp, LEARNING_RATE, SCALE};
use crate::linear::{
    affine, affine_x, all_zero, col_dot, col_dot_prefix, lemma_dot_prefix_zero_row,
    lemma_mview_index, lemma_vview_index, mat_all_zero, mat_fits, mat_in_unit, mview, vec_fits,
    vec_in_unit, vview,
};
use crate::random::random_unit;

verus! {

/// The network: four parameter containers whose shapes are fixed by the
/// widths chosen at construction, and an activation bound for the lifetime
/// of the instance.
pub struct MachineLearner<A: Activation> {
    /// Input width I.
    pub n_inputs: usize,
    /// Hidden width H.
    pub n_hidden: usize,
    /// Output width O.
    pub n_outputs: usize,
    /// Hidden biases, length H.
    pub bias_h: Vec<i64>,
    /// Input-to-hidden weights, H rows of length I.
    pub weight_ih: Vec<Vec<i64>>,
    /// Output biases, length O.
    pub bias_o: Vec<i64>,
    /// Hidden-to-output weights, O rows of length H.
    pub weight_ho: Vec<Vec<i64>>,
    /// The activation, bound statically.
    pub activation: PhantomData<A>,
}

impl<A: Activation> MachineLearner<A> {
    /// Shape consistency with (I, H, O), and every parameter in range.
    pub open spec fn wf(self) -> bool {
        &&& self.bias_h@.len() == self.n_hidden
        &&& self.weight_ih@.len() == self.n_hidden
        &&& forall|r: int|
            0 <= r < self.n_hidden ==> (#[trigger] self.weight_ih@[r])@.len() == self.n_inputs
        &&& self.bias_o@.len() == self.n_outputs
        &&& self.weight_ho@.len() == self.n_outputs
        &&& forall|r: int|
            0 <= r < self.n_outputs ==> (#[trigger] self.weight_ho@[r])@.len() == self.n_hidden
        &&& vec_fits(vview(self.bias_h))
        &&& mat_fits(mview(self.weight_ih))
        &&& vec_fits(vview(self.bias_o))
        &&& mat_fits(mview(self.weight_ho))
    }

    /// The hidden activations of the forward pass on input `x`.
    pub open spec fn hidden_of(self, x: Seq<int>) -> Seq<int> {
        layer::<A>(mview(self.weight_ih), vview(self.bias_h), x)
    }

    /// The output activations of the forward pass on input `x`.
    pub open spec fn output_of(self, x: Seq<int>) -> Seq<int> {
        layer::<A>(mview(self.weight_ho), vview(self.bias_o), self.hidden_of(x))
    }

    /// Elementwise output error `t - a_o`.
    pub open spec fn output_errors_of(self, x: Seq<int>, t: Seq<int>) -> Seq<int> {
        Seq::new(self.n_outputs as nat, |j: int| fp_sub(t[j], self.output_of(x)[j]))
    }

    /// Output-layer gradient: the output-based activation derivative times the
    /// error, scaled by the learning rate.
    pub open spec fn output_gradients_of(self, x: Seq<int>, t: Seq<int>) -> Seq<int> {
        Seq::new(
            self.n_outputs as nat,
            |j: int|
                fp_mul(
                    fp_mul(
                        A::dsigma_of_y_spec(self.output_of(x)[j]),
                        self.output_errors_of(x, t)[j],
                    ),
                    LEARNING_RATE as int,
                ),
        )
    }

    /// Hidden-layer error: the output errors pushed back through the
    /// transpose of the *pre-update* hidden-to-output weights.
    pub open spec fn hidden_errors_of(self, x: Seq<int>, t: Seq<int>) -> Seq<int> {
        Seq::new(
            self.n_hidden as nat,
            |k: int| col_dot(mview(self.weight_ho), self.output_errors_of(x, t), k),
        )
    }

    /// Hidden-layer gradient, under the same output-based derivative
    /// convention as the output layer.
    pub open spec fn hidden_gradients_of(self, x: Seq<int>, t: Seq<int>) -> Seq<int> {
        Seq::new(
            self.n_hidden as nat,
            |k: int|
                fp_mul(
                    fp_mul(
                        A::dsigma_of_y_spec(self.hidden_of(x)[k]),
                        self.hidden_errors_of(x, t)[k],
                    ),
                    LEARNING_RATE as int,
                ),
        )
    }

    /// The hidden-to-output weights after one training step: each entry moved
    /// by the outer product of output gradient and hidden activation.
    pub open spec fn weight_ho_after(self, x: Seq<int>, t: Seq<int>) -> Seq<Seq<int>> {
        Seq::new(
            self.n_outputs as nat,
            |j: int|
                Seq::new(
                    self.n_hidden as nat,
                    |k: int|
                        fp_add(
                            mview(self.weight_ho)[j][k],
                            fp_mul(self.output_gradients_of(x, t)[j], self.hidden_of(x)[k]),
                        ),
                ),
        )
    }

    /// The output biases after one training step.
    pub open spec fn bias_o_after(self, x: Seq<int>, t: Seq<int>) -> Seq<int> {
        Seq::new(
            self.n_outputs as nat,
            |j: int| fp_add(vview(self.bias_o)[j], self.output_gradients_of(x, t)[j]),
        )
    }

    /// The input-to-hidden weights after one training step.
    pub open spec fn weight_ih_after(self, x: Seq<int>, t: Seq<int>) -> Seq<Seq<int>> {
        Seq::new(
            self.n_hidden as nat,
            |k: int|
                Seq::new(
                    self.n_inputs as nat,
                    |i: int|
                        fp_add(
                            mview(self.weight_ih)[k][i],
                            fp_mul(self.hidden_gradients_of(x, t)[k], x[i]),
                        ),
                ),
        )
    }

    /// The hidden biases after one training step.
    pub open spec fn bias_h_after(self, x: Seq<int>, t: Seq<int>) -> Seq<int> {
        Seq::new(
            self.n_hidden as nat,
            |k: int| fp_add(vview(self.bias_h)[k], self.hidden_gradients_of(x, t)[k]),
        )
    }

    /// Construct a network of the given widths, every weight and bias drawn
    /// independently and uniformly from `[0, 1)` (that is, `[0, SCALE)` in
    /// fixed point) out of the supplied random source.
    pub fn new(
        n_inputs: usize,
        n_hidden: usize,
        n_outputs: usize,
        rng: &mut rand::rngs::StdRng,
    ) -> (r: Self)
        ensures
            r.wf(),
            r.n_inputs == n_inputs,
            r.n_hidden == n_hidden,
            r.n_outputs == n_outputs,
            vec_in_unit(vview(r.bias_h)),
            mat_in_unit(mview(r.weight_ih)),
            vec_in_unit(vview(r.bias_o)),
            mat_in_unit(mview(r.weight_ho)),
    {
        let bias_h = random_vec(n_hidden, rng);
        let weight_ih = random_matrix(n_hidden, n_inputs, rng);
        let bias_o = random_vec(n_outputs, rng);
        let weight_ho = random_matrix(n_outputs, n_hidden, rng);
        let r = MachineLearner {
            n_inputs,
            n_hidden,
            n_outputs,
            bias_h,
            weight_ih,
            bias_o,
            weight_ho,
            activation: PhantomData,
        };
        proof {
            lemma_vview_index(r.bias_h);
            lemma_vview_index(r.bias_o);
            lemma_mview_index(r.weight_ih);
            lemma_mview_index(r.weight_ho);
            assert forall|j: int| 0 <= j < r.weight_ih@.len() implies vec_in_unit(
                #[trigger] mview(r.weight_ih)[j],
            ) by {
                lemma_vview_index(r.weight_ih@[j]);
            }
            assert forall|j: int| 0 <= j < r.weight_ho@.len() implies vec_in_unit(
                #[trigger] mview(r.weight_ho)[j],
            ) by {
                lemma_vview_index(r.weight_ho@[j]);
            }
            assert forall|j: int| 0 <= j < r.weight_ih@.len() implies vec_fits(
                #[trigger] mview(r.weight_ih)[j],
            ) by {
                lemma_vview_index(r.weight_ih@[j]);
            }
            assert forall|j: int| 0 <= j < r.weight_ho@.len() implies vec_fits(
                #[trigger] mview(r.weight_ho)[j],
            ) by {
                lemma_vview_index(r.weight_ho@[j]);
            }
        }
        r
    }

    /// The forward pass: returns the hidden activations (needed by training)
    /// and the output activations.  Never mutates the network.
    pub fn feed_forward(&self, inputs: &Vec<i64>) -> (r: (Vec<i64>, Vec<i64>))
        requires
            self.wf(),
            inputs@.len() == self.n_inputs,
            vec_fits(vview(*inputs)),
        ensures
            vview(r.0) == self.hidden_of(vview(*inputs)),
            vview(r.1) == self.output_of(vview(*inputs)),
            r.0@.len() == self.n_hidden,
            r.1@.len() == self.n_outputs,
            vec_fits(vview(r.0)),
            vec_fits(vview(r.1)),
    {
        let z_h = affine_x(&self.weight_ih, inputs, &self.bias_h);
        let a_h = act_vec_x::<A>(&z_h);
        let z_o = affine_x(&self.weight_ho, &a_h, &self.bias_o);
        let a_o = act_vec_x::<A>(&z_o);
        (a_h, a_o)
    }

    /// The prediction for one input: a pure function of the network state and
    /// the input, as the `ensures` pins the result to `output_of`, and the
    /// shared receiver leaves the parameters untouched.
    pub fn predict(&self, inputs: &Vec<i64>) -> (r: Vec<i64>)
        requires
            self.wf(),
            inputs@.len() == self.n_inputs,
            vec_fits(vview(*inputs)),
        ensures
            vview(r) == self.output_of(vview(*inputs)),
            r@.len() == self.n_outputs,
            vec_fits(vview(r)),
    {
        let pair = self.feed_forward(inputs);
        pair.1
    }

    /// One online gradient-descent step on a single (input, target) sample.
    ///
    /// The hidden errors are computed from the hidden-to-output weights as
    /// they stood *before* this step's update, and the same output-based
    /// derivative convention is applied at both layers.
    #[verifier::loop_isolation(false)]
    #[verifier::rlimit(100)]
    pub fn train(&mut self, inputs: &Vec<i64>, targets: &Vec<i64>)
        requires
            old(self).wf(),
            inputs@.len() == old(self).n_inputs,
            targets@.len() == old(self).n_outputs,
            vec_fits(vview(*inputs)),
            vec_fits(vview(*targets)),
        ensures
            final(self).wf(),
            final(self).n_inputs == old(self).n_inputs,
            final(self).n_hidden == old(self).n_hidden,
            final(self).n_outputs == old(self).n_outputs,
            mview(final(self).weight_ho) == old(self).weight_ho_after(
                vview(*inputs),
                vview(*targets),
            ),
            vview(final(self).bias_o) == old(self).bias_o_after(vview(*inputs), vview(*targets)),
            mview(final(self).weight_ih) == old(self).weight_ih_after(
                vview(*inputs),
                vview(*targets),
            ),
            vview(final(self).bias_h) == old(self).bias_h_after(vview(*inputs), vview(*targets)),
    {
        let ghost x = vview(*inputs);
        let ghost t = vview(*targets);
        let pair = self.feed_forward(inputs);
        let a_h = pair.0;
        let a_o = pair.1;
        let n_i: usize = self.n_inputs;
        let n_h: usize = self.n_hidden;
        let n_o: usize = self.n_outputs;
        proof {
            lemma_vview_index(*inputs);
            lemma_vview_index(*targets);
            lemma_vview_index(a_h);
            lemma_vview_index(a_o);
            lemma_mview_index(self.weight_ih);
            lemma_mview_index(self.weight_ho);
        }

        let mut output_errors: Vec<i64> = Vec::new();
        for j in 0..n_o
            invariant
                output_errors@.len() == j,
                forall|q: int|
                    0 <= q < j ==> (#[trigger] output_errors@[q]) as int
                        == old(self).output_errors_of(x, t)[q],
                forall|q: int| 0 <= q < j ==> fits((#[trigger] output_errors@[q]) as int),
        {
            proof {
                assert(fits(vview(*targets)[j as int]));
                assert(fits(vview(a_o)[j as int]));
            }
            output_errors.push(sub_fp(targets[j], a_o[j]));
        }

        let mut gradients: Vec<i64> = Vec::new();
        for j in 0..n_o
            invariant
                gradients@.len() == j,
                forall|q: int|
                    0 <= q < j ==> (#[trigger] gradients@[q]) as int
                        == old(self).output_gradients_of(x, t)[q],
                forall|q: int| 0 <= q < j ==> fits((#[trigger] gradients@[q]) as int),
        {
            proof {
                assert(fits(vview(a_o)[j as int]));
            }
            let d: i64 = A::dsigma_of_y(a_o[j]);
            gradients.push(mul_fp(mul_fp(d, output_errors[j]), LEARNING_RATE));
        }

        let mut hidden_errors: Vec<i64> = Vec::new();
        for k in 0..n_h
            invariant
                hidden_errors@.len() == k,
                forall|q: int|
                    0 <= q < k ==> (#[trigger] hidden_errors@[q]) as int
                        == old(self).hidden_errors_of(x, t)[q],
                forall|q: int| 0 <= q < k ==> fits((#[trigger] hidden_errors@[q]) as int),
        {
            let mut acc: i64 = 0;
            for j in 0..n_o
                invariant
                    acc as int == col_dot_prefix(
                        mview(self.weight_ho),
                        old(self).output_errors_of(x, t),
                        j as nat,
                        k as int,
                    ),
                    fits(acc as int),
                    k < n_h,
            {
                proof {
                    lemma_vview_index(self.weight_ho@[j as int]);
                    assert(fits(mview(self.weight_ho)[j as int][k as int]));
                }
                acc = add_fp(acc, mul_fp(self.weight_ho[j][k], output_errors[j]));
            }
            hidden_errors.push(acc);
        }

        let mut hidden_gradients: Vec<i64> = Vec::new();
        for k in 0..n_h
            invariant
                hidden_gradients@.len() == k,
                forall|q: int|
                    0 <= q < k ==> (#[trigger] hidden_gradients@[q]) as int
                        == old(self).hidden_gradients_of(x, t)[q],
                forall|q: int| 0 <= q < k ==> fits((#[trigger] hidden_gradients@[q]) as int),
        {
            proof {
                assert(fits(vview(a_h)[k as int]));
            }
            let d: i64 = A::dsigma_of_y(a_h[k]);
            hidden_gradients.push(mul_fp(mul_fp(d, hidden_errors[k]), LEARNING_RATE));
        }

        let mut new_weight_ho: Vec<Vec<i64>> = Vec::new();
        for j in 0..n_o
            invariant
                new_weight_ho@.len() == j,
                forall|q: int| 0 <= q < j ==> (#[trigger] new_weight_ho@[q])@.len() == n_h,
                forall|q: int, c: int|
                    0 <= q < j && 0 <= c < n_h ==> (#[trigger] new_weight_ho@[q]@[c]) as int
                        == old(self).weight_ho_after(x, t)[q][c],
                forall|q: int, c: int|
                    0 <= q < j && 0 <= c < n_h ==> fits((#[trigger] new_weight_ho@[q]@[c]) as int),
        {
            let mut row: Vec<i64> = Vec::new();
            for c in 0..n_h
                invariant
                    row@.len() == c,
                    forall|p: int|
                        0 <= p < c ==> (#[trigger] row@[p]) as int == old(self).weight_ho_after(
                            x,
                            t,
                        )[j as int][p],
                    forall|p: int| 0 <= p < c ==> fits((#[trigger] row@[p]) as int),
                    j < n_o,
            {
                proof {
                    lemma_vview_index(self.weight_ho@[j as int]);
                    assert(fits(mview(self.weight_ho)[j as int][c as int]));
                    assert(fits(vview(a_h)[c as int]));
                }
                row.push(add_fp(self.weight_ho[j][c], mul_fp(gradients[j], a_h[c])));
            }
            new_weight_ho.push(row);
        }

        let mut new_bias_o: Vec<i64> = Vec::new();
        for j in 0..n_o
            invariant
                new_bias_o@.len() == j,
                forall|q: int|
                    0 <= q < j ==> (#[trigger] new_bias_o@[q]) as int == old(self).bias_o_after(
                        x,
                        t,
                    )[q],
                forall|q: int| 0 <= q < j ==> fits((#[trigger] new_bias_o@[q]) as int),
        {
            proof {
                lemma_vview_index(self.bias_o);
                assert(fits(vview(self.bias_o)[j as int]));
            }
            new_bias_o.push(add_fp(self.bias_o[j], gradients[j]));
        }

        let mut new_weight_ih: Vec<Vec<i64>> = Vec::new();
        for k in 0..n_h
            invariant
                new_weight_ih@.len() == k,
                forall|q: int| 0 <= q < k ==> (#[trigger] new_weight_ih@[q])@.len() == n_i,
                forall|q: int, c: int|
                    0 <= q < k && 0 <= c < n_i ==> (#[trigger] new_weight_ih@[q]@[c]) as int
                        == old(self).weight_ih_after(x, t)[q][c],
                forall|q: int, c: int|
                    0 <= q < k && 0 <= c < n_i ==> fits((#[trigger] new_weight_ih@[q]@[c]) as int),
        {
            let mut row: Vec<i64> = Vec::new();
            for c in 0..n_i
                invariant
                    row@.len() == c,
                    forall|p: int|
                        0 <= p < c ==> (#[trigger] row@[p]) as int == old(self).weight_ih_after(
                            x,
                            t,
                        )[k as int][p],
                    forall|p: int| 0 <= p < c ==> fits((#[trigger] row@[p]) as int),
                    k < n_h,
            {
                proof {
                    lemma_vview_index(self.weight_ih@[k as int]);
                    assert(fits(mview(self.weight_ih)[k as int][c as int]));
                    assert(fits(vview(*inputs)[c as int]));
                }
                row.push(add_fp(self.weight_ih[k][c], mul_fp(hidden_gradients[k], inputs[c])));
            }
            new_weight_ih.push(row);
        }

        let mut new_bias_h: Vec<i64> = Vec::new();
        for k in 0..n_h
            invariant
                new_bias_h@.len() == k,
                forall|q: int|
                    0 <= q < k ==> (#[trigger] new_bias_h@[q]) as int == old(self).bias_h_after(
                        x,
                        t,
                    )[q],
                forall|q: int| 0 <= q < k ==> fits((#[trigger] new_bias_h@[q]) as int),
        {
            proof {
                lemma_vview_index(self.bias_h);
                assert(fits(vview(self.bias_h)[k as int]));
            }
            new_bias_h.push(add_fp(self.bias_h[k], hidden_gradients[k]));
        }

        self.weight_ho = new_weight_ho;
        self.bias_o = new_bias_o;
        self.weight_ih = new_weight_ih;
        self.bias_h = new_bias_h;

        proof {
            lemma_vview_index(self.bias_o);
            lemma_vview_index(self.bias_h);
            lemma_mview_index(self.weight_ho);
            lemma_mview_index(self.weight_ih);
            assert forall|j: int| 0 <= j < self.weight_ho@.len() implies #[trigger] mview(
                self.weight_ho,
            )[j] =~= old(self).weight_ho_after(x, t)[j] by {
                lemma_vview_index(self.weight_ho@[j]);
            }
            assert(mview(self.weight_ho) =~= old(self).weight_ho_after(x, t));
            assert forall|k: int| 0 <= k < self.weight_ih@.len() implies #[trigger] mview(
                self.weight_ih,
            )[k] =~= old(self).weight_ih_after(x, t)[k] by {
                lemma_vview_index(self.weight_ih@[k]);
            }
            assert(mview(self.weight_ih) =~= old(self).weight_ih_after(x, t));
            assert(vview(self.bias_o) =~= old(self).bias_o_after(x, t));
            assert(vview(self.bias_h) =~= old(self).bias_h_after(x, t));
            assert forall|j: int| 0 <= j < self.weight_ho@.len() implies vec_fits(
                #[trigger] mview(self.weight_ho)[j],
            ) by {
                lemma_vview_index(self.weight_ho@[j]);
            }
            assert forall|k: int| 0 <= k < self.weight_ih@.len() implies vec_fits(
                #[trigger] mview(self.weight_ih)[k],
            ) by {
                lemma_vview_index(self.weight_ih@[k]);
            }
        }
    }
}

/// A vector of the given length, each element drawn uniformly from
/// `[0, SCALE)`.
fn random_vec(len: usize, rng: &mut rand::rngs::StdRng) -> (r: Vec<i64>)
    ensures
        r@.len() == len,
        forall|k: int| 0 <= k < len ==> 0 <= #[trigger] r@[k] < SCALE,
{
    let mut out: Vec<i64> = Vec::new();
    for i in 0..len
        invariant
            out@.len() == i,
            forall|k: int| 0 <= k < i ==> 0 <= #[trigger] out@[k] < SCALE,
    {
        out.push(random_unit(rng));
    }
    out
}

/// A row-major matrix of the given shape, each element drawn uniformly from
/// `[0, SCALE)`.
fn random_matrix(rows: usize, cols: usize, rng: &mut rand::rngs::StdRng) -> (r: Vec<Vec<i64>>)
    ensures
        r@.len() == rows,
        forall|j: int| 0 <= j < rows ==> (#[trigger] r@[j])@.len() == cols,
        forall|j: int, k: int| 0 <= j < rows && 0 <= k < cols ==> 0 <= #[trigger] r@[j]@[k] < SCALE,
{
    let mut out: Vec<Vec<i64>> = Vec::new();
    for i in 0..rows
        invariant
            out@.len() == i,
            forall|j: int| 0 <= j < i ==> (#[trigger] out@[j])@.len() == cols,
            forall|j: int, k: int| 0 <= j < i && 0 <= k < cols ==> 0 <= #[trigger] out@[j]@[k] < SCALE,
    {
        out.push(random_vec(cols, rng));
    }
    out
}

/// Law: with the rectified linear unit and all parameters zero, the forward
/// pass yields an all-zero output for every input of the right width, since
/// `max(0, 0) = 0` propagates through both layers.
pub proof fn lemma_relu_zero_network(net: MachineLearner<Relu>, x: Seq<int>)
    requires
        net.wf(),
        x.len() == net.n_inputs,
        all_zero(vview(net.bias_h)),
        mat_all_zero(mview(net.weight_ih)),
        all_zero(vview(net.bias_o)),
        mat_all_zero(mview(net.weight_ho)),
    ensures
        net.output_of(x).len() == net.n_outputs,
        all_zero(net.output_of(x)),
{
    let h = net.hidden_of(x);
    assert forall|k: int| 0 <= k < h.len() implies #[trigger] h[k] == 0 by {
        lemma_dot_prefix_zero_row(mview(net.weight_ih)[k], x, x.len());
        assert(affine(mview(net.weight_ih), x, vview(net.bias_h))[k] == fp_add(
            0,
            vview(net.bias_h)[k],
        ));
    }
    assert forall|j: int| 0 <= j < net.output_of(x).len() implies #[trigger] net.output_of(x)[j]
        == 0 by {
        lemma_dot_prefix_zero_row(mview(net.weight_ho)[j], h, h.len());
        assert(affine(mview(net.weight_ho), h, vview(net.bias_o))[j] == fp_add(
            0,
            vview(net.bias_o)[j],
        ));
    }
}

/// Law: with the sigmoid activation, every element of the forward pass's
/// output lies strictly between 0 and `SCALE` — strictly inside (0, 1) —
/// whatever the parameters and the input.
pub proof fn lemma_sigmoid_output_range(net: MachineLearner<Sigmoid>, x: Seq<int>)
    ensures
        forall|j: int|
            0 <= j < net.output_of(x).len() ==> 0 < #[trigger] net.output_of(x)[j] < SCALE as int,
{
    let h = net.hidden_of(x);
    let z = affine(mview(net.weight_ho), h, vview(net.bias_o));
    assert forall|j: int| 0 <= j < net.output_of(x).len() implies 0 < #[trigger] net.output_of(
        x,
    )[j] < SCALE as int by {
        lemma_sigmoid_of_range(z[j]);
    }
}

} // verus!
