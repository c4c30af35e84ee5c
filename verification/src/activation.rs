//! Activation strategies.
//!
//! A strategy supplies the elementwise activation function, its derivative,
//! and the transform applied to the output layer (for most variants the
//! shared activation; a variant may substitute a normalization there). All
//! three preserve the shape of their input, and each executable transform
//! returns exactly the value of its specification function, so the engine's
//! contracts compose over them.

use vstd::prelude::*;

use crate::matrix::{lemma_grid_eq, Matrix};
use crate::scalar::{Fixed, Scalar, FIXED_SCALE};

verus! {

/// An activation-function variant: pure elementwise transforms over matrices
/// of the element type `T`, each pinned to its specification function.
///
/// The specification functions default to the identity so that a variant
/// written outside the verifier's view need not state them; such a variant's
/// transforms are then not described by the engine's contracts. Every
/// variant of this crate overrides all three.
pub trait ActivationStrategy<T: Scalar> {
    /// The value of `activation`.
    open spec fn act_s(x: Seq<Seq<T>>) -> Seq<Seq<T>> {
        x
    }

    /// The value of `activ_deriv`.
    open spec fn deriv_s(x: Seq<Seq<T>>) -> Seq<Seq<T>> {
        x
    }

    /// The value of `output_transform`.
    open spec fn out_s(x: Seq<Seq<T>>) -> Seq<Seq<T>> {
        x
    }

    /// The activation applied to the hidden layer.
    fn activation(x: Matrix<T>) -> (r: Matrix<T>)
        requires
            x.wf(),
        ensures
            r.wf(),
            r.rows == x.rows,
            r.cols == x.cols,
            r@ == Self::act_s(x@),
    ;

    /// The derivative of the activation, applied to the cached hidden layer.
    fn activ_deriv(x: &Matrix<T>) -> (r: Matrix<T>)
        requires
            x.wf(),
        ensures
            r.wf(),
            r.rows == x.rows,
            r.cols == x.cols,
            r@ == Self::deriv_s(x@),
    ;

    /// The transform applied to the output layer.
    fn output_transform(x: Matrix<T>) -> (r: Matrix<T>)
        requires
            x.wf(),
        ensures
            r.wf(),
            r.rows == x.rows,
            r.cols == x.cols,
            r@ == Self::out_s(x@),
    ;
}

/// The leak factor of the leaky-rectified activation: one hundredth.
pub const LEAK_UNITS: i64 = 100;

/// Leaky-rectified activation of one entry: the entry itself when positive,
/// otherwise the entry times the leak factor.
pub open spec fn leaky_of(e: Fixed) -> Fixed {
    if 0 < e.v {
        e
    } else {
        Fixed::mul_s(e, Fixed { v: LEAK_UNITS })
    }
}

/// Its derivative at one entry: one when positive, otherwise the leak factor.
pub open spec fn leaky_deriv_of(e: Fixed) -> Fixed {
    if 0 < e.v {
        Fixed { v: FIXED_SCALE }
    } else {
        Fixed { v: LEAK_UNITS }
    }
}

/// The leaky-rectified activation mapped over a grid.
pub open spec fn leaky_act_m(x: Seq<Seq<Fixed>>) -> Seq<Seq<Fixed>> {
    Seq::new(x.len(), |i: int| Seq::new(x[i].len(), |j: int| leaky_of(x[i][j])))
}

/// Its derivative mapped over a grid.
pub open spec fn leaky_deriv_m(x: Seq<Seq<Fixed>>) -> Seq<Seq<Fixed>> {
    Seq::new(x.len(), |i: int| Seq::new(x[i].len(), |j: int| leaky_deriv_of(x[i][j])))
}

/// The leaky-rectified activation variant over the fixed-point element.
/// Its output transform is the shared activation itself.
pub struct LeakyRelu;

/// Map the leaky activation (or, when `deriv` is set, its derivative) over
/// every entry of a matrix.
fn leaky_map(x: &Matrix<Fixed>, deriv: bool) -> (r: Matrix<Fixed>)
    requires
        x.wf(),
    ensures
        r.wf(),
        r.rows == x.rows,
        r.cols == x.cols,
        !deriv ==> r@ == leaky_act_m(x@),
        deriv ==> r@ == leaky_deriv_m(x@),
{
    let mut data: Vec<Fixed> = Vec::new();
    let mut n: usize = 0;
    let total: usize = x.data.len();
    while n < total
        invariant
            0 <= n <= total,
            x.wf(),
            total == x.data.len(),
            data@.len() == n,
            forall|k: int|
                0 <= k < n ==> #[trigger] data@[k] == (if deriv {
                    leaky_deriv_of(x.data@[k])
                } else {
                    leaky_of(x.data@[k])
                }),
        decreases total - n,
    {
        let e = x.data[n];
        let v: Fixed = if deriv {
            if 0 < e.v {
                Fixed { v: FIXED_SCALE }
            } else {
                Fixed { v: LEAK_UNITS }
            }
        } else {
            if 0 < e.v {
                e
            } else {
                Fixed::mul_v(e, Fixed { v: LEAK_UNITS })
            }
        };
        data.push(v);
        n = n + 1;
    }
    let r = Matrix { rows: x.rows, cols: x.cols, data };
    proof {
        let target = if deriv {
            leaky_deriv_m(x@)
        } else {
            leaky_act_m(x@)
        };
        assert forall|i: int, j: int|
            0 <= i < r.rows && 0 <= j < r.cols implies #[trigger] r@[i][j] == target[i][j] by {
            crate::matrix::lemma_flat_lt(i, j, r.rows as int, r.cols as int);
        }
        lemma_grid_eq(r@, target);
    }
    r
}

impl ActivationStrategy<Fixed> for LeakyRelu {
    open spec fn act_s(x: Seq<Seq<Fixed>>) -> Seq<Seq<Fixed>> {
        leaky_act_m(x)
    }

    open spec fn deriv_s(x: Seq<Seq<Fixed>>) -> Seq<Seq<Fixed>> {
        leaky_deriv_m(x)
    }

    open spec fn out_s(x: Seq<Seq<Fixed>>) -> Seq<Seq<Fixed>> {
        leaky_act_m(x)
    }

    fn activation(x: Matrix<Fixed>) -> (r: Matrix<Fixed>) {
        leaky_map(&x, false)
    }

    fn activ_deriv(x: &Matrix<Fixed>) -> (r: Matrix<Fixed>) {
        leaky_map(x, true)
    }

    fn output_transform(x: Matrix<Fixed>) -> (r: Matrix<Fixed>) {
        leaky_map(&x, false)
    }
}

/// The logistic shortcut derivative, d(a) = a·(1−a), is taken on an already
/// activated value a in [0, 1]. Writing a as the ratio p/s over a common
/// denominator s > 0, the derivative is p·(s−p)/s²: it is nonnegative, at
/// most one quarter, and attains one quarter exactly at a = 1/2.
pub proof fn lemma_logistic_derivative_bounds(p: int, s: int)
    requires
        0 <= p <= s,
        0 < s,
    ensures
        0 <= p * (s - p),
        4 * (p * (s - p)) <= s * s,
        4 * (p * (s - p)) == s * s <==> 2 * p == s,
{
    assert(0 <= p * (s - p) && 4 * (p * (s - p)) <= s * s && (4 * (p * (s - p)) == s * s <==> 2
        * p == s)) by (nonlinear_arith)
        requires
            0 <= p <= s,
            0 < s,
    ;
}

/// The hyperbolic-tangent derivative, d(v) = 1 − tanh(v)², taken on a value
/// tanh(v) strictly inside (−1, 1). Writing tanh(v) as the ratio t/s over a
/// common denominator s > 0, the derivative is (s² − t²)/s², which lies in
/// (0, 1].
pub proof fn lemma_tanh_derivative_bounds(t: int, s: int)
    requires
        -s < t < s,
        0 < s,
    ensures
        0 < s * s - t * t,
        s * s - t * t <= s * s,
{
    assert(0 < s * s - t * t && s * s - t * t <= s * s) by (nonlinear_arith)
        requires
            -s < t < s,
            0 < s,
    ;
}

} // verus!
