//! The network state and the training and inference engine.
//!
//! A [`Network`] owns two weight matrices, two bias vectors and two
//! layer-activation caches. Forward propagation, backpropagation, the epoch
//! loop and inference are each pinned to a specification function over the
//! network's view, composed from the matrix algebra of [`crate::matrix`] and
//! the strategy's transforms, so the exact value of every weight after any
//! training run is determined by the contracts.
//!
//! Two deliberate quirks of this engine are fixed by its contracts rather
//! than smoothed over: the output weights are updated first and the hidden
//! delta is then computed from the already-updated output weights (not the
//! textbook pre-update ones), and the same difference form `output − label`
//! serves as the output error for every activation variant, even though it
//! is the exact loss gradient only for the softmax pairing.

use vstd::prelude::*;

use crate::activation::ActivationStrategy;
use crate::matrix::{
    add_m, col_mat_s, col_s, const_m, had_m, mm_s, scale_m, sub_m, transpose_m, Matrix,
};
use crate::scalar::{lt_is_total_order, Scalar};

verus! {

/// The mathematical view of a network: six grids of elements.
pub ghost struct NetView<T> {
    /// Hidden-layer weights.
    pub hw: Seq<Seq<T>>,
    /// Hidden-layer bias.
    pub hb: Seq<Seq<T>>,
    /// Output-layer weights.
    pub ow: Seq<Seq<T>>,
    /// Output-layer bias.
    pub ob: Seq<Seq<T>>,
    /// Hidden-layer activation cache.
    pub hl: Seq<Seq<T>>,
    /// Output-layer activation cache.
    pub ol: Seq<Seq<T>>,
}

/// A one-hidden-layer network: weights, biases, and the two activation
/// caches written by the last forward pass.
pub struct Network<T> {
    pub hidden_weights: Matrix<T>,
    pub hidden_bias: Matrix<T>,
    pub output_weights: Matrix<T>,
    pub output_bias: Matrix<T>,
    pub hidden_layer: Matrix<T>,
    pub output_layer: Matrix<T>,
}

impl<T> View for Network<T> {
    type V = NetView<T>;

    open spec fn view(&self) -> NetView<T> {
        NetView {
            hw: self.hidden_weights@,
            hb: self.hidden_bias@,
            ow: self.output_weights@,
            ob: self.output_bias@,
            hl: self.hidden_layer@,
            ol: self.output_layer@,
        }
    }
}

/// One forward pass: the hidden cache becomes the activation of
/// `hw·img + hb`, and the output cache becomes the output transform of
/// `ow·hidden + ob`. Weights and biases are untouched.
pub open spec fn fwd_spec<T: Scalar, A: ActivationStrategy<T>>(
    n: NetView<T>,
    img: Seq<Seq<T>>,
) -> NetView<T> {
    let hl = A::act_s(add_m(mm_s(n.hw, img, 1), n.hb));
    let ol = A::out_s(add_m(mm_s(n.ow, hl, 1), n.ob));
    NetView { hl, ol, ..n }
}

/// One backward pass at learning rate `lr`. The output error is
/// `ol − lab`; the output weights and bias are updated first; the hidden
/// delta is then computed from the already-updated output weights
/// (deliberately, not from the pre-update ones) and the derivative of the
/// cached hidden layer; the hidden weights and bias are updated last. The
/// caches are untouched.
pub open spec fn bp_spec<T: Scalar, A: ActivationStrategy<T>>(
    n: NetView<T>,
    img: Seq<Seq<T>>,
    lab: Seq<Seq<T>>,
    lr: T,
) -> NetView<T> {
    let d_out = sub_m(n.ol, lab);
    let ow2 = sub_m(n.ow, scale_m(lr, mm_s(d_out, transpose_m(n.hl, 1), n.hl.len() as int)));
    let ob2 = sub_m(n.ob, scale_m(lr, d_out));
    let d_hid = had_m(mm_s(transpose_m(ow2, n.hl.len() as int), d_out, 1), A::deriv_s(n.hl));
    let hw2 = sub_m(n.hw, scale_m(lr, mm_s(d_hid, transpose_m(img, 1), img.len() as int)));
    let hb2 = sub_m(n.hb, scale_m(lr, d_hid));
    NetView { hw: hw2, hb: hb2, ow: ow2, ob: ob2, ..n }
}

/// One training example: forward pass on the image column, then a backward
/// pass against the one-hot label column.
pub open spec fn step_spec<T: Scalar, A: ActivationStrategy<T>>(
    n: NetView<T>,
    img_row: Seq<T>,
    lab_row: Seq<T>,
    lr: T,
) -> NetView<T> {
    let img = col_mat_s(img_row);
    bp_spec::<T, A>(fwd_spec::<T, A>(n, img), img, col_mat_s(lab_row), lr)
}

/// Whether the forward pass on this example predicts the example's label:
/// the first maximum of the output cache stands at the same index as the
/// first maximum of the one-hot label.
pub open spec fn step_hits<T: Scalar, A: ActivationStrategy<T>>(
    n: NetView<T>,
    img_row: Seq<T>,
    lab_row: Seq<T>,
) -> bool {
    let after = fwd_spec::<T, A>(n, col_mat_s(img_row));
    argmax_s(col_s(after.ol, 0)) == argmax_s(col_s(col_mat_s(lab_row), 0))
}

/// The network after training on the first `k` rows of `(x, y)`, in order.
pub open spec fn epoch_net_spec<T: Scalar, A: ActivationStrategy<T>>(
    n: NetView<T>,
    x: Seq<Seq<T>>,
    y: Seq<Seq<T>>,
    k: int,
    lr: T,
) -> NetView<T>
    decreases k,
{
    if k <= 0 {
        n
    } else {
        step_spec::<T, A>(epoch_net_spec::<T, A>(n, x, y, k - 1, lr), x[k - 1], y[k - 1], lr)
    }
}

/// How many of the first `k` examples are predicted correctly during the
/// epoch (each forward pass sees the weights as updated by the previous
/// examples of the same epoch).
pub open spec fn epoch_hits_spec<T: Scalar, A: ActivationStrategy<T>>(
    n: NetView<T>,
    x: Seq<Seq<T>>,
    y: Seq<Seq<T>>,
    k: int,
    lr: T,
) -> nat
    decreases k,
{
    if k <= 0 {
        0
    } else {
        epoch_hits_spec::<T, A>(n, x, y, k - 1, lr) + (if step_hits::<T, A>(
            epoch_net_spec::<T, A>(n, x, y, k - 1, lr),
            x[k - 1],
            y[k - 1],
        ) {
            1nat
        } else {
            0nat
        })
    }
}

/// The network after `e` full epochs over `(x, y)`, in stored order, with
/// no shuffling between epochs.
pub open spec fn train_net_spec<T: Scalar, A: ActivationStrategy<T>>(
    n: NetView<T>,
    x: Seq<Seq<T>>,
    y: Seq<Seq<T>>,
    e: int,
    lr: T,
) -> NetView<T>
    decreases e,
{
    if e <= 0 {
        n
    } else {
        epoch_net_spec::<T, A>(train_net_spec::<T, A>(n, x, y, e - 1, lr), x, y, x.len() as int, lr)
    }
}

/// The index of the first maximum of a nonempty sequence: a later entry
/// displaces the running maximum only when strictly greater.
pub open spec fn argmax_s<T: Scalar>(s: Seq<T>) -> int
    recommends
        s.len() > 0,
    decreases s.len(),
{
    if s.len() <= 1 {
        0
    } else {
        let p = argmax_s(s.drop_last());
        if T::lt_s(s[p], s.last()) {
            s.len() - 1
        } else {
            p
        }
    }
}

/// The index of the maximum element of a nonempty vector; among equal
/// maxima the first (lowest index) wins.
pub fn argmax<T: Scalar>(v: &Vec<T>) -> (r: usize)
    requires
        v.len() > 0,
    ensures
        r < v.len(),
        r as int == argmax_s(v@),
{
    let mut best: usize = 0;
    let mut k: usize = 1;
    while k < v.len()
        invariant
            1 <= k <= v.len(),
            best < k,
            best as int == argmax_s(v@.take(k as int)),
        decreases v.len() - k,
    {
        proof {
            let t = v@.take(k as int + 1);
            assert(t.drop_last() =~= v@.take(k as int));
            assert(t.last() == v@[k as int]);
            assert(t[best as int] == v@[best as int]);
        }
        if T::lt_v(v[best], v[k]) {
            best = k;
        }
        k = k + 1;
    }
    proof {
        assert(v@.take(v.len() as int) =~= v@);
    }
    best
}

/// Where the comparison is a strict total order, the first-maximum index
/// returned by `argmax_s` carries the maximum, and every earlier entry is
/// strictly below it.
pub proof fn lemma_argmax_first_max<T: Scalar>(s: Seq<T>)
    requires
        s.len() > 0,
        lt_is_total_order::<T>(),
    ensures
        0 <= argmax_s(s) < s.len(),
        forall|j: int| 0 <= j < s.len() ==> !T::lt_s(s[argmax_s(s)], #[trigger] s[j]),
        forall|j: int| 0 <= j < argmax_s(s) ==> T::lt_s(#[trigger] s[j], s[argmax_s(s)]),
    decreases s.len(),
{
    if s.len() > 1 {
        lemma_argmax_first_max::<T>(s.drop_last());
        let p = argmax_s(s.drop_last());
        let m = argmax_s(s);
        assert(forall|j: int| 0 <= j < s.len() - 1 ==> s.drop_last()[j] == #[trigger] s[j]);
        if T::lt_s(s[p], s.last()) {
            assert(m == s.len() - 1);
            assert forall|j: int| 0 <= j < s.len() - 1 implies T::lt_s(#[trigger] s[j], s[m]) by {
                assert(!T::lt_s(s[p], s[j]));
                if s[j] == s[p] {
                    assert(T::lt_s(s[j], s[m]));
                } else {
                    assert(T::lt_s(s[j], s[p]));
                    assert(T::lt_s(s[j], s[m]));
                }
            }
        } else {
            assert(m == p);
        }
    }
}

/// Whether the most likely prediction of the output column `a` stands at
/// the same index as the maximum of the label column `b`.
pub fn if_correct<T: Scalar>(a: &Matrix<T>, b: &Matrix<T>) -> (r: bool)
    requires
        a.wf(),
        b.wf(),
        0 < a.rows,
        0 < a.cols,
        0 < b.rows,
        0 < b.cols,
    ensures
        r == (argmax_s(col_s(a@, 0)) == argmax_s(col_s(b@, 0))),
{
    let ca = a.column(0);
    let cb = b.column(0);
    argmax(&ca) == argmax(&cb)
}

/// A percentage as an exact ratio: the value is `num / den` percent.
#[derive(Clone, Copy, Debug, PartialEq, Eq, Structural)]
pub struct Percentage {
    pub num: u64,
    pub den: u64,
}

/// The percentage of correct guesses among `total`, as the exact ratio
/// `(100 · correct) / total`.
pub fn get_percentage(correct: u32, total: usize) -> (r: Percentage)
    requires
        0 < total,
    ensures
        r.num == 100 * correct as int,
        r.den == total as int,
{
    Percentage { num: 100u64 * (correct as u64), den: total as u64 }
}

impl<T: Scalar> Network<T> {
    /// Weights and biases have consistent, nonempty shapes; the bias
    /// columns are single columns. The caches are unconstrained: they are
    /// shaped by the last forward pass.
    pub open spec fn wf(&self) -> bool {
        &&& self.hidden_weights.wf()
        &&& self.hidden_bias.wf()
        &&& self.output_weights.wf()
        &&& self.output_bias.wf()
        &&& 0 < self.hidden_weights.rows
        &&& 0 < self.hidden_weights.cols
        &&& self.hidden_bias.rows == self.hidden_weights.rows
        &&& self.hidden_bias.cols == 1
        &&& 0 < self.output_weights.rows
        &&& self.output_weights.cols == self.hidden_weights.rows
        &&& self.output_bias.rows == self.output_weights.rows
        &&& self.output_bias.cols == 1
    }

    /// Both caches carry the single columns written by a forward pass.
    pub open spec fn caches_shaped(&self) -> bool {
        &&& self.hidden_layer.wf()
        &&& self.hidden_layer.rows == self.hidden_weights.rows
        &&& self.hidden_layer.cols == 1
        &&& self.output_layer.wf()
        &&& self.output_layer.rows == self.output_weights.rows
        &&& self.output_layer.cols == 1
    }

    /// The given network's weight and bias shapes, unchanged.
    pub open spec fn same_shape(&self, other: &Network<T>) -> bool {
        &&& self.hidden_weights.rows == other.hidden_weights.rows
        &&& self.hidden_weights.cols == other.hidden_weights.cols
        &&& self.output_weights.rows == other.output_weights.rows
        &&& self.output_weights.cols == other.output_weights.cols
    }

    /// A fresh network: the given weights, all-zero biases, and empty
    /// caches (they are shaped only by the first forward pass).
    pub fn new(hidden_weights: Matrix<T>, output_weights: Matrix<T>) -> (r: Network<T>)
        requires
            hidden_weights.wf(),
            output_weights.wf(),
            0 < hidden_weights.rows,
            0 < hidden_weights.cols,
            0 < output_weights.rows,
            output_weights.cols == hidden_weights.rows,
        ensures
            r.wf(),
            r@.hw == hidden_weights@,
            r@.ow == output_weights@,
            r@.hb == const_m(hidden_weights.rows as int, 1, T::zero_s()),
            r@.ob == const_m(output_weights.rows as int, 1, T::zero_s()),
            r.hidden_weights.rows == hidden_weights.rows,
            r.hidden_weights.cols == hidden_weights.cols,
            r.output_weights.rows == output_weights.rows,
            r.hidden_layer.rows == 0,
            r.output_layer.rows == 0,
    {
        let hr = hidden_weights.rows;
        let or_ = output_weights.rows;
        proof {
            assert(hr * 1 == hr) by (nonlinear_arith);
            assert(or_ * 1 == or_) by (nonlinear_arith);
            assert(0 * 0 == 0) by (nonlinear_arith);
        }
        let hidden_bias = Matrix::filled(hr, 1, T::zero_v());
        let output_bias = Matrix::filled(or_, 1, T::zero_v());
        let hidden_layer = Matrix::from_vec(0, 0, Vec::new());
        let output_layer = Matrix::from_vec(0, 0, Vec::new());
        Network { hidden_weights, hidden_bias, output_weights, output_bias, hidden_layer, output_layer }
    }

    /// One forward pass: recompute and overwrite both caches from the
    /// image column. Weights and biases are untouched.
    pub fn forward_propagation<A: ActivationStrategy<T>>(&mut self, img: &Matrix<T>)
        requires
            old(self).wf(),
            img.wf(),
            img.rows == old(self).hidden_weights.cols,
            img.cols == 1,
        ensures
            final(self).wf(),
            final(self).caches_shaped(),
            final(self).same_shape(old(self)),
            final(self)@ == fwd_spec::<T, A>(old(self)@, img@),
            final(self).hidden_weights == old(self).hidden_weights,
            final(self).hidden_bias == old(self).hidden_bias,
            final(self).output_weights == old(self).output_weights,
            final(self).output_bias == old(self).output_bias,
    {
        let hid_calc = self.hidden_weights.matmul(img).add_mat(&self.hidden_bias);
        self.hidden_layer = A::activation(hid_calc);
        let out_calc = self.output_weights.matmul(&self.hidden_layer).add_mat(&self.output_bias);
        self.output_layer = A::output_transform(out_calc);
    }

    /// One backward pass at learning rate `lr`, against the image column
    /// and its one-hot label column, using the caches written by the last
    /// forward pass. Output weights and bias are updated first; the hidden
    /// delta is computed from the already-updated output weights; the
    /// caches are untouched.
    pub fn back_propagation<A: ActivationStrategy<T>>(
        &mut self,
        img: &Matrix<T>,
        lab: &Matrix<T>,
        lr: T,
    )
        requires
            old(self).wf(),
            old(self).caches_shaped(),
            img.wf(),
            img.rows == old(self).hidden_weights.cols,
            img.cols == 1,
            lab.wf(),
            lab.rows == old(self).output_weights.rows,
            lab.cols == 1,
        ensures
            final(self).wf(),
            final(self).caches_shaped(),
            final(self).same_shape(old(self)),
            final(self)@ == bp_spec::<T, A>(old(self)@, img@, lab@, lr),
            final(self).hidden_layer == old(self).hidden_layer,
            final(self).output_layer == old(self).output_layer,
    {
        let delta_out = self.output_layer.sub_mat(lab);
        let ow_step = delta_out.matmul(&self.hidden_layer.transpose()).scale_mat(lr);
        self.output_weights = self.output_weights.sub_mat(&ow_step);
        self.output_bias = self.output_bias.sub_mat(&delta_out.scale_mat(lr));
        let delta_hid = self.output_weights.transpose().matmul(&delta_out).hadamard(
            &A::activ_deriv(&self.hidden_layer),
        );
        self.hidden_weights = self.hidden_weights.sub_mat(
            &delta_hid.matmul(&img.transpose()).scale_mat(lr),
        );
        self.hidden_bias = self.hidden_bias.sub_mat(&delta_hid.scale_mat(lr));
    }

    /// Online gradient descent: for each epoch, walk the row pairs of
    /// `(x, y)` in stored order, forward-propagate, count a hit when the
    /// prediction matches the label, and backpropagate. Returns the
    /// per-epoch hit counts; `get_percentage` turns a count into the
    /// epoch's accuracy.
    pub fn gradient_descent<A: ActivationStrategy<T>>(
        &mut self,
        x: &Matrix<T>,
        y: &Matrix<T>,
        epochs: usize,
        lr: T,
    ) -> (acc: Vec<usize>)
        requires
            old(self).wf(),
            x.wf(),
            y.wf(),
            x.rows == y.rows,
            0 < x.rows,
            x.cols == old(self).hidden_weights.cols,
            y.cols == old(self).output_weights.rows,
        ensures
            final(self).wf(),
            final(self).same_shape(old(self)),
            final(self)@ == train_net_spec::<T, A>(old(self)@, x@, y@, epochs as int, lr),
            acc@.len() == epochs,
            forall|e: int|
                0 <= e < epochs ==> #[trigger] acc@[e] as nat == epoch_hits_spec::<T, A>(
                    train_net_spec::<T, A>(old(self)@, x@, y@, e, lr),
                    x@,
                    y@,
                    x@.len() as int,
                    lr,
                ),
            forall|e: int| 0 <= e < epochs ==> #[trigger] acc@[e] <= x.rows,
    {
        let mut acc: Vec<usize> = Vec::new();
        let mut e: usize = 0;
        while e < epochs
            invariant
                self.wf(),
                self.same_shape(old(self)),
                x.wf(),
                y.wf(),
                x.rows == y.rows,
                0 < x.rows,
                x.cols == old(self).hidden_weights.cols,
                y.cols == old(self).output_weights.rows,
                0 <= e <= epochs,
                self@ == train_net_spec::<T, A>(old(self)@, x@, y@, e as int, lr),
                acc@.len() == e,
                forall|k: int|
                    0 <= k < e ==> #[trigger] acc@[k] as nat == epoch_hits_spec::<T, A>(
                        train_net_spec::<T, A>(old(self)@, x@, y@, k, lr),
                        x@,
                        y@,
                        x@.len() as int,
                        lr,
                    ),
                forall|k: int| 0 <= k < e ==> #[trigger] acc@[k] <= x.rows,
            decreases epochs - e,
        {
            let ghost epoch_start = self@;
            let mut correct: usize = 0;
            let mut i: usize = 0;
            while i < x.rows
                invariant
                    self.wf(),
                    self.same_shape(old(self)),
                    x.wf(),
                    y.wf(),
                    x.rows == y.rows,
                    0 < x.rows,
                    x.cols == old(self).hidden_weights.cols,
                    y.cols == old(self).output_weights.rows,
                    0 <= i <= x.rows,
                    correct <= i,
                    self@ == epoch_net_spec::<T, A>(epoch_start, x@, y@, i as int, lr),
                    correct as nat == epoch_hits_spec::<T, A>(epoch_start, x@, y@, i as int, lr),
                decreases x.rows - i,
            {
                let img_row = x.row(i);
                let img = Matrix::from_column(&img_row);
                let lab_row = y.row(i);
                let lab = Matrix::from_column(&lab_row);
                self.forward_propagation::<A>(&img);
                let hit = if_correct(&self.output_layer, &lab);
                if hit {
                    correct = correct + 1;
                }
                self.back_propagation::<A>(&img, &lab, lr);
                i = i + 1;
            }
            acc.push(correct);
            e = e + 1;
        }
        acc
    }

    /// An owned copy of the hidden-layer activation cache.
    pub fn get_hid_layer(&self) -> (r: Matrix<T>)
        requires
            self.hidden_layer.wf(),
        ensures
            r.wf(),
            r.rows == self.hidden_layer.rows,
            r.cols == self.hidden_layer.cols,
            r@ == self@.hl,
    {
        self.hidden_layer.clone_mat()
    }

    /// An owned copy of the hidden-layer weights.
    pub fn get_hid_weights(&self) -> (r: Matrix<T>)
        requires
            self.hidden_weights.wf(),
        ensures
            r.wf(),
            r.rows == self.hidden_weights.rows,
            r.cols == self.hidden_weights.cols,
            r@ == self@.hw,
    {
        self.hidden_weights.clone_mat()
    }

    /// An owned copy of the hidden-layer bias.
    pub fn get_hid_bias(&self) -> (r: Matrix<T>)
        requires
            self.hidden_bias.wf(),
        ensures
            r.wf(),
            r.rows == self.hidden_bias.rows,
            r.cols == self.hidden_bias.cols,
            r@ == self@.hb,
    {
        self.hidden_bias.clone_mat()
    }

    /// An owned copy of the output-layer activation cache.
    pub fn get_out_layer(&self) -> (r: Matrix<T>)
        requires
            self.output_layer.wf(),
        ensures
            r.wf(),
            r.rows == self.output_layer.rows,
            r.cols == self.output_layer.cols,
            r@ == self@.ol,
    {
        self.output_layer.clone_mat()
    }

    /// An owned copy of the output-layer weights.
    pub fn get_out_weights(&self) -> (r: Matrix<T>)
        requires
            self.output_weights.wf(),
        ensures
            r.wf(),
            r.rows == self.output_weights.rows,
            r.cols == self.output_weights.cols,
            r@ == self@.ow,
    {
        self.output_weights.clone_mat()
    }

    /// An owned copy of the output-layer bias.
    pub fn get_out_bias(&self) -> (r: Matrix<T>)
        requires
            self.output_bias.wf(),
        ensures
            r.wf(),
            r.rows == self.output_bias.rows,
            r.cols == self.output_bias.cols,
            r@ == self@.ob,
    {
        self.output_bias.clone_mat()
    }

    /// Replace the hidden-layer activation cache wholesale.
    pub fn set_hid_layer(&mut self, x: Matrix<T>)
        ensures
            final(self).hidden_layer == x,
            final(self).hidden_weights == old(self).hidden_weights,
            final(self).hidden_bias == old(self).hidden_bias,
            final(self).output_weights == old(self).output_weights,
            final(self).output_bias == old(self).output_bias,
            final(self).output_layer == old(self).output_layer,
    {
        self.hidden_layer = x;
    }

    /// Replace the hidden-layer weights wholesale.
    pub fn set_hid_weights(&mut self, x: Matrix<T>)
        ensures
            final(self).hidden_weights == x,
            final(self).hidden_bias == old(self).hidden_bias,
            final(self).output_weights == old(self).output_weights,
            final(self).output_bias == old(self).output_bias,
            final(self).hidden_layer == old(self).hidden_layer,
            final(self).output_layer == old(self).output_layer,
    {
        self.hidden_weights = x;
    }

    /// Replace the hidden-layer bias wholesale.
    pub fn set_hid_bias(&mut self, x: Matrix<T>)
        ensures
            final(self).hidden_bias == x,
            final(self).hidden_weights == old(self).hidden_weights,
            final(self).output_weights == old(self).output_weights,
            final(self).output_bias == old(self).output_bias,
            final(self).hidden_layer == old(self).hidden_layer,
            final(self).output_layer == old(self).output_layer,
    {
        self.hidden_bias = x;
    }

    /// Replace the output-layer activation cache wholesale.
    pub fn set_out_layer(&mut self, x: Matrix<T>)
        ensures
            final(self).output_layer == x,
            final(self).hidden_weights == old(self).hidden_weights,
            final(self).hidden_bias == old(self).hidden_bias,
            final(self).output_weights == old(self).output_weights,
            final(self).output_bias == old(self).output_bias,
            final(self).hidden_layer == old(self).hidden_layer,
    {
        self.output_layer = x;
    }

    /// Replace the output-layer weights wholesale.
    pub fn set_out_weights(&mut self, x: Matrix<T>)
        ensures
            final(self).output_weights == x,
            final(self).hidden_weights == old(self).hidden_weights,
            final(self).hidden_bias == old(self).hidden_bias,
            final(self).output_bias == old(self).output_bias,
            final(self).hidden_layer == old(self).hidden_layer,
            final(self).output_layer == old(self).output_layer,
    {
        self.output_weights = x;
    }

    /// Replace the output-layer bias wholesale.
    pub fn set_out_bias(&mut self, x: Matrix<T>)
        ensures
            final(self).output_bias == x,
            final(self).hidden_weights == old(self).hidden_weights,
            final(self).hidden_bias == old(self).hidden_bias,
            final(self).output_weights == old(self).output_weights,
            final(self).hidden_layer == old(self).hidden_layer,
            final(self).output_layer == old(self).output_layer,
    {
        self.output_bias = x;
    }

    /// Inference: forward-propagate the image (overwriting the caches, as
    /// every forward pass does) and return the index of the first maximum
    /// of the output column — the predicted class.
    pub fn make_guess<A: ActivationStrategy<T>>(&mut self, image: &Vec<T>) -> (r: usize)
        requires
            old(self).wf(),
            image.len() == old(self).hidden_weights.cols,
        ensures
            final(self).wf(),
            final(self).caches_shaped(),
            final(self).same_shape(old(self)),
            final(self)@ == fwd_spec::<T, A>(old(self)@, col_mat_s(image@)),
            r < final(self).output_layer.rows,
            r as int == argmax_s(col_s(final(self)@.ol, 0)),
    {
        let img = Matrix::from_column(image);
        self.forward_propagation::<A>(&img);
        let out_col = self.output_layer.column(0);
        argmax(&out_col)
    }
}

} // verus!
