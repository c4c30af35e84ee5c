//! Label encoding: categorical digit labels to one-hot rows.

use vstd::prelude::*;

use crate::matrix::Matrix;
use crate::scalar::Scalar;

verus! {

/// The greatest label in a nonempty sequence.
pub open spec fn max_label(s: Seq<usize>) -> int
    recommends
        s.len() > 0,
    decreases s.len(),
{
    if s.len() <= 1 {
        s[0] as int
    } else {
        let p = max_label(s.drop_last());
        if p < s.last() as int {
            s.last() as int
        } else {
            p
        }
    }
}

/// One-hot encode a nonempty vector of categorical labels: the result has
/// one row per label and one column per category (the greatest label plus
/// one), with a one at each label's column and zeros elsewhere.
pub fn one_hot_encode<T: Scalar>(labels: &Vec<usize>) -> (m: Matrix<T>)
    requires
        labels.len() > 0,
        forall|i: int| 0 <= i < labels.len() ==> #[trigger] labels@[i] < usize::MAX,
    ensures
        m.wf(),
        m.rows == labels.len(),
        m.cols as int == max_label(labels@) + 1,
        forall|i: int, j: int|
            0 <= i < m.rows && 0 <= j < m.cols ==> #[trigger] m@[i][j] == (if j
                == labels@[i] as int {
                T::one_s()
            } else {
                T::zero_s()
            }),
{
    let mut max_v: usize = labels[0];
    let mut k: usize = 1;
    while k < labels.len()
        invariant
            1 <= k <= labels.len(),
            forall|i: int| 0 <= i < labels.len() ==> #[trigger] labels@[i] < usize::MAX,
            max_v < usize::MAX,
            max_v as int == max_label(labels@.take(k as int)),
        decreases labels.len() - k,
    {
        proof {
            let t = labels@.take(k as int + 1);
            assert(t.drop_last() =~= labels@.take(k as int));
            assert(t.last() == labels@[k as int]);
        }
        if max_v < labels[k] {
            max_v = labels[k];
        }
        k = k + 1;
    }
    proof {
        assert(labels@.take(labels.len() as int) =~= labels@);
    }
    let width: usize = max_v + 1;
    let rows: usize = labels.len();
    let mut data: Vec<T> = Vec::new();
    let one = T::one_v();
    let zero = T::zero_v();
    let mut i: usize = 0;
    while i < rows
        invariant
            0 <= i <= rows,
            rows == labels.len(),
            data@.len() == i * width,
            forall|ii: int, jj: int|
                0 <= ii < i && 0 <= jj < width ==> #[trigger] data@[ii * width + jj] == (if jj
                    == labels@[ii] as int {
                    T::one_s()
                } else {
                    T::zero_s()
                }),
            one == T::one_s(),
            zero == T::zero_s(),
        decreases rows - i,
    {
        let label = labels[i];
        let mut j: usize = 0;
        while j < width
            invariant
                0 <= i < rows,
                0 <= j <= width,
                rows == labels.len(),
                label == labels@[i as int],
                data@.len() == i * width + j,
                forall|ii: int, jj: int|
                    (0 <= ii < i && 0 <= jj < width) || (ii == i && 0 <= jj < j)
                        ==> #[trigger] data@[ii * width + jj] == (if jj == labels@[ii] as int {
                        T::one_s()
                    } else {
                        T::zero_s()
                    }),
                one == T::one_s(),
                zero == T::zero_s(),
            decreases width - j,
        {
            let e: T = if j == label {
                one
            } else {
                zero
            };
            let ghost pre = data@;
            data.push(e);
            proof {
                assert forall|ii: int, jj: int|
                    (0 <= ii < i && 0 <= jj < width) || (ii == i && 0 <= jj < j + 1)
                        implies #[trigger] data@[ii * width + jj] == (if jj == labels@[ii] as int {
                        T::one_s()
                    } else {
                        T::zero_s()
                    }) by {
                    if ii == i && jj == j as int {
                        assert(data@[ii * width + jj] == e);
                    } else {
                        assert(ii * width + jj < i * width + j) by (nonlinear_arith)
                            requires
                                0 <= jj < width,
                                0 <= ii <= i,
                                0 <= j,
                                ii < i || (ii == i && jj < j),
                        ;
                        assert(data@[ii * width + jj] == pre[ii * width + jj]);
                    }
                }
            }
            j = j + 1;
        }
        proof {
            assert(i * width + width == (i + 1) * width) by (nonlinear_arith);
        }
        i = i + 1;
    }
    let m = Matrix { rows, cols: width, data };
    proof {
        assert forall|i2: int, j2: int|
            0 <= i2 < m.rows && 0 <= j2 < m.cols implies #[trigger] m@[i2][j2] == (if j2
                == labels@[i2] as int {
                T::one_s()
            } else {
                T::zero_s()
            }) by {
            crate::matrix::lemma_flat_lt(i2, j2, m.rows as int, m.cols as int);
        }
    }
    m
}

} // verus!
