use neural_net::matrix::Matrix;
use neural_net::scalar::{Fixed, Scalar, FIXED_SCALE};

fn fx(v: i64) -> Fixed {
    Fixed { v }
}

fn whole(n: i64) -> Fixed {
    Fixed { v: n * FIXED_SCALE }
}

#[test]
fn fixed_arithmetic_is_exact_on_small_values() {
    let a = whole(2);
    let b = whole(3);
    assert_eq!(Fixed::add_v(a, b), whole(5));
    assert_eq!(Fixed::sub_v(a, b), whole(-1));
    assert_eq!(Fixed::mul_v(a, b), whole(6));
    assert!(Fixed::lt_v(a, b));
    assert!(!Fixed::lt_v(b, a));
}

#[test]
fn fixed_multiplication_truncates_toward_zero() {
    // 0.0003 * 0.5 is 0.00015, which truncates to 0.0001.
    assert_eq!(Fixed::mul_v(fx(3), fx(5000)), fx(1));
    // The negative counterpart truncates toward zero as well.
    assert_eq!(Fixed::mul_v(fx(-3), fx(5000)), fx(-1));
}

#[test]
fn fixed_addition_saturates() {
    let top = Fixed { v: i64::MAX };
    assert_eq!(Fixed::add_v(top, whole(1)), top);
    let bottom = Fixed { v: i64::MIN };
    assert_eq!(Fixed::add_v(bottom, whole(-1)), bottom);
}

#[test]
fn matmul_matches_hand_computation() {
    let a = Matrix::from_vec(2, 2, vec![whole(1), whole(2), whole(3), whole(4)]);
    let b = Matrix::from_vec(2, 2, vec![whole(5), whole(6), whole(7), whole(8)]);
    let c = a.matmul(&b);
    assert_eq!(c.rows, 2);
    assert_eq!(c.cols, 2);
    assert_eq!(c.get(0, 0), whole(19));
    assert_eq!(c.get(0, 1), whole(22));
    assert_eq!(c.get(1, 0), whole(43));
    assert_eq!(c.get(1, 1), whole(50));
}

#[test]
fn matmul_shapes_compose() {
    let a = Matrix::filled(3, 4, whole(1));
    let b = Matrix::filled(4, 2, whole(1));
    let c = a.matmul(&b);
    assert_eq!(c.rows, 3);
    assert_eq!(c.cols, 2);
    assert_eq!(c.get(0, 0), whole(4));
}

#[test]
fn elementwise_operations_match_hand_computation() {
    let a = Matrix::from_vec(1, 3, vec![whole(1), whole(2), whole(3)]);
    let b = Matrix::from_vec(1, 3, vec![whole(4), whole(5), whole(6)]);
    let s = a.add_mat(&b);
    assert_eq!(s.get(0, 0), whole(5));
    assert_eq!(s.get(0, 2), whole(9));
    let d = b.sub_mat(&a);
    assert_eq!(d.get(0, 1), whole(3));
    let h = a.hadamard(&b);
    assert_eq!(h.get(0, 2), whole(18));
    let sc = a.scale_mat(fx(5000));
    assert_eq!(sc.get(0, 1), whole(1));
}

#[test]
fn transpose_swaps_entries() {
    let a = Matrix::from_vec(2, 3, vec![whole(1), whole(2), whole(3), whole(4), whole(5), whole(6)]);
    let t = a.transpose();
    assert_eq!(t.rows, 3);
    assert_eq!(t.cols, 2);
    assert_eq!(t.get(0, 1), whole(4));
    assert_eq!(t.get(2, 0), whole(3));
    assert_eq!(t.get(2, 1), whole(6));
}

#[test]
fn rows_columns_and_reshaping() {
    let a = Matrix::from_vec(2, 2, vec![whole(1), whole(2), whole(3), whole(4)]);
    let r = a.row(1);
    assert_eq!(r, vec![whole(3), whole(4)]);
    let c = a.column(1);
    assert_eq!(c, vec![whole(2), whole(4)]);
    let m = Matrix::from_column(&c);
    assert_eq!(m.rows, 2);
    assert_eq!(m.cols, 1);
    assert_eq!(m.get(0, 0), whole(2));
    assert_eq!(m.get(1, 0), whole(4));
}
