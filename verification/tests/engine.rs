use neural_net::activation::{ActivationStrategy, LeakyRelu};
use neural_net::encode::one_hot_encode;
use neural_net::matrix::Matrix;
use neural_net::network::{argmax, get_percentage, if_correct, Network};
use neural_net::scalar::{Fixed, FIXED_SCALE};

fn fx(v: i64) -> Fixed {
    Fixed { v }
}

fn whole(n: i64) -> Fixed {
    Fixed { v: n * FIXED_SCALE }
}

fn identity2() -> Matrix<Fixed> {
    Matrix::from_vec(2, 2, vec![whole(1), whole(0), whole(0), whole(1)])
}

#[test]
fn leaky_activation_exact_values() {
    // activation(5.0) = 5.0 and activation(-5.0) = -0.05;
    // derivative(5.0) = 1.0 and derivative(-5.0) = 0.01.
    let m = Matrix::from_vec(2, 1, vec![whole(5), whole(-5)]);
    let a = <LeakyRelu as ActivationStrategy<Fixed>>::activation(m);
    assert_eq!(a.get(0, 0), whole(5));
    assert_eq!(a.get(1, 0), fx(-500));
    let m2 = Matrix::from_vec(2, 1, vec![whole(5), whole(-5)]);
    let d = <LeakyRelu as ActivationStrategy<Fixed>>::activ_deriv(&m2);
    assert_eq!(d.get(0, 0), fx(FIXED_SCALE));
    assert_eq!(d.get(1, 0), fx(100));
}

#[test]
fn activation_preserves_shape() {
    let m = Matrix::from_vec(2, 3, vec![whole(1), whole(-1), whole(0), whole(2), whole(-2), whole(3)]);
    let a = <LeakyRelu as ActivationStrategy<Fixed>>::activation(m);
    assert_eq!(a.rows, 2);
    assert_eq!(a.cols, 3);
    let d = <LeakyRelu as ActivationStrategy<Fixed>>::activ_deriv(&a);
    assert_eq!(d.rows, 2);
    assert_eq!(d.cols, 3);
    let o = <LeakyRelu as ActivationStrategy<Fixed>>::output_transform(d);
    assert_eq!(o.rows, 2);
    assert_eq!(o.cols, 3);
}

#[test]
fn argmax_first_occurrence_of_maximum_wins() {
    let v = vec![fx(1000), fx(9000), fx(9000)];
    assert_eq!(argmax(&v), 1);
}

#[test]
fn argmax_on_single_entry() {
    let v = vec![whole(-7)];
    assert_eq!(argmax(&v), 0);
}

#[test]
fn if_correct_compares_first_maxima() {
    let a = Matrix::from_vec(3, 1, vec![fx(100), fx(9000), fx(500)]);
    let b = Matrix::from_vec(3, 1, vec![whole(0), whole(1), whole(0)]);
    assert!(if_correct(&a, &b));
    let c = Matrix::from_vec(3, 1, vec![whole(1), whole(0), whole(0)]);
    assert!(!if_correct(&a, &c));
}

#[test]
fn percentage_of_three_out_of_ten_is_thirty() {
    let p = get_percentage(3, 10);
    assert_eq!(p.num, 300);
    assert_eq!(p.den, 10);
    assert_eq!(p.num as f64 / p.den as f64, 30.0);
}

#[test]
fn one_hot_rows_place_single_one() {
    let m: Matrix<Fixed> = one_hot_encode(&vec![0usize, 2, 1]);
    assert_eq!(m.rows, 3);
    assert_eq!(m.cols, 3);
    let expected = [[1, 0, 0], [0, 0, 1], [0, 1, 0]];
    for i in 0..3 {
        for j in 0..3 {
            assert_eq!(m.get(i, j), whole(expected[i][j]));
        }
    }
}

#[test]
fn one_hot_single_label() {
    let m: Matrix<Fixed> = one_hot_encode(&vec![0usize]);
    assert_eq!(m.rows, 1);
    assert_eq!(m.cols, 1);
    assert_eq!(m.get(0, 0), whole(1));
}

#[test]
fn new_network_has_zero_biases_and_empty_caches() {
    let net = Network::new(identity2(), identity2());
    let hb = net.get_hid_bias();
    assert_eq!(hb.rows, 2);
    assert_eq!(hb.cols, 1);
    assert_eq!(hb.get(0, 0), whole(0));
    assert_eq!(hb.get(1, 0), whole(0));
    let ob = net.get_out_bias();
    assert_eq!(ob.get(0, 0), whole(0));
    let hl = net.get_hid_layer();
    assert_eq!(hl.rows, 0);
    let ol = net.get_out_layer();
    assert_eq!(ol.rows, 0);
}

#[test]
fn setters_replace_wholesale() {
    let mut net = Network::new(identity2(), identity2());
    net.set_hid_weights(Matrix::filled(2, 2, whole(7)));
    assert_eq!(net.get_hid_weights().get(0, 1), whole(7));
    net.set_out_bias(Matrix::from_vec(2, 1, vec![whole(1), whole(2)]));
    assert_eq!(net.get_out_bias().get(1, 0), whole(2));
}

#[test]
fn forward_propagation_writes_both_caches() {
    let mut net = Network::new(identity2(), identity2());
    let img = Matrix::from_vec(2, 1, vec![whole(2), whole(-1)]);
    net.forward_propagation::<LeakyRelu>(&img);
    let hl = net.get_hid_layer();
    assert_eq!(hl.rows, 2);
    assert_eq!(hl.cols, 1);
    assert_eq!(hl.get(0, 0), whole(2));
    assert_eq!(hl.get(1, 0), fx(-100));
    let ol = net.get_out_layer();
    assert_eq!(ol.rows, 2);
    assert_eq!(ol.cols, 1);
    assert_eq!(ol.get(0, 0), whole(2));
    // The hidden cache entry -0.01 leaks again through the output layer.
    assert_eq!(ol.get(1, 0), fx(-1));
    // A second pass overwrites, never accumulates.
    net.forward_propagation::<LeakyRelu>(&img);
    assert_eq!(net.get_hid_layer().get(0, 0), whole(2));
}

#[test]
fn back_propagation_uses_updated_output_weights_for_hidden_delta() {
    // One-by-one network: after a forward pass on image 1.0 (caches 1.0),
    // a backward pass against label 0.0 at rate 0.1 gives
    //   delta_out = 1.0, output weight 0.9, output bias -0.1,
    //   delta_hid = 0.9 * 1.0 (from the already-updated output weight),
    //   hidden weight 0.91, hidden bias -0.09.
    let hw = Matrix::from_vec(1, 1, vec![whole(1)]);
    let ow = Matrix::from_vec(1, 1, vec![whole(1)]);
    let mut net = Network::new(hw, ow);
    let img = Matrix::from_vec(1, 1, vec![whole(1)]);
    net.forward_propagation::<LeakyRelu>(&img);
    let lab = Matrix::from_vec(1, 1, vec![whole(0)]);
    net.back_propagation::<LeakyRelu>(&img, &lab, fx(1000));
    assert_eq!(net.get_out_weights().get(0, 0), fx(9000));
    assert_eq!(net.get_out_bias().get(0, 0), fx(-1000));
    assert_eq!(net.get_hid_weights().get(0, 0), fx(9100));
    assert_eq!(net.get_hid_bias().get(0, 0), fx(-900));
}

fn separable_data() -> (Matrix<Fixed>, Matrix<Fixed>) {
    let x = Matrix::from_vec(
        4,
        2,
        vec![
            whole(1),
            whole(0),
            fx(9000),
            fx(1000),
            fx(1000),
            fx(9000),
            whole(0),
            whole(1),
        ],
    );
    let y: Matrix<Fixed> = one_hot_encode(&vec![0usize, 0, 1, 1]);
    (x, y)
}

#[test]
fn training_on_separable_data_is_accurate_and_monotone() {
    let (x, y) = separable_data();
    let mut net = Network::new(identity2(), identity2());
    let acc = net.gradient_descent::<LeakyRelu>(&x, &y, 2, fx(100));
    assert_eq!(acc.len(), 2);
    assert!(acc[0] <= acc[1]);
    assert_eq!(acc, vec![4, 4]);
    let p = get_percentage(acc[1] as u32, 4);
    assert_eq!(p.num as f64 / p.den as f64, 100.0);
}

#[test]
fn training_is_deterministic() {
    let (x, y) = separable_data();
    let mut first = Network::new(identity2(), identity2());
    let acc_first = first.gradient_descent::<LeakyRelu>(&x, &y, 2, fx(100));
    let mut second = Network::new(identity2(), identity2());
    let acc_second = second.gradient_descent::<LeakyRelu>(&x, &y, 2, fx(100));
    assert_eq!(acc_first, acc_second);
    let wf = first.get_hid_weights();
    let ws = second.get_hid_weights();
    for i in 0..2 {
        for j in 0..2 {
            assert_eq!(wf.get(i, j), ws.get(i, j));
        }
    }
}

#[test]
fn make_guess_returns_predicted_class() {
    let mut net = Network::new(identity2(), identity2());
    let guess = net.make_guess::<LeakyRelu>(&vec![whole(1), whole(0)]);
    assert_eq!(guess, 0);
    let guess2 = net.make_guess::<LeakyRelu>(&vec![fx(1000), fx(9000)]);
    assert_eq!(guess2, 1);
    // Inference leaves the caches of its own forward pass behind.
    let ol = net.get_out_layer();
    assert_eq!(ol.rows, 2);
    assert_eq!(ol.cols, 1);
}
