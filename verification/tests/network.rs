use core::marker::PhantomData;
use machine_learning::activation::{Activation, Relu, Sigmoid};
use machine_learning::fixed::SCALE;
use machine_learning::MachineLearner;
use rand::rngs::StdRng;
use rand::SeedableRng;

fn zero_relu_net(i: usize, h: usize, o: usize) -> MachineLearner<Relu> {
    MachineLearner {
        n_inputs: i,
        n_hidden: h,
        n_outputs: o,
        bias_h: vec![0; h],
        weight_ih: vec![vec![0; i]; h],
        bias_o: vec![0; o],
        weight_ho: vec![vec![0; h]; o],
        activation: PhantomData,
    }
}

fn squared_error(prediction: &[i64], target: &[i64]) -> i128 {
    prediction
        .iter()
        .zip(target.iter())
        .map(|(p, t)| {
            let d = (*t - *p) as i128;
            d * d
        })
        .sum()
}

#[test]
fn construct_shapes() {
    let mut rng = StdRng::seed_from_u64(7);
    let net: MachineLearner<Relu> = MachineLearner::new(3, 4, 2, &mut rng);
    assert_eq!(net.n_inputs, 3);
    assert_eq!(net.n_hidden, 4);
    assert_eq!(net.n_outputs, 2);
    assert_eq!(net.bias_h.len(), 4);
    assert_eq!(net.weight_ih.len(), 4);
    for row in &net.weight_ih {
        assert_eq!(row.len(), 3);
    }
    assert_eq!(net.bias_o.len(), 2);
    assert_eq!(net.weight_ho.len(), 2);
    for row in &net.weight_ho {
        assert_eq!(row.len(), 4);
    }
}

#[test]
fn construct_draws_from_unit_interval() {
    let mut rng = StdRng::seed_from_u64(11);
    let net: MachineLearner<Sigmoid> = MachineLearner::new(5, 6, 3, &mut rng);
    let all = net
        .bias_h
        .iter()
        .chain(net.bias_o.iter())
        .chain(net.weight_ih.iter().flatten())
        .chain(net.weight_ho.iter().flatten());
    for &p in all {
        assert!((0..SCALE).contains(&p));
    }
}

#[test]
fn construct_is_not_silently_constant() {
    let mut rng_a = StdRng::seed_from_u64(1);
    let mut rng_b = StdRng::seed_from_u64(2);
    let a: MachineLearner<Relu> = MachineLearner::new(2, 3, 1, &mut rng_a);
    let b: MachineLearner<Relu> = MachineLearner::new(2, 3, 1, &mut rng_b);
    assert!(
        a.weight_ih != b.weight_ih
            || a.bias_h != b.bias_h
            || a.weight_ho != b.weight_ho
            || a.bias_o != b.bias_o
    );
    // and not all zero either
    assert!(a.weight_ih.iter().flatten().any(|&w| w != 0));
}

#[test]
fn predict_is_pure() {
    let mut rng = StdRng::seed_from_u64(42);
    let net: MachineLearner<Sigmoid> = MachineLearner::new(2, 4, 2, &mut rng);
    let before = (
        net.bias_h.clone(),
        net.weight_ih.clone(),
        net.bias_o.clone(),
        net.weight_ho.clone(),
    );
    let input = vec![SCALE, -SCALE / 2];
    let first = net.predict(&input);
    let second = net.predict(&input);
    assert_eq!(first, second);
    assert_eq!(before.0, net.bias_h);
    assert_eq!(before.1, net.weight_ih);
    assert_eq!(before.2, net.bias_o);
    assert_eq!(before.3, net.weight_ho);
}

#[test]
fn relu_zero_network_predicts_zero() {
    let net = zero_relu_net(3, 5, 2);
    for input in [
        vec![0, 0, 0],
        vec![SCALE, 2 * SCALE, 3 * SCALE],
        vec![-7 * SCALE, 123, -1],
    ] {
        assert_eq!(net.predict(&input), vec![0, 0]);
    }
}

#[test]
fn sigmoid_outputs_stay_inside_unit_interval() {
    let mut rng = StdRng::seed_from_u64(5);
    let net: MachineLearner<Sigmoid> = MachineLearner::new(2, 3, 4, &mut rng);
    for input in [
        vec![0, 0],
        vec![1000 * SCALE, 1000 * SCALE],
        vec![-1000 * SCALE, -1000 * SCALE],
        vec![3, -17],
    ] {
        for y in net.predict(&input) {
            assert!(0 < y && y < SCALE, "output {} out of (0, 1)", y);
        }
    }
}

#[test]
fn feed_forward_exact_values() {
    let mut net = zero_relu_net(1, 2, 1);
    net.weight_ih = vec![vec![SCALE / 2], vec![SCALE / 4]];
    net.bias_h = vec![100, 200];
    net.weight_ho = vec![vec![SCALE, SCALE]];
    net.bias_o = vec![48];
    let (hidden, output) = net.feed_forward(&vec![SCALE]);
    assert_eq!(hidden, vec![32868, 16584]);
    assert_eq!(output, vec![49500]);
    assert_eq!(net.predict(&vec![SCALE]), vec![49500]);
}

#[test]
fn train_keeps_shapes_and_widths() {
    let mut rng = StdRng::seed_from_u64(3);
    let mut net: MachineLearner<Sigmoid> = MachineLearner::new(2, 3, 2, &mut rng);
    net.train(&vec![SCALE, 0], &vec![0, SCALE]);
    assert_eq!(net.n_inputs, 2);
    assert_eq!(net.n_hidden, 3);
    assert_eq!(net.n_outputs, 2);
    assert_eq!(net.bias_h.len(), 3);
    assert_eq!(net.weight_ih.len(), 3);
    for row in &net.weight_ih {
        assert_eq!(row.len(), 2);
    }
    assert_eq!(net.bias_o.len(), 2);
    assert_eq!(net.weight_ho.len(), 2);
    for row in &net.weight_ho {
        assert_eq!(row.len(), 3);
    }
}

#[test]
fn train_reduces_squared_error() {
    let mut net = zero_relu_net(1, 1, 1);
    net.weight_ih = vec![vec![SCALE / 2]];
    net.bias_h = vec![6554];
    net.weight_ho = vec![vec![SCALE / 2]];
    net.bias_o = vec![6554];
    let input = vec![SCALE];
    let target = vec![SCALE];
    let before = squared_error(&net.predict(&input), &target);
    net.train(&input, &target);
    let after = squared_error(&net.predict(&input), &target);
    assert!(after < before, "error went from {} to {}", before, after);
}

#[test]
fn train_reduces_squared_error_sigmoid() {
    let mut rng = StdRng::seed_from_u64(9);
    let mut net: MachineLearner<Sigmoid> = MachineLearner::new(2, 3, 1, &mut rng);
    let input = vec![SCALE / 2, -SCALE / 3];
    let target = vec![SCALE - 1];
    let before = squared_error(&net.predict(&input), &target);
    net.train(&input, &target);
    let after = squared_error(&net.predict(&input), &target);
    assert!(after <= before, "error went from {} to {}", before, after);
}

#[test]
fn train_learns_logical_and() {
    let mut rng = StdRng::seed_from_u64(13);
    let mut net: MachineLearner<Relu> = MachineLearner::new(2, 3, 1, &mut rng);
    let data = [
        (vec![0, 0], vec![0]),
        (vec![SCALE, 0], vec![0]),
        (vec![0, SCALE], vec![0]),
        (vec![SCALE, SCALE], vec![SCALE]),
    ];
    for _ in 0..2000 {
        for (input, target) in &data {
            net.train(input, target);
        }
    }
    let high = net.predict(&vec![SCALE, SCALE])[0];
    assert!(high > SCALE / 2, "predict(1,1) = {}", high);
    for input in [vec![0, 0], vec![SCALE, 0], vec![0, SCALE]] {
        let low = net.predict(&input)[0];
        assert!(low < SCALE / 2, "predict({:?}) = {}", input, low);
    }
}
