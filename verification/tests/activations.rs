use machine_learning::activation::{Activation, Relu, Sigmoid};
use machine_learning::fixed::SCALE;

#[test]
fn relu_sigma_values() {
    assert_eq!(Relu::sigma(0), 0);
    assert_eq!(Relu::sigma(-5 * SCALE), 0);
    assert_eq!(Relu::sigma(7), 7);
    assert_eq!(Relu::sigma(3 * SCALE), 3 * SCALE);
}

#[test]
fn relu_derivative_values() {
    assert_eq!(Relu::dsigma(3), SCALE);
    assert_eq!(Relu::dsigma(0), 0);
    assert_eq!(Relu::dsigma(-1), 0);
    assert_eq!(Relu::dsigma_of_y(42), SCALE);
    assert_eq!(Relu::dsigma_of_y(0), 0);
}

#[test]
fn sigmoid_midpoint_is_exactly_half() {
    assert_eq!(Sigmoid::sigma(0), SCALE / 2);
}

#[test]
fn sigmoid_matches_reference_values() {
    // sigmoid(1) ~ 0.7311, sigmoid(-1) ~ 0.2689, in fixed point
    let one = Sigmoid::sigma(SCALE);
    assert!((47700..48100).contains(&one), "sigma(1) = {}", one);
    let minus_one = Sigmoid::sigma(-SCALE);
    assert!((17400..17800).contains(&minus_one), "sigma(-1) = {}", minus_one);
}

#[test]
fn sigmoid_saturates_strictly_inside_unit_interval() {
    // even far out in both tails the output stays strictly between 0 and 1
    assert_eq!(Sigmoid::sigma(20 * SCALE), SCALE - 1);
    assert_eq!(Sigmoid::sigma(-20 * SCALE), 1);
    for x in [-1000 * SCALE, -13 * SCALE, -1, 0, 1, 13 * SCALE, 1000 * SCALE] {
        let y = Sigmoid::sigma(x);
        assert!(0 < y && y < SCALE, "sigma({}) = {}", x, y);
    }
}

#[test]
fn sigmoid_is_monotone_on_samples() {
    let xs = [-8 * SCALE, -2 * SCALE, -SCALE / 3, 0, SCALE / 2, 3 * SCALE, 9 * SCALE];
    for pair in xs.windows(2) {
        assert!(Sigmoid::sigma(pair[0]) <= Sigmoid::sigma(pair[1]));
    }
}

#[test]
fn sigmoid_derivative_conventions_agree() {
    for x in [-5 * SCALE, -SCALE, -17, 0, 23, SCALE / 2, 2 * SCALE, 11 * SCALE] {
        assert_eq!(Sigmoid::dsigma(x), Sigmoid::dsigma_of_y(Sigmoid::sigma(x)));
    }
}

#[test]
fn relu_derivative_conventions_agree() {
    for x in [-3 * SCALE, -1, 0, 1, SCALE, 6 * SCALE] {
        assert_eq!(Relu::dsigma(x), Relu::dsigma_of_y(Relu::sigma(x)));
    }
}

#[test]
fn sigmoid_derivative_of_y_peaks_at_half() {
    // y(1-y) at y = 0.5 is 0.25
    assert_eq!(Sigmoid::dsigma_of_y(SCALE / 2), SCALE / 4);
    assert_eq!(Sigmoid::dsigma_of_y(0), 0);
    assert_eq!(Sigmoid::dsigma_of_y(SCALE), 0);
}
