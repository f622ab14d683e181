use machine_learning::fixed::{add_fp, mul_fp, sub_fp, LIMIT, SCALE};

#[test]
fn add_and_sub_plain_values() {
    assert_eq!(add_fp(3 * SCALE, 2 * SCALE), 5 * SCALE);
    assert_eq!(sub_fp(3 * SCALE, 5 * SCALE), -2 * SCALE);
    assert_eq!(add_fp(-7, 7), 0);
}

#[test]
fn mul_rescales_by_scale() {
    // 0.5 * 0.5 == 0.25
    assert_eq!(mul_fp(SCALE / 2, SCALE / 2), SCALE / 4);
    // 1.0 is the multiplicative unit
    assert_eq!(mul_fp(SCALE, 12345), 12345);
    assert_eq!(mul_fp(-3 * SCALE, 2 * SCALE), -6 * SCALE);
}

#[test]
fn mul_rounds_toward_zero() {
    // 3 * 5 = 15 raw, far below one fixed-point unit
    assert_eq!(mul_fp(3, 5), 0);
    assert_eq!(mul_fp(-3, 5), 0);
    assert_eq!(mul_fp(-SCALE - 1, 1), -1);
}

#[test]
fn arithmetic_saturates_at_limit() {
    assert_eq!(add_fp(LIMIT, LIMIT), LIMIT);
    assert_eq!(sub_fp(-LIMIT, LIMIT), -LIMIT);
    assert_eq!(mul_fp(LIMIT, LIMIT), LIMIT);
    assert_eq!(mul_fp(LIMIT, -LIMIT), -LIMIT);
    assert_eq!(add_fp(LIMIT, -LIMIT), 0);
}
