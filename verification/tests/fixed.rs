use scalper::fixed::{fx_div, fx_mul, quot, sat_add, sat_mul, sat_sub, SCALE};

#[test]
fn fixed_product_truncates_toward_zero() {
    assert_eq!(fx_mul(150_000_000, 200_000_000), 300_000_000);
    assert_eq!(fx_mul(-10_000_000, 495_049_504), -49_504_950);
    assert_eq!(fx_mul(1, 1), 0);
}

#[test]
fn fixed_quotient_truncates_and_guards_zero() {
    assert_eq!(fx_div(50_000_000_000, 10_100_000_000), 495_049_504);
    assert_eq!(fx_div(-1 * SCALE, 3 * SCALE), -33_333_333);
    assert_eq!(fx_div(SCALE, 0), 0);
}

#[test]
fn integer_quotient_rounds_toward_zero() {
    assert_eq!(quot(7, 2), 3);
    assert_eq!(quot(-7, 2), -3);
    assert_eq!(quot(7, -2), -3);
    assert_eq!(quot(-7, -2), 3);
    assert_eq!(quot(5, 0), 0);
    assert_eq!(quot(i128::MIN, -1), i128::MAX);
    assert_eq!(quot(i128::MIN, 1), i128::MIN);
}

#[test]
fn operations_saturate() {
    assert_eq!(sat_add(i128::MAX, 1), i128::MAX);
    assert_eq!(sat_add(i128::MIN, -1), i128::MIN);
    assert_eq!(sat_sub(i128::MIN, 1), i128::MIN);
    assert_eq!(sat_sub(0, i128::MIN), i128::MAX);
    assert_eq!(sat_mul(i128::MAX, 2), i128::MAX);
    assert_eq!(sat_mul(i128::MAX, -2), i128::MIN);
    assert_eq!(sat_mul(3, -4), -12);
}
