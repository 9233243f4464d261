use scalper::parse::{matches_ignore_case, parse_scaled, parse_u64, Scaled};

fn scaled(value: i128, sign: i8) -> Option<Scaled> {
    Some(Scaled { value, sign })
}

#[test]
fn reads_price_in_cents() {
    assert_eq!(parse_scaled("65000.12", 2), scaled(6_500_012, 1));
    assert_eq!(parse_scaled("65000.1", 2), scaled(6_500_010, 1));
    assert_eq!(parse_scaled("65000", 2), scaled(6_500_000, 1));
}

#[test]
fn reads_quantity_at_eight_places() {
    assert_eq!(parse_scaled("0.00100000", 8), scaled(100_000, 1));
    assert_eq!(parse_scaled("1.5", 8), scaled(150_000_000, 1));
}

#[test]
fn rounds_half_away_from_zero() {
    assert_eq!(parse_scaled("0.005", 2), scaled(1, 1));
    assert_eq!(parse_scaled("0.00499", 2), scaled(0, 1));
    assert_eq!(parse_scaled("-1.5", 0), scaled(-2, -1));
    assert_eq!(parse_scaled("2.449", 1), scaled(24, 1));
}

#[test]
fn zero_has_zero_sign() {
    assert_eq!(parse_scaled("0", 8), scaled(0, 0));
    assert_eq!(parse_scaled("0.00000000", 8), scaled(0, 0));
    assert_eq!(parse_scaled("-0.0", 8), scaled(0, 0));
}

#[test]
fn accepts_sign_and_bare_point_forms() {
    assert_eq!(parse_scaled("+3", 0), scaled(3, 1));
    assert_eq!(parse_scaled("5.", 1), scaled(50, 1));
    assert_eq!(parse_scaled(".5", 1), scaled(5, 1));
    assert_eq!(parse_scaled("-.25", 2), scaled(-25, -1));
}

#[test]
fn rejects_what_is_not_a_decimal_number() {
    assert_eq!(parse_scaled("", 2), None);
    assert_eq!(parse_scaled(".", 2), None);
    assert_eq!(parse_scaled("-", 2), None);
    assert_eq!(parse_scaled("abc", 2), None);
    assert_eq!(parse_scaled("1.2.3", 2), None);
    assert_eq!(parse_scaled(" 1", 2), None);
}

#[test]
fn reads_exponents() {
    assert_eq!(parse_scaled("1e1", 8), scaled(10 * 100_000_000, 1));
    assert_eq!(parse_scaled("1e2", 2), scaled(10_000, 1));
    assert_eq!(parse_scaled("2.5E-1", 2), scaled(25, 1));
    assert_eq!(parse_scaled("-1.5e+2", 0), scaled(-150, -1));
    assert_eq!(parse_scaled("5.e1", 0), scaled(50, 1));
    assert_eq!(parse_scaled(".5e1", 0), scaled(5, 1));
    assert_eq!(parse_scaled("125e-3", 2), scaled(13, 1));
    assert_eq!(parse_scaled("1e-9", 8), scaled(0, 1));
    assert_eq!(parse_scaled("0e4000", 8), scaled(0, 0));
    assert_eq!(parse_scaled("1e-4000", 8), scaled(0, 1));
    assert_eq!(parse_scaled("1e-5000", 8), scaled(0, 1));
    assert_eq!(parse_scaled("-2.5e-99999999999999999999999999999999999999", 8), scaled(0, -1));
    assert_eq!(parse_scaled("0e99999999999999999999999999999999999999", 8), scaled(0, 0));
    assert_eq!(parse_scaled("0.000e5000", 8), scaled(0, 0));
    assert_eq!(parse_scaled("0.0001e42", 0), scaled(100_000_000_000_000_000_000_000_000_000_000_000_000, 1));
}

#[test]
fn rejects_malformed_or_unrepresentable_exponents() {
    assert_eq!(parse_scaled("1e", 2), None);
    assert_eq!(parse_scaled("e5", 2), None);
    assert_eq!(parse_scaled("1e+", 2), None);
    assert_eq!(parse_scaled("1e2.5", 2), None);
    assert_eq!(parse_scaled("1e2e3", 2), None);
    assert_eq!(parse_scaled("1e4001", 2), None);
    assert_eq!(parse_scaled("1e99999999999999999999999999999999999", 2), None);
    assert_eq!(parse_scaled("inf", 2), None);
    assert_eq!(parse_scaled("NaN", 2), None);
}

#[test]
fn reads_magnitudes_up_to_i128() {
    assert_eq!(parse_scaled("100000000000", 8), scaled(100_000_000_000 * 100_000_000, 1));
    assert_eq!(parse_scaled("170141183460469231731687303715884105727", 0), scaled(i128::MAX, 1));
    assert_eq!(parse_scaled("-170141183460469231731687303715884105727", 0), scaled(-i128::MAX, -1));
    assert_eq!(parse_scaled("170141183460469231731687303715884105728", 0), None);
    assert_eq!(parse_scaled("1701411834604692317316873037158.84105727", 8), scaled(i128::MAX, 1));
    assert_eq!(parse_scaled("1701411834604692317316873037158.841057275", 8), None);
    assert_eq!(parse_scaled("1e31", 8), None);
    assert_eq!(parse_scaled("1e30", 8), scaled(100_000_000_000_000_000_000_000_000_000_000_000_000, 1));
}

#[test]
fn reads_unsigned_integers() {
    assert_eq!(parse_u64("5"), Some(5));
    assert_eq!(parse_u64("+7"), Some(7));
    assert_eq!(parse_u64("007"), Some(7));
    assert_eq!(parse_u64("18446744073709551615"), Some(u64::MAX));
    assert_eq!(parse_u64("18446744073709551616"), None);
    assert_eq!(parse_u64("-1"), None);
    assert_eq!(parse_u64("+"), None);
    assert_eq!(parse_u64(""), None);
    assert_eq!(parse_u64("5.0"), None);
}

#[test]
fn compares_words_ignoring_case() {
    assert!(matches_ignore_case("FUTURES", "futures"));
    assert!(matches_ignore_case("Future", "future"));
    assert!(matches_ignore_case("futures", "futures"));
    assert!(!matches_ignore_case("future", "futures"));
    assert!(!matches_ignore_case("spot", "futures"));
    assert!(!matches_ignore_case("FUTURE5", "futures"));
}
