use build_graph::parse::parse_user_count;

#[test]
fn plain_number() {
    assert_eq!(parse_user_count("10"), 10);
}

#[test]
fn non_numeric_resolves_to_zero() {
    assert_eq!(parse_user_count("bad"), 0);
}

#[test]
fn empty_resolves_to_zero() {
    assert_eq!(parse_user_count(""), 0);
}

#[test]
fn negative_number() {
    assert_eq!(parse_user_count("-5"), -5);
}

#[test]
fn explicit_plus_sign() {
    assert_eq!(parse_user_count("+7"), 7);
}

#[test]
fn bare_sign_resolves_to_zero() {
    assert_eq!(parse_user_count("-"), 0);
    assert_eq!(parse_user_count("+"), 0);
}

#[test]
fn leading_zeros() {
    assert_eq!(parse_user_count("007"), 7);
}

#[test]
fn largest_value() {
    assert_eq!(parse_user_count("2147483647"), i32::MAX);
}

#[test]
fn smallest_value() {
    assert_eq!(parse_user_count("-2147483648"), i32::MIN);
}

#[test]
fn overflow_resolves_to_zero() {
    assert_eq!(parse_user_count("2147483648"), 0);
    assert_eq!(parse_user_count("-2147483649"), 0);
    assert_eq!(parse_user_count("99999999999999999999"), 0);
}

#[test]
fn trailing_junk_resolves_to_zero() {
    assert_eq!(parse_user_count("12a"), 0);
    assert_eq!(parse_user_count("1 2"), 0);
    assert_eq!(parse_user_count("1.5"), 0);
}
