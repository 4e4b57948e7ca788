use cql_gateway::decimal::{i64_to_dec, parse_i64_dec, u64_to_dec, usize_to_dec};

#[test]
fn renders_unsigned_decimals() {
    assert_eq!(u64_to_dec(0), "0");
    assert_eq!(u64_to_dec(7), "7");
    assert_eq!(u64_to_dec(10), "10");
    assert_eq!(u64_to_dec(90071992547409931), "90071992547409931");
    assert_eq!(u64_to_dec(u64::MAX), "18446744073709551615");
    assert_eq!(usize_to_dec(1234), "1234");
}

#[test]
fn renders_signed_decimals() {
    assert_eq!(i64_to_dec(0), "0");
    assert_eq!(i64_to_dec(42), "42");
    assert_eq!(i64_to_dec(-1), "-1");
    assert_eq!(i64_to_dec(i64::MAX), "9223372036854775807");
    assert_eq!(i64_to_dec(i64::MIN), "-9223372036854775808");
}

#[test]
fn parses_decimals() {
    assert_eq!(parse_i64_dec("0"), Some(0));
    assert_eq!(parse_i64_dec("42"), Some(42));
    assert_eq!(parse_i64_dec("-15"), Some(-15));
    assert_eq!(parse_i64_dec("007"), Some(7));
    assert_eq!(parse_i64_dec("9223372036854775807"), Some(i64::MAX));
    assert_eq!(parse_i64_dec("-9223372036854775808"), Some(i64::MIN));
}

#[test]
fn rejects_what_is_not_a_decimal() {
    assert_eq!(parse_i64_dec(""), None);
    assert_eq!(parse_i64_dec("-"), None);
    assert_eq!(parse_i64_dec("+5"), None);
    assert_eq!(parse_i64_dec("12a"), None);
    assert_eq!(parse_i64_dec("1 2"), None);
    assert_eq!(parse_i64_dec("--3"), None);
}

#[test]
fn rejects_out_of_range_values() {
    assert_eq!(parse_i64_dec("9223372036854775808"), None);
    assert_eq!(parse_i64_dec("-9223372036854775809"), None);
    assert_eq!(parse_i64_dec("99999999999999999999999999"), None);
}

#[test]
fn rendering_then_parsing_gives_the_value_back() {
    for v in [0i64, 1, -1, 31337, -31337, i64::MAX, i64::MIN] {
        assert_eq!(parse_i64_dec(&i64_to_dec(v)), Some(v));
    }
}
