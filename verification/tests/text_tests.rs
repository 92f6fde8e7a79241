use ferric_viewer::text::u64_to_dec;

#[test]
fn decimal_of_small_numbers() {
    assert_eq!(u64_to_dec(0), "0".to_string());
    assert_eq!(u64_to_dec(7), "7".to_string());
    assert_eq!(u64_to_dec(9), "9".to_string());
}

#[test]
fn decimal_of_round_numbers() {
    assert_eq!(u64_to_dec(10), "10".to_string());
    assert_eq!(u64_to_dec(100), "100".to_string());
    assert_eq!(u64_to_dec(1000), "1000".to_string());
}

#[test]
fn decimal_of_mixed_digits() {
    assert_eq!(u64_to_dec(123), "123".to_string());
    assert_eq!(u64_to_dec(907005), "907005".to_string());
}

#[test]
fn decimal_of_the_largest_value() {
    assert_eq!(u64_to_dec(u64::MAX), "18446744073709551615".to_string());
}
