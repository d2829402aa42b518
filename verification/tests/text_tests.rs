use activity_inquirer::text::{decimal, signed_decimal, two_digits};

#[test]
fn decimal_of_single_digits() {
    for n in 0u64..10 {
        assert_eq!(decimal(n), format!("{}", n));
    }
}

#[test]
fn decimal_of_larger_numbers() {
    assert_eq!(decimal(10), "10");
    assert_eq!(decimal(109), "109");
    assert_eq!(decimal(4_294_967_296), "4294967296");
    assert_eq!(decimal(u64::MAX), "18446744073709551615");
}

#[test]
fn two_digits_pads_with_zero() {
    assert_eq!(two_digits(0), "00");
    assert_eq!(two_digits(7), "07");
    assert_eq!(two_digits(10), "10");
    assert_eq!(two_digits(99), "99");
}

#[test]
fn signed_decimal_puts_a_minus_before_negative_numbers() {
    assert_eq!(signed_decimal(0), "0");
    assert_eq!(signed_decimal(42), "42");
    assert_eq!(signed_decimal(-1), "-1");
    assert_eq!(signed_decimal(i32::MAX), "2147483647");
    assert_eq!(signed_decimal(i32::MIN), "-2147483648");
}
