use rust2py::adder::sum_as_string;
use rust2py::adder::SumError;
use rust2py::decimal::usize_to_decimal;

#[test]
fn zero_plus_zero_is_zero() {
    assert_eq!(sum_as_string(0, 0), Ok(String::from("0")));
}

#[test]
fn two_plus_three_is_five() {
    assert_eq!(sum_as_string(2, 3), Ok(String::from("5")));
}

#[test]
fn multi_digit_sums() {
    assert_eq!(sum_as_string(17, 25), Ok(String::from("42")));
    assert_eq!(sum_as_string(9, 1), Ok(String::from("10")));
    assert_eq!(sum_as_string(44500, 45501), Ok(String::from("90001")));
    assert_eq!(sum_as_string(999, 1), Ok(String::from("1000")));
}

#[test]
fn commutative_on_samples() {
    assert_eq!(sum_as_string(17, 25), sum_as_string(25, 17));
    assert_eq!(sum_as_string(0, 7), sum_as_string(7, 0));
    assert_eq!(sum_as_string(usize::MAX, 1), sum_as_string(1, usize::MAX));
}

#[test]
fn zero_is_identity_on_samples() {
    assert_eq!(sum_as_string(42, 0), Ok(usize_to_decimal(42)));
    assert_eq!(sum_as_string(0, 0), Ok(usize_to_decimal(0)));
    assert_eq!(sum_as_string(usize::MAX, 0), Ok(usize_to_decimal(usize::MAX)));
}

#[test]
fn overflow_fails_explicitly() {
    assert_eq!(sum_as_string(usize::MAX, 1), Err(SumError::ArithmeticOverflow));
    assert_eq!(sum_as_string(1, usize::MAX), Err(SumError::ArithmeticOverflow));
    assert_eq!(
        sum_as_string(usize::MAX, usize::MAX),
        Err(SumError::ArithmeticOverflow)
    );
}

#[test]
fn largest_sum_still_succeeds() {
    let max_text = usize::MAX.to_string();
    assert_eq!(sum_as_string(usize::MAX, 0), Ok(max_text.clone()));
    assert_eq!(sum_as_string(usize::MAX - 1, 1), Ok(max_text));
}

#[test]
fn repeated_calls_agree() {
    assert_eq!(sum_as_string(123, 456), sum_as_string(123, 456));
    assert_eq!(sum_as_string(usize::MAX, 2), sum_as_string(usize::MAX, 2));
}

#[test]
fn decimal_text_matches_std_formatting() {
    for n in [0usize, 1, 7, 9, 10, 11, 99, 100, 101, 12345, 1000000, usize::MAX] {
        assert_eq!(usize_to_decimal(n), n.to_string());
    }
}

#[test]
fn decimal_text_exact_values() {
    assert_eq!(usize_to_decimal(0), "0");
    assert_eq!(usize_to_decimal(7), "7");
    assert_eq!(usize_to_decimal(10), "10");
    assert_eq!(usize_to_decimal(907), "907");
    assert_eq!(usize_to_decimal(18446744073709551615), "18446744073709551615");
}
