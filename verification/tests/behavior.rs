use pure_helpers::add_numbers;
use pure_helpers::append_exclamation;
use pure_helpers::calculate_length;
use pure_helpers::divide_with_remainder;
use pure_helpers::parse_number;

#[test]
fn add_commutes_on_samples() {
    let pairs = [(2, 3), (-5, 3), (0, 0), (1000000, -1), (i32::MAX, i32::MIN)];
    for (a, b) in pairs {
        assert_eq!(add_numbers(a, b), add_numbers(b, a));
    }
}

#[test]
fn divide_truncates_toward_zero() {
    assert_eq!(divide_with_remainder(-17, 5), Ok((-3, -2)));
    assert_eq!(divide_with_remainder(17, -5), Ok((-3, 2)));
    assert_eq!(divide_with_remainder(-17, -5), Ok((3, -2)));
    assert_eq!(divide_with_remainder(0, 7), Ok((0, 0)));
    assert_eq!(divide_with_remainder(6, 3), Ok((2, 0)));
    assert_eq!(divide_with_remainder(i32::MIN, 2), Ok((-1073741824, 0)));
    assert_eq!(divide_with_remainder(i32::MIN, 1), Ok((i32::MIN, 0)));
    assert_eq!(divide_with_remainder(i32::MAX, -1), Ok((-i32::MAX, 0)));
}

#[test]
fn divide_by_zero_is_an_error() {
    let err = divide_with_remainder(10, 0).unwrap_err();
    assert_eq!(err, "Cannot divide by zero");
    assert!(divide_with_remainder(0, 0).is_err());
}

#[test]
fn divide_recombines_to_dividend() {
    let cases = [(17, 5), (10, 3), (-17, 5), (17, -5), (-17, -5), (123456, 789)];
    for (dividend, divisor) in cases {
        let (quotient, remainder) = divide_with_remainder(dividend, divisor).unwrap();
        assert_eq!(dividend, quotient * divisor + remainder);
        assert!(remainder.abs() < divisor.abs());
    }
}

#[test]
fn parse_error_message_names_the_input() {
    assert_eq!(
        parse_number("abc").unwrap_err(),
        "'abc' is not a valid number"
    );
    assert_eq!(
        parse_number("12.34").unwrap_err(),
        "'12.34' is not a valid number"
    );
    assert_eq!(parse_number("").unwrap_err(), "'' is not a valid number");
}

#[test]
fn parse_handles_i32_bounds() {
    assert_eq!(parse_number("2147483647"), Ok(i32::MAX));
    assert_eq!(parse_number("-2147483648"), Ok(i32::MIN));
    assert!(parse_number("2147483648").is_err());
    assert!(parse_number("-2147483649").is_err());
    assert!(parse_number("99999999999999999999").is_err());
    assert!(parse_number("-99999999999999999999").is_err());
}

#[test]
fn parse_rejects_stray_characters() {
    assert!(parse_number("+5").is_err());
    assert!(parse_number("-").is_err());
    assert!(parse_number(" 42").is_err());
    assert!(parse_number("42 ").is_err());
    assert!(parse_number("4\u{00e9}2").is_err());
    assert!(parse_number("--5").is_err());
}

#[test]
fn parse_accepts_leading_zeros() {
    assert_eq!(parse_number("007"), Ok(7));
    assert_eq!(parse_number("-007"), Ok(-7));
    assert_eq!(parse_number("-0"), Ok(0));
    assert_eq!(parse_number("0000000000000042"), Ok(42));
}

#[test]
fn length_counts_scalar_values_not_bytes() {
    let accented = String::from("caf\u{00e9}");
    assert_eq!(accented.len(), 5);
    assert_eq!(calculate_length(&accented), 4);
}

#[test]
fn append_exclamation_adds_one_mark() {
    let mut message = String::from("Rust");
    append_exclamation(&mut message);
    assert_eq!(message, "Rust!");

    let mut empty = String::new();
    append_exclamation(&mut empty);
    assert_eq!(empty, "!");

    append_exclamation(&mut empty);
    assert_eq!(empty, "!!");
}

#[test]
fn repeated_calls_agree() {
    assert_eq!(add_numbers(11, 31), add_numbers(11, 31));
    assert_eq!(divide_with_remainder(22, 7), divide_with_remainder(22, 7));
    assert_eq!(parse_number("-314"), parse_number("-314"));
    let text = String::from("same text");
    assert_eq!(calculate_length(&text), calculate_length(&text));
}
