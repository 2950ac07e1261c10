use pure_helpers::add_numbers;
use pure_helpers::calculate_length;
use pure_helpers::divide_with_remainder;
use pure_helpers::parse_number;

#[test]
fn test_add_numbers() {
    assert_eq!(add_numbers(2, 3), 5);
    assert_eq!(add_numbers(0, 0), 0);
    assert_eq!(add_numbers(-5, 3), -2);
}

#[test]
fn test_divide_with_remainder() {
    let (quotient, remainder) = divide_with_remainder(17, 5).unwrap();
    assert_eq!(quotient, 3);
    assert_eq!(remainder, 2);

    let (quotient, remainder) = divide_with_remainder(10, 3).unwrap();
    assert_eq!(quotient, 3);
    assert_eq!(remainder, 1);
}

#[test]
fn test_parse_number() {
    assert_eq!(parse_number("42"), Ok(42));
    assert_eq!(parse_number("0"), Ok(0));
    assert_eq!(parse_number("-123"), Ok(-123));

    assert!(parse_number("abc").is_err());
    assert!(parse_number("").is_err());
    assert!(parse_number("12.34").is_err());
}

#[test]
fn test_calculate_length() {
    let test_string = String::from("Hello, Rust!");
    assert_eq!(calculate_length(&test_string), 12);

    let empty_string = String::new();
    assert_eq!(calculate_length(&empty_string), 0);
}
