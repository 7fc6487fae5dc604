use logria::number::number_text;

/// The first number of a message, read as a float.
fn extract_number(message: &str) -> Option<f64> {
    number_text(message).parse::<f64>().ok()
}

#[test]
fn no_number() {
    assert!(extract_number("this is a test").is_none());
}

#[test]
fn only_number() {
    assert!(extract_number("834234.34").unwrap() - 834234.34 == 0.);
}

#[test]
fn only_number_comma() {
    assert!(extract_number("834,234.34").unwrap() - 834234.34 == 0.);
}

#[test]
fn only_number_multiple_commas() {
    assert!(extract_number("834,789,234.34").unwrap() - 834789234.34 == 0.);
}

#[test]
fn negative_number() {
    assert!(extract_number("test -83,234.34 this is").unwrap() + 83234.34 == 0.);
}

#[test]
fn double_negative_number() {
    assert!(extract_number("test --83,234.34 this is").is_none());
}

#[test]
fn trailing_negative_number() {
    assert!(extract_number("test 83,234.34-- this is").is_none());
}

#[test]
fn number_period_extra() {
    assert!(extract_number("this is a 123.123.123 test").is_none());
}

#[test]
fn number_trailing_comma() {
    assert!(extract_number("this is a 123.123,123 test").unwrap() - 123.123123 == 0.);
}

#[test]
fn number_trailing_decimal() {
    assert!(extract_number("this is a 123.123. test").is_none());
}

#[test]
fn one_number_end() {
    assert!(extract_number("this is a test 123.4").unwrap() - 123.4 == 0.);
}

#[test]
fn one_number_middle() {
    assert!(extract_number("this is 123.46 a test").unwrap() - 123.46 == 0.);
}

#[test]
fn one_number_start() {
    assert!(extract_number("653.12 this is a test").unwrap() - 653.12 == 0.);
}

#[test]
fn no_spaces() {
    assert!(extract_number("thisis983.12a test").unwrap() - 983.12 == 0.);
}

#[test]
fn two_numbers_start_end() {
    assert!(extract_number("4.123 this is a test 123.4").unwrap() - 4.123 == 0.);
}

#[test]
fn two_numbers_middle() {
    assert!(extract_number("this 1337 is 5543 a test").unwrap() - 1337. == 0.);
}
