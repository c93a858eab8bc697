use fluent_static::function::{validate_number_args, ValidationError};
use fluent_static::number::Number;
use fluent_static::numformat::NumberFormat;
use fluent_static::value::Value;

#[test]
fn parse_integers_and_widths() {
    assert!(matches!(Number::from_str("0"), Ok(Number::I64(0))));
    assert!(matches!(Number::from_str("-42"), Ok(Number::I64(-42))));
    assert!(matches!(Number::from_str("18446744073709551615"), Ok(Number::U64(_))));
    assert!(Number::from_str("abc").is_err());
    assert!(Number::from_str("").is_err());
    assert!(Number::from_str("1.").is_err());
    assert!(Number::from_str(".5").is_err());
    assert!(Number::from_str("1.2.3").is_err());
}

#[test]
fn parse_decimals_canonical() {
    let a = Number::from_str("1.50").unwrap();
    let b = Number::from_str("1.5").unwrap();
    assert!(a.equals(&b));
    // a fraction of only zeros reads as an integer
    let c = Number::from_str("2.000").unwrap();
    assert!(c.equals(&Number::I64(2)));
    assert!(matches!(c, Number::I64(2)));
}

#[test]
fn integer_equality_widens() {
    assert!(Number::I64(7).equals(&Number::U64(7)));
    assert!(Number::I64(0).equals(&Number::U128(0)));
    assert!(!Number::I64(-1).equals(&Number::U64(1)));
    assert!(!Number::I64(1).equals(&Number::from_str("1.5").unwrap()));
}

#[test]
fn render_decimal_text() {
    assert_eq!("42", Number::I64(42).as_string());
    assert_eq!("-42", Number::I64(-42).as_string());
    assert_eq!("3.14", Number::from_str("3.14").unwrap().as_string());
    assert_eq!("0.05", Number::from_str("0.05").unwrap().as_string());
    assert_eq!("-0.5", Number::from_str("-0.500").unwrap().as_string());
    assert_eq!("1200.003", Number::from_str("1200.003").unwrap().as_string());
    assert_eq!("0", Number::from_str("-0").unwrap().as_string());
}

#[test]
fn try_number_value() {
    assert!(Value::try_number("17").is_number());
    assert!(Value::try_number("not a number").is_string());
}

#[test]
fn value_equality_ignores_format() {
    let plain = Value::number(Number::I64(3));
    let formatted = Value::formatted_number(Number::U64(3), NumberFormat::percent());
    assert!(plain.equals(&formatted));
    assert!(Value::text("a").equals(&Value::text("a")));
    assert!(!Value::text("3").equals(&plain));
    assert!(!Value::Empty.equals(&Value::Empty));
    assert!(!Value::Error.equals(&Value::Error));
}

#[test]
fn number_call_shape_validation() {
    let one = vec![Value::number(Number::I64(1))];
    assert!(validate_number_args(&one, &Vec::new()).is_ok());
    match validate_number_args(&Vec::new(), &Vec::new()) {
        Err(ValidationError::NumberOfPositionalParams { expected, actual, .. }) => {
            assert_eq!(1, expected);
            assert_eq!(0, actual);
        }
        other => panic!("unexpected result {:?}", other),
    }
    let named = vec![("style".to_string(), Value::text("decimal"))];
    match validate_number_args(&one, &named) {
        Err(ValidationError::Unimplemented { feature, .. }) => assert_eq!("style", feature),
        other => panic!("unexpected result {:?}", other),
    }
    let grouping = vec![("useGrouping".to_string(), Value::text("min2"))];
    assert!(validate_number_args(&one, &grouping).is_ok());
}
