//! Tests of the typed value model and its displayed text.

use practicestuff::ArgValue;

#[test]
fn arg_value_to_string() {
    let value = ArgValue::Int(-42);
    assert_eq!(value.to_string(), "-42");

    let value = ArgValue::UnsignedInt(42);
    assert_eq!(value.to_string(), "42");

    let value = ArgValue::Str("value".to_string());
    assert_eq!(value.to_string(), "value");

    let value = ArgValue::Bool(true);
    assert_eq!(value.to_string(), "true");
}

#[test]
fn arg_value_equality_is_structural() {
    assert_eq!(ArgValue::Int(-3), ArgValue::Int(-3));
    assert_ne!(ArgValue::Int(3), ArgValue::UnsignedInt(3));
    assert_eq!(
        ArgValue::Str("abc".to_string()),
        ArgValue::Str("abc".to_string())
    );
    assert_ne!(
        ArgValue::Str("abc".to_string()),
        ArgValue::Str("abd".to_string())
    );
    assert_ne!(ArgValue::Bool(true), ArgValue::Bool(false));
}
