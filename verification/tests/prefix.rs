use radicle_plan_cob::prefix::{check_hex_prefix, validate_hex_prefix, PrefixError, MIN_PREFIX_LEN};

#[test]
fn test_validate_hex_prefix_valid() {
    let result = validate_hex_prefix("abcdef0", "test").unwrap();
    assert_eq!(result, "abcdef0");
}

#[test]
fn test_validate_hex_prefix_normalizes_uppercase() {
    let result = validate_hex_prefix("ABCDEF0", "test").unwrap();
    assert_eq!(result, "abcdef0");
}

#[test]
fn test_validate_hex_prefix_too_short() {
    let err = validate_hex_prefix("abcdef", "test").unwrap_err();
    assert!(err.to_string().contains("too short"));
}

#[test]
fn test_validate_hex_prefix_non_hex() {
    let err = validate_hex_prefix("xyz1234", "test").unwrap_err();
    assert!(err.to_string().contains("not a valid hex string"));
}

#[test]
fn test_validate_hex_prefix_empty() {
    let err = validate_hex_prefix("", "test").unwrap_err();
    assert!(err.to_string().contains("too short"));
}

#[test]
fn hex_prefix_messages_are_exact() {
    let err = validate_hex_prefix("xyz1234", "task ID").unwrap_err();
    assert_eq!(err.to_string(), "Invalid task ID 'xyz1234': not a valid hex string");
    assert!(matches!(err, PrefixError::NotHex { .. }));
    let err = validate_hex_prefix("ABC", "ID").unwrap_err();
    assert_eq!(err.to_string(), "ID prefix 'ABC' too short: need at least 7 characters");
    assert!(matches!(err, PrefixError::TooShort { .. }));
}

#[test]
fn hex_prefix_non_hex_is_tested_before_length() {
    let err = validate_hex_prefix("xy", "ID").unwrap_err();
    assert!(matches!(err, PrefixError::NotHex { .. }));
}

#[test]
fn hex_prefix_of_exactly_the_least_length() {
    assert_eq!(MIN_PREFIX_LEN, 7);
    assert_eq!(validate_hex_prefix("0123456", "ID").unwrap(), "0123456");
    assert!(validate_hex_prefix("012345", "ID").is_err());
    assert_eq!(
        validate_hex_prefix("0123456789ABCDEFabcdef", "ID").unwrap(),
        "0123456789abcdefabcdef"
    );
}

#[test]
fn check_hex_prefix_takes_the_lowered_string_as_given() {
    // The check itself lowers nothing: an upper-case digit is a digit.
    assert_eq!(check_hex_prefix("ABCDEF0", "ABCDEF0".to_string(), "ID").unwrap(), "ABCDEF0");
    assert!(check_hex_prefix("é", "é123456".to_string(), "ID").is_err());
}
