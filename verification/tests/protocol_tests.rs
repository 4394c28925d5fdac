use rust_quiz::protocol::validate_username;
use rust_quiz::protocol::DEFAULT_PORT;
use rust_quiz::protocol::USERNAME_MAX_LENGTH;
use rust_quiz::protocol::USERNAME_MIN_LENGTH;

#[test]
fn test_validate_username() {
    assert!(validate_username("abc").is_ok());
    assert!(validate_username("abcdefghijklmnop").is_ok()); // 16 chars
    assert!(validate_username("ab").is_err());
    assert!(validate_username("abcdefghijklmnopq").is_err()); // 17 chars
    assert!(validate_username("  ab  ").is_err()); // trimmed = 2 chars
}

#[test]
fn test_validate_username_reasons() {
    assert_eq!(
        validate_username("ab"),
        Err("Username must be at least 3 characters")
    );
    assert_eq!(
        validate_username("abcdefghijklmnopq"),
        Err("Username must be at most 16 characters")
    );
    assert_eq!(validate_username("   abc   "), Ok(()));
}

#[test]
fn test_username_limits_are_the_documented_ones() {
    assert_eq!(USERNAME_MIN_LENGTH, 3);
    assert_eq!(USERNAME_MAX_LENGTH, 16);
    assert_eq!(DEFAULT_PORT, 8712);
}
