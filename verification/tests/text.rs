use nila::error::AppError;
use nila::greet;
use nila::text::contains_str;
use nila::text::format_i64;
use nila::text::format_u64;
use nila::text::join_strings;

#[test]
fn formats_integers_in_decimal() {
    assert_eq!(format_i64(0), "0");
    assert_eq!(format_i64(7), "7");
    assert_eq!(format_i64(-5), "-5");
    assert_eq!(format_i64(1234567890), "1234567890");
    assert_eq!(format_i64(i64::MIN), "-9223372036854775808");
    assert_eq!(format_i64(i64::MAX), "9223372036854775807");
    assert_eq!(format_u64(u64::MAX), "18446744073709551615");
    assert_eq!(format_u64(10), "10");
}

#[test]
fn finds_substrings() {
    assert!(contains_str("error: no such table: _sqlx_migrations", "no such table"));
    assert!(contains_str("abc", ""));
    assert!(contains_str("abc", "abc"));
    assert!(!contains_str("ab", "abc"));
    assert!(!contains_str("no such tabl", "no such table"));
}

#[test]
fn joins_with_separator() {
    let parts = vec!["a = ?".to_string(), "b = 1".to_string(), "c".to_string()];
    assert_eq!(join_strings(&parts, ", "), "a = ?, b = 1, c");
    assert_eq!(join_strings(&vec!["x".to_string()], ", "), "x");
    assert_eq!(join_strings(&Vec::new(), ", "), "");
}

#[test]
fn greets_by_name() {
    assert_eq!(
        greet("Ada"),
        "Hello, Ada! You've been greeted from Rust with hot reload!"
    );
}

#[test]
fn error_messages_carry_their_category() {
    assert_eq!(AppError::Sql("x".into()).message(), "database error: x");
    assert_eq!(AppError::Crypto("x".into()).message(), "crypto error: x");
    assert_eq!(AppError::Store("x".into()).message(), "store error: x");
    assert_eq!(AppError::NotFound("model 3".into()).message(), "not found: model 3");
    assert_eq!(AppError::Validation("v".into()).message(), "validation error: v");
}

#[test]
fn trims_unicode_white_space_like_std() {
    let samples = [
        "", "   ", " a ", "\t\n a b \r\n", "\u{3000}x\u{85}", "\u{a0}\u{2028}y z\u{200a}",
        "\u{200b}w\u{200b}", "no-space",
    ];
    for s in samples {
        assert_eq!(nila::text::trim(s), s.trim());
    }
}
