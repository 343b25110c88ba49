//! Tests for size parsing and formatting.

use unpackrr::operations::{format_size, parse_size};

#[test]
fn mod_test_parse_size() {
    assert_eq!(parse_size("100B").unwrap(), 100);
    assert_eq!(parse_size("1KB").unwrap(), 1_000);
    assert_eq!(parse_size("1MB").unwrap(), 1_000_000);
    assert_eq!(parse_size("1.5MB").unwrap(), 1_500_000);
    assert_eq!(parse_size("10GB").unwrap(), 10_000_000_000);
}

#[test]
fn mod_test_parse_size_case_insensitive() {
    assert_eq!(parse_size("1mb").unwrap(), parse_size("1MB").unwrap());
    assert_eq!(parse_size("1kb").unwrap(), 1_000);
}

#[test]
fn test_parse_size_no_suffix() {
    // A missing byte suffix is appended.
    assert_eq!(parse_size("100").unwrap(), 100);
    assert_eq!(parse_size("1K").unwrap(), 1_000);
}

#[test]
fn test_parse_size_with_spaces() {
    assert_eq!(parse_size("1 MB").unwrap(), 1_000_000);
    assert_eq!(parse_size(" 100 KB ").unwrap(), 100_000);
}

#[test]
fn test_parse_size_invalid() {
    assert!(parse_size("invalid").is_err());
    assert!(parse_size("").is_err());
    assert!(parse_size("MB").is_err());
}

#[test]
fn parse_size_reads_terabytes() {
    assert_eq!(parse_size("2TB").unwrap(), 2_000_000_000_000);
    assert_eq!(parse_size("0.5TB").unwrap(), 500_000_000_000);
}

#[test]
fn parse_size_saturates_past_the_top() {
    assert_eq!(parse_size("99999999999999999999999TB").unwrap(), u64::MAX);
}

#[test]
fn parse_size_rejects_double_dots() {
    assert!(parse_size("1.2.3MB").is_err());
    assert!(parse_size(".MB").is_err());
}

#[test]
fn mod_test_format_size() {
    let formatted = format_size(1024);
    assert!(formatted.contains("1"));
    assert!(formatted.contains("Ki")); // binary units spell kibi
}
