//! Tests for configuration defaults, validation and the ignore filter.

use regex::Regex;
use unpackrr::config::{looks_like_regex, should_ignore_file, AppConfig, LogLevel};

#[test]
fn test_default_config() {
    let config = AppConfig::default();
    assert_eq!(config.appearance.theme_mode, "dark");
    assert!(config.update.check_at_startup);
    assert_eq!(config.advanced.log_level, LogLevel::Warning);
    assert!(config.advanced.first_launch);
}

#[test]
fn test_postfix_validation() {
    let mut config = AppConfig::default();
    config.extraction.postfixes.push("invalid.txt".to_string());
    assert!(config.validate().is_err());
}

#[test]
fn test_postfix_validation_success() {
    let config = AppConfig::default();
    assert!(config.validate().is_ok());
}

#[test]
fn test_looks_like_regex() {
    assert!(looks_like_regex(".*\\.ba2$"));
    assert!(looks_like_regex("[0-9]+"));
    assert!(looks_like_regex("foo|bar"));
    assert!(!looks_like_regex("simple_string"));
    assert!(!looks_like_regex("file_name"));
}

#[test]
fn test_should_ignore_file_substring() {
    let ignored = vec!["test".to_string(), "debug".to_string()];
    let patterns = vec![];

    assert!(should_ignore_file("test_file.ba2", &ignored, &patterns));
    assert!(should_ignore_file("debug_textures.ba2", &ignored, &patterns));
    assert!(!should_ignore_file("main.ba2", &ignored, &patterns));
}

#[test]
fn test_should_ignore_file_regex() {
    let ignored = vec![".*test.*".to_string()];
    let patterns = vec![Regex::new(".*test.*").unwrap()];

    assert!(should_ignore_file("test_file.ba2", &ignored, &patterns));
    assert!(should_ignore_file("my_test_mod.ba2", &ignored, &patterns));
    assert!(!should_ignore_file("main.ba2", &ignored, &patterns));
}

#[test]
fn mod_test_invalid_regex_validation() {
    let mut config = AppConfig::default();
    config.extraction.ignored_files.push("[invalid".to_string());
    assert!(config.validate().is_err());
}

#[test]
fn test_invalid_postfix_validation() {
    let mut config = AppConfig::default();
    config.extraction.postfixes = vec!["Invalid".to_string()]; // No .ba2 extension

    let result = config.validate();
    assert!(result.is_err(), "Validation should fail for invalid postfix");
}

#[test]
fn test_valid_postfix_validation() {
    let mut config = AppConfig::default();
    config.extraction.postfixes = vec!["- Textures.ba2".to_string()];

    let result = config.validate();
    assert!(result.is_ok(), "Validation should pass for valid postfix");
}

#[test]
fn config_persistence_test_invalid_regex_validation() {
    let mut config = AppConfig::default();
    config.extraction.ignored_files = vec!["[invalid(".to_string()]; // Invalid regex

    let result = config.validate();
    assert!(result.is_err(), "Validation should fail for invalid regex");
}

#[test]
fn test_default_config_is_valid() {
    let config = AppConfig::default();
    assert!(config.validate().is_ok(), "Default config should be valid");
}

#[test]
fn ignore_exact_path_matches_only_that_file() {
    let mut config = AppConfig::default();
    config
        .extraction
        .ignored_files
        .push("TestMod1/TestMod1_Main.ba2".to_string());

    assert!(config.should_ignore_file("TestMod1/TestMod1_Main.ba2"));
    assert!(!config.should_ignore_file("TestMod2/TestMod2_Main.ba2"));
}

#[test]
fn regex_shaped_entry_matches_through_the_method() {
    let mut config = AppConfig::default();
    config.extraction.ignored_files.push(".*test.*".to_string());

    assert!(config.should_ignore_file("mods/my_test_mod.ba2"));
    assert!(!config.should_ignore_file("mods/main.ba2"));
    // The heuristic is case-sensitive for regex-shaped entries.
    assert!(!config.should_ignore_file("mods/my_TEST_mod.ba2"));
}

#[test]
fn get_ignored_patterns_compiles_only_regex_shaped_entries() {
    let mut config = AppConfig::default();
    config.extraction.ignored_files = vec![
        "plain_entry".to_string(),
        "shaped.*".to_string(),
        "another_plain".to_string(),
    ];

    let patterns = config.get_ignored_patterns().unwrap();
    assert_eq!(patterns.len(), 1);
    assert_eq!(patterns[0].as_str(), "shaped.*");
}

#[test]
fn config_file_path_names_the_config_file() {
    let path = AppConfig::config_file_path().unwrap();
    assert!(path.ends_with("config.json"));
}
