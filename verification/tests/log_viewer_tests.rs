//! Tests for log parsing, filtering and counting.

use unpackrr::config::LogLevel as ConfigLogLevel;
use unpackrr::log_viewer::{LogEntry, LogLevel, LogViewer};
use unpackrr::logging::config_log_level_to_tracing;

#[test]
fn test_parse_structured_log() {
    let line =
        "2025-01-22T10:30:45.123456Z  INFO unpackrr::operations::scan: Starting BA2 scan"
            .to_string();
    let entry = LogEntry::parse(line);

    assert_eq!(entry.level, Some(LogLevel::Info));
    assert_eq!(
        entry.timestamp,
        Some("2025-01-22T10:30:45.123456Z".to_string())
    );
    assert_eq!(entry.target, Some("unpackrr::operations::scan".to_string()));
    assert_eq!(entry.message, "Starting BA2 scan");
}

#[test]
fn test_parse_error_log() {
    let line = "2025-01-22T10:30:45.123456Z ERROR unpackrr::error: File not found".to_string();
    let entry = LogEntry::parse(line);

    assert_eq!(entry.level, Some(LogLevel::Error));
    assert_eq!(entry.target, Some("unpackrr::error".to_string()));
}

#[test]
fn test_parse_unstructured_log() {
    let line = "Some random log message".to_string();
    let entry = LogEntry::parse(line.clone());

    assert_eq!(entry.level, None);
    assert_eq!(entry.timestamp, None);
    assert_eq!(entry.raw_line, line);
}

#[test]
fn test_log_level_ordering() {
    assert!(LogLevel::Error > LogLevel::Warn);
    assert!(LogLevel::Warn > LogLevel::Info);
    assert!(LogLevel::Info > LogLevel::Debug);
    assert!(LogLevel::Debug > LogLevel::Trace);
}

#[test]
fn test_matches_filter() {
    let info_entry =
        LogEntry::parse("2025-01-22T10:30:45.123456Z  INFO test: message".to_string());
    let debug_entry =
        LogEntry::parse("2025-01-22T10:30:45.123456Z DEBUG test: message".to_string());

    // An info filter shows info and above.
    assert!(info_entry.matches_filter(Some(LogLevel::Info)));
    assert!(!debug_entry.matches_filter(Some(LogLevel::Info)));

    // A debug filter shows debug and above.
    assert!(info_entry.matches_filter(Some(LogLevel::Debug)));
    assert!(debug_entry.matches_filter(Some(LogLevel::Debug)));

    // No filter shows all.
    assert!(info_entry.matches_filter(None));
    assert!(debug_entry.matches_filter(None));
}

#[test]
fn test_log_viewer_filtering() {
    let mut viewer = LogViewer::new();

    viewer.push_entry(LogEntry::parse(
        "2025-01-22T10:30:45.123456Z ERROR test: error".to_string(),
    ));
    viewer.push_entry(LogEntry::parse(
        "2025-01-22T10:30:45.123456Z  WARN test: warning".to_string(),
    ));
    viewer.push_entry(LogEntry::parse(
        "2025-01-22T10:30:45.123456Z  INFO test: info".to_string(),
    ));
    viewer.push_entry(LogEntry::parse(
        "2025-01-22T10:30:45.123456Z DEBUG test: debug".to_string(),
    ));

    // No filter shows all.
    assert_eq!(viewer.get_filtered_entries().len(), 4);

    // An info filter shows info, warn and error.
    viewer.set_filter(Some(LogLevel::Info));
    assert_eq!(viewer.get_filtered_entries().len(), 3);

    // An error filter shows only errors.
    viewer.set_filter(Some(LogLevel::Error));
    assert_eq!(viewer.get_filtered_entries().len(), 1);
}

#[test]
fn test_level_counts() {
    let mut viewer = LogViewer::new();

    viewer.push_entry(LogEntry::parse(
        "2025-01-22T10:30:45.123456Z ERROR test: error1".to_string(),
    ));
    viewer.push_entry(LogEntry::parse(
        "2025-01-22T10:30:45.123456Z ERROR test: error2".to_string(),
    ));
    viewer.push_entry(LogEntry::parse(
        "2025-01-22T10:30:45.123456Z  WARN test: warning".to_string(),
    ));
    viewer.push_entry(LogEntry::parse(
        "2025-01-22T10:30:45.123456Z  INFO test: info".to_string(),
    ));
    viewer.push_entry(LogEntry::parse(
        "2025-01-22T10:30:45.123456Z DEBUG test: debug".to_string(),
    ));

    let (trace, debug, info, warn, error) = viewer.get_level_counts();
    assert_eq!(trace, 0);
    assert_eq!(debug, 1);
    assert_eq!(info, 1);
    assert_eq!(warn, 1);
    assert_eq!(error, 2);
}

#[test]
fn test_log_level_conversion() {
    assert_eq!(
        config_log_level_to_tracing(ConfigLogLevel::Fatal),
        tracing::Level::ERROR
    );
    assert_eq!(
        config_log_level_to_tracing(ConfigLogLevel::Error),
        tracing::Level::ERROR
    );
    assert_eq!(
        config_log_level_to_tracing(ConfigLogLevel::Warning),
        tracing::Level::WARN
    );
    assert_eq!(
        config_log_level_to_tracing(ConfigLogLevel::Info),
        tracing::Level::INFO
    );
    assert_eq!(
        config_log_level_to_tracing(ConfigLogLevel::Debug),
        tracing::Level::DEBUG
    );
    assert_eq!(
        config_log_level_to_tracing(ConfigLogLevel::Trace),
        tracing::Level::TRACE
    );
}

#[test]
fn from_tracing_level_round_trips() {
    assert_eq!(
        LogLevel::from_tracing_level(&tracing::Level::ERROR),
        LogLevel::Error
    );
    assert_eq!(
        LogLevel::from_tracing_level(&tracing::Level::TRACE),
        LogLevel::Trace
    );
}

#[test]
fn load_logs_parses_each_line() {
    let mut viewer = LogViewer::new();
    viewer.load_logs(vec![
        "2025-01-22T10:30:45.123456Z  INFO a: first".to_string(),
        "plain line".to_string(),
    ]);
    let entries = viewer.get_all_entries();
    assert_eq!(entries.len(), 2);
    assert_eq!(entries[0].level, Some(LogLevel::Info));
    assert_eq!(entries[1].level, None);
    viewer.clear();
    assert_eq!(viewer.get_all_entries().len(), 0);
}

#[test]
fn level_names_and_colors() {
    assert_eq!(LogLevel::Warn.as_str(), "WARN");
    assert_eq!(LogLevel::Error.color(), "#FF0000");
}
