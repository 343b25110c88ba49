//! Tests for the error taxonomy, its messages and classification.

use unpackrr::error::{BA2Error, Error, IoKind, ValidationError};

#[test]
fn test_error_display() {
    let err = Error::other("test error");
    assert_eq!(err.message(), "test error");
}

#[test]
fn test_ba2_corrupted_check() {
    let err = Error::BA2(BA2Error::Corrupted {
        path: "test.ba2".to_string(),
        reason: "invalid header".to_string(),
    });
    assert!(err.is_ba2_corrupted());
}

#[test]
fn test_user_message() {
    let err = Error::Validation(ValidationError::PathNotFound("/test/path".to_string()));
    let msg = err.user_message();
    assert!(msg.contains("Path not found"));
}

#[test]
fn test_is_transient_io_interrupted() {
    let err = Error::IO {
        kind: IoKind::Interrupted,
        message: "interrupted".to_string(),
    };
    assert!(err.is_transient());
}

#[test]
fn test_is_transient_permanent_error() {
    let err = Error::Validation(ValidationError::PathNotFound("/test".to_string()));
    assert!(!err.is_transient());
}

#[test]
fn test_recovery_suggestions() {
    let err = Error::BA2(BA2Error::Corrupted {
        path: "test.ba2".to_string(),
        reason: "invalid header".to_string(),
    });
    let suggestions = err.recovery_suggestions();
    assert!(!suggestions.is_empty());
    assert!(suggestions.iter().any(|s| s.contains("re-downloading")));
}

#[test]
fn test_user_message_io_not_found() {
    let err = Error::IO {
        kind: IoKind::NotFound,
        message: "entity not found".to_string(),
    };
    let msg = err.user_message();
    assert_eq!(msg, "File or folder not found");
}

#[test]
fn test_detailed_report() {
    let err = Error::other("test error");
    let report = err.detailed_report();
    assert!(report.contains("test error"));
    assert!(report.contains("Error Type"));
    assert!(report.contains("User Message"));
    assert!(report.contains("Version"));
    assert!(report.contains("Platform"));
}

#[test]
fn detailed_report_numbers_the_suggestions() {
    let err = Error::Validation(ValidationError::InvalidSize("bogus".to_string()));
    let report = err.detailed_report();
    assert!(report.contains("Recovery Suggestions:\n"));
    assert!(report.contains("1. Use format like '500MB' or '2GB'\n"));
    assert!(report.contains("2. Valid units: B, KB, MB, GB, TB\n"));
    assert!(report.contains("3. Numbers without units are treated as bytes\n"));
}

#[test]
fn transient_errors_include_the_busy_tool() {
    let err = Error::BA2(BA2Error::BSArchExecFailed("busy".to_string()));
    assert!(err.is_transient());
    let note = Error::IO {
        kind: IoKind::TimedOut,
        message: String::new(),
    };
    assert!(note.is_transient());
    let perm = Error::other("nope");
    assert!(!perm.is_transient());
}

#[test]
fn message_texts_follow_the_variant() {
    let err = Error::BA2(BA2Error::UnsupportedVersion {
        version: 3,
        path: "x.ba2".to_string(),
    });
    assert_eq!(err.message(), "BA2 error: Unsupported BA2 version 3 in file x.ba2");
    assert_eq!(err.user_message(), "'x.ba2' uses unsupported BA2 version 3");
}
