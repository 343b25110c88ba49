//! Tests for toast and dialog data.

use unpackrr::notifications::{DialogConfig, NotificationType, ToastData};

#[test]
fn test_toast_data_success() {
    let toast = ToastData::success("Test message");
    assert_eq!(toast.message, "Test message");
    assert!(matches!(toast.notification_type, NotificationType::Success));
    assert!(toast.show);
}

#[test]
fn test_toast_data_error() {
    let toast = ToastData::error("Error message");
    assert_eq!(toast.message, "Error message");
    assert!(matches!(toast.notification_type, NotificationType::Error));
    assert!(toast.show);
}

#[test]
fn test_toast_data_warning() {
    let toast = ToastData::warning("Warning message");
    assert_eq!(toast.message, "Warning message");
    assert!(matches!(toast.notification_type, NotificationType::Warning));
    assert!(toast.show);
}

#[test]
fn test_toast_data_info() {
    let toast = ToastData::info("Info message");
    assert_eq!(toast.message, "Info message");
    assert!(matches!(toast.notification_type, NotificationType::Info));
    assert!(toast.show);
}

#[test]
fn test_dialog_config_info() {
    let config = DialogConfig::info("Title", "Message");
    assert_eq!(config.title, "Title");
    assert_eq!(config.message, "Message");
    assert!(matches!(config.dialog_type, NotificationType::Info));
    assert_eq!(config.primary_button, "OK");
    assert!(config.secondary_button.is_none());
}

#[test]
fn test_dialog_config_confirm() {
    let config = DialogConfig::confirm("Confirm", "Are you sure?");
    assert_eq!(config.title, "Confirm");
    assert_eq!(config.message, "Are you sure?");
    assert!(matches!(config.dialog_type, NotificationType::Warning));
    assert_eq!(config.primary_button, "Yes");
    assert_eq!(config.secondary_button, Some("No".to_string()));
}

#[test]
fn test_dialog_config_builder() {
    let config = DialogConfig::info("Title", "Message")
        .with_primary_button("Continue")
        .with_secondary_button("Cancel");

    assert_eq!(config.primary_button, "Continue");
    assert_eq!(config.secondary_button, Some("Cancel".to_string()));
}
