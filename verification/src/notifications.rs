//! Notification and dialog data for the user interface.
//!
//! The front end renders these values; only their construction is the
//! library's concern.

use vstd::prelude::*;

verus! {

/// The tone of a notification or dialog.
#[derive(Debug, Clone, Copy, PartialEq, Eq, Structural)]
pub enum NotificationType {
    /// A success message.
    Success,
    /// An error message.
    Error,
    /// A warning.
    Warning,
    /// An informational message.
    Info,
}

/// A toast notification.
#[derive(Debug, Clone, PartialEq, Eq)]
pub struct ToastData {
    /// The message shown.
    pub message: String,
    /// Its tone.
    pub notification_type: NotificationType,
    /// Whether it is visible.
    pub show: bool,
}

impl ToastData {
    /// A success toast.
    pub fn success(message: &str) -> (r: ToastData)
        ensures
            r.message@ == message@,
            r.notification_type == NotificationType::Success,
            r.show,
    {
        ToastData {
            message: message.to_owned(),
            notification_type: NotificationType::Success,
            show: true,
        }
    }

    /// An error toast.
    pub fn error(message: &str) -> (r: ToastData)
        ensures
            r.message@ == message@,
            r.notification_type == NotificationType::Error,
            r.show,
    {
        ToastData {
            message: message.to_owned(),
            notification_type: NotificationType::Error,
            show: true,
        }
    }

    /// A warning toast.
    pub fn warning(message: &str) -> (r: ToastData)
        ensures
            r.message@ == message@,
            r.notification_type == NotificationType::Warning,
            r.show,
    {
        ToastData {
            message: message.to_owned(),
            notification_type: NotificationType::Warning,
            show: true,
        }
    }

    /// An informational toast.
    pub fn info(message: &str) -> (r: ToastData)
        ensures
            r.message@ == message@,
            r.notification_type == NotificationType::Info,
            r.show,
    {
        ToastData {
            message: message.to_owned(),
            notification_type: NotificationType::Info,
            show: true,
        }
    }
}

/// The configuration of a modal dialog.
#[derive(Debug, Clone, PartialEq, Eq)]
pub struct DialogConfig {
    /// The dialog title.
    pub title: String,
    /// The dialog body.
    pub message: String,
    /// Its tone.
    pub dialog_type: NotificationType,
    /// The label of the primary button.
    pub primary_button: String,
    /// The label of the secondary button, if one is shown.
    pub secondary_button: Option<String>,
}

impl DialogConfig {
    /// An informational dialog with a single confirmation button.
    pub fn info(title: &str, message: &str) -> (r: DialogConfig)
        ensures
            r.title@ == title@,
            r.message@ == message@,
            r.dialog_type == NotificationType::Info,
            r.primary_button@ == "OK"@,
            r.secondary_button is None,
    {
        DialogConfig {
            title: title.to_owned(),
            message: message.to_owned(),
            dialog_type: NotificationType::Info,
            primary_button: String::from_str("OK"),
            secondary_button: None,
        }
    }

    /// A success dialog with a single confirmation button.
    pub fn success(title: &str, message: &str) -> (r: DialogConfig)
        ensures
            r.title@ == title@,
            r.message@ == message@,
            r.dialog_type == NotificationType::Success,
            r.primary_button@ == "OK"@,
            r.secondary_button is None,
    {
        DialogConfig {
            title: title.to_owned(),
            message: message.to_owned(),
            dialog_type: NotificationType::Success,
            primary_button: String::from_str("OK"),
            secondary_button: None,
        }
    }

    /// An error dialog with a single confirmation button.
    pub fn error(title: &str, message: &str) -> (r: DialogConfig)
        ensures
            r.title@ == title@,
            r.message@ == message@,
            r.dialog_type == NotificationType::Error,
            r.primary_button@ == "OK"@,
            r.secondary_button is None,
    {
        DialogConfig {
            title: title.to_owned(),
            message: message.to_owned(),
            dialog_type: NotificationType::Error,
            primary_button: String::from_str("OK"),
            secondary_button: None,
        }
    }

    /// A warning dialog with a single confirmation button.
    pub fn warning(title: &str, message: &str) -> (r: DialogConfig)
        ensures
            r.title@ == title@,
            r.message@ == message@,
            r.dialog_type == NotificationType::Warning,
            r.primary_button@ == "OK"@,
            r.secondary_button is None,
    {
        DialogConfig {
            title: title.to_owned(),
            message: message.to_owned(),
            dialog_type: NotificationType::Warning,
            primary_button: String::from_str("OK"),
            secondary_button: None,
        }
    }

    /// A confirmation dialog with yes and no buttons.
    pub fn confirm(title: &str, message: &str) -> (r: DialogConfig)
        ensures
            r.title@ == title@,
            r.message@ == message@,
            r.dialog_type == NotificationType::Warning,
            r.primary_button@ == "Yes"@,
            r.secondary_button matches Some(b) && b@ == "No"@,
    {
        DialogConfig {
            title: title.to_owned(),
            message: message.to_owned(),
            dialog_type: NotificationType::Warning,
            primary_button: String::from_str("Yes"),
            secondary_button: Some(String::from_str("No")),
        }
    }

    /// Replace the primary button label.
    pub fn with_primary_button(self, text: &str) -> (r: DialogConfig)
        ensures
            r.title == self.title,
            r.message == self.message,
            r.dialog_type == self.dialog_type,
            r.primary_button@ == text@,
            r.secondary_button == self.secondary_button,
    {
        DialogConfig { primary_button: text.to_owned(), ..self }
    }

    /// Replace the secondary button label.
    pub fn with_secondary_button(self, text: &str) -> (r: DialogConfig)
        ensures
            r.title == self.title,
            r.message == self.message,
            r.dialog_type == self.dialog_type,
            r.primary_button == self.primary_button,
            r.secondary_button matches Some(b) && b@ == text@,
    {
        DialogConfig { secondary_button: Some(text.to_owned()), ..self }
    }
}

} // verus!
