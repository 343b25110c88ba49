//! Error types for the library.
//!
//! Paths and error sources are carried as plain strings; the thin driver
//! around the library converts operating-system errors into these values.

use vstd::prelude::*;

use crate::text::{dec_str, u32_to_string, usize_to_string};

verus! {

/// The kinds of I/O failure the library distinguishes.
#[derive(Debug, Clone, Copy, PartialEq, Eq, Structural)]
pub enum IoKind {
    /// The file or directory does not exist.
    NotFound,
    /// Access was denied.
    PermissionDenied,
    /// The file already exists.
    AlreadyExists,
    /// The input was rejected by the operating system.
    InvalidInput,
    /// The operation timed out.
    TimedOut,
    /// The operation was interrupted.
    Interrupted,
    /// The operation would block.
    WouldBlock,
    /// The address is in use.
    AddrInUse,
    /// Any other kind.
    Unknown,
}

/// Configuration-related errors.
#[derive(Debug, Clone, PartialEq, Eq)]
pub enum ConfigError {
    /// Failed to load the configuration file.
    LoadFailed {
        /// Path to the configuration file.
        path: String,
        /// Text of the underlying I/O error.
        source: String,
    },
    /// Failed to save the configuration file.
    SaveFailed {
        /// Path to the configuration file.
        path: String,
        /// Text of the underlying I/O error.
        source: String,
    },
    /// The configuration text could not be decoded.
    InvalidFormat(String),
    /// The configuration failed validation.
    ValidationFailed(String),
    /// An ignore pattern does not compile as a regular expression.
    InvalidRegex {
        /// The rejected pattern.
        pattern: String,
        /// Text of the underlying compilation error.
        source: String,
    },
    /// A path in the configuration is invalid.
    InvalidPath(String),
}

/// Archive format and extraction errors.
#[derive(Debug, Clone, PartialEq, Eq)]
pub enum BA2Error {
    /// The header does not begin with the archive magic.
    InvalidMagic {
        /// Path to the offending file.
        path: String,
    },
    /// The archive declares a version the tooling does not support.
    UnsupportedVersion {
        /// The unsupported version number.
        version: u32,
        /// Path to the offending file.
        path: String,
    },
    /// The archive is corrupted.
    Corrupted {
        /// Path to the corrupted file.
        path: String,
        /// Why it is considered corrupted.
        reason: String,
    },
    /// Extraction of an archive failed.
    ExtractionFailed {
        /// Path to the archive.
        path: String,
        /// Why extraction failed.
        reason: String,
    },
    /// The external unpacking tool was not found.
    BSArchNotFound {
        /// Expected path of the tool.
        path: String,
    },
    /// The external unpacking tool could not be run.
    BSArchExecFailed(String),
}

/// Input validation errors.
#[derive(Debug, Clone, PartialEq, Eq)]
pub enum ValidationError {
    /// Empty or invalid input.
    InvalidInput(String),
    /// A path does not exist.
    PathNotFound(String),
    /// A path is not a directory.
    NotADirectory(String),
    /// A path is not a file.
    NotAFile(String),
    /// A size string could not be parsed.
    InvalidSize(String),
}

/// Top-level error type of the library.
#[derive(Debug, Clone, PartialEq, Eq)]
pub enum Error {
    /// Configuration-related errors.
    Config(ConfigError),
    /// Archive format or extraction errors.
    BA2(BA2Error),
    /// File system I/O errors.
    IO {
        /// The kind of I/O failure.
        kind: IoKind,
        /// Text of the underlying error.
        message: String,
    },
    /// Input validation errors.
    Validation(ValidationError),
    /// A generic error with its own message.
    Other(String),
}

/// The display text of a configuration error.
pub open spec fn config_error_text(e: ConfigError) -> Seq<char> {
    match e {
        ConfigError::LoadFailed { path, source } => "Failed to load configuration from "@ + path@
            + ": "@ + source@,
        ConfigError::SaveFailed { path, source } => "Failed to save configuration to "@ + path@
            + ": "@ + source@,
        ConfigError::InvalidFormat(msg) => "Invalid configuration format: "@ + msg@,
        ConfigError::ValidationFailed(msg) => "Configuration validation failed: "@ + msg@,
        ConfigError::InvalidRegex { pattern, source } => "Invalid regex pattern '"@ + pattern@
            + "': "@ + source@,
        ConfigError::InvalidPath(path) => "Invalid path in configuration: "@ + path@,
    }
}

/// The display text of an archive error.
pub open spec fn ba2_error_text(e: BA2Error) -> Seq<char> {
    match e {
        BA2Error::InvalidMagic { path } => "Invalid BA2 magic number in file "@ + path@,
        BA2Error::UnsupportedVersion { version, path } => "Unsupported BA2 version "@ + dec_str(
            version as nat,
        ) + " in file "@ + path@,
        BA2Error::Corrupted { path, reason } => "Corrupted BA2 file: "@ + path@ + " - "@ + reason@,
        BA2Error::ExtractionFailed { path, reason } => "Failed to extract "@ + path@ + ": "@
            + reason@,
        BA2Error::BSArchNotFound { path } => "BSArch.exe not found at expected location: "@
            + path@,
        BA2Error::BSArchExecFailed(msg) => "BSArch.exe execution failed: "@ + msg@,
    }
}

/// The display text of a validation error.
pub open spec fn validation_error_text(e: ValidationError) -> Seq<char> {
    match e {
        ValidationError::InvalidInput(msg) => "Invalid input: "@ + msg@,
        ValidationError::PathNotFound(path) => "Path does not exist: "@ + path@,
        ValidationError::NotADirectory(path) => "Path is not a directory: "@ + path@,
        ValidationError::NotAFile(path) => "Path is not a file: "@ + path@,
        ValidationError::InvalidSize(msg) => "Invalid size format: "@ + msg@,
    }
}

/// The display text of an error.
pub open spec fn error_text(e: Error) -> Seq<char> {
    match e {
        Error::Config(inner) => "Configuration error: "@ + config_error_text(inner),
        Error::BA2(inner) => "BA2 error: "@ + ba2_error_text(inner),
        Error::IO { kind, message } => "I/O error: "@ + message@,
        Error::Validation(inner) => "Validation error: "@ + validation_error_text(inner),
        Error::Other(msg) => msg@,
    }
}

/// The user-facing message of an error.
pub open spec fn user_message_spec(e: Error) -> Seq<char> {
    match e {
        Error::Config(inner) => match inner {
            ConfigError::LoadFailed { path, source } => "Failed to load settings from '"@ + path@
                + "'"@,
            ConfigError::SaveFailed { path, source } => "Failed to save settings to '"@ + path@
                + "'"@,
            ConfigError::InvalidFormat(msg) => "Invalid settings format: "@ + msg@,
            ConfigError::ValidationFailed(msg) => "Settings validation failed: "@ + msg@,
            ConfigError::InvalidRegex { pattern, source } => "Invalid pattern: '"@ + pattern@
                + "'"@,
            ConfigError::InvalidPath(path) => "Invalid path in settings: '"@ + path@ + "'"@,
        },
        Error::BA2(inner) => match inner {
            BA2Error::InvalidMagic { path } => "'"@ + path@ + "' is not a valid BA2 file"@,
            BA2Error::UnsupportedVersion { version, path } => "'"@ + path@
                + "' uses unsupported BA2 version "@ + dec_str(version as nat),
            BA2Error::Corrupted { path, reason } => "BA2 file '"@ + path@ + "' is corrupted: "@
                + reason@,
            BA2Error::ExtractionFailed { path, reason } => "Failed to extract '"@ + path@ + "': "@
                + reason@,
            BA2Error::BSArchNotFound { path } => "BA2 extraction tool not found at '"@ + path@
                + "'"@,
            BA2Error::BSArchExecFailed(msg) => "BA2 extraction tool failed: "@ + msg@,
        },
        Error::IO { kind, message } => match kind {
            IoKind::NotFound => "File or folder not found"@,
            IoKind::PermissionDenied => "Permission denied - check file permissions"@,
            IoKind::AlreadyExists => "File already exists"@,
            IoKind::InvalidInput => "Invalid input provided"@,
            IoKind::TimedOut => "Operation timed out"@,
            IoKind::Interrupted => "Operation was interrupted"@,
            _ => "File operation failed: "@ + message@,
        },
        Error::Validation(inner) => match inner {
            ValidationError::InvalidInput(msg) => "Invalid input: "@ + msg@,
            ValidationError::PathNotFound(path) => "Path not found: '"@ + path@ + "'"@,
            ValidationError::NotADirectory(path) => "'"@ + path@ + "' is not a folder"@,
            ValidationError::NotAFile(path) => "'"@ + path@ + "' is not a file"@,
            ValidationError::InvalidSize(msg) => "Invalid size format: "@ + msg@,
        },
        Error::Other(msg) => msg@,
    }
}

/// The recovery suggestions offered for an error.
pub open spec fn recovery_suggestions_spec(e: Error) -> Seq<Seq<char>> {
    match e {
        Error::Config(ConfigError::LoadFailed { .. }) => seq![
            "Check that the settings file exists and is readable"@,
            "Try deleting the settings file to restore defaults"@,
            "Ensure you have read permissions for the file"@,
        ],
        Error::Config(ConfigError::SaveFailed { .. }) => seq![
            "Check that you have write permissions"@,
            "Ensure there is enough disk space"@,
            "Try running the application as administrator"@,
        ],
        Error::Config(ConfigError::InvalidRegex { .. }) => seq![
            "Check your file filter patterns in Settings"@,
            "Use simpler patterns or wildcards instead of regex"@,
            "Reset to default patterns"@,
        ],
        Error::BA2(BA2Error::Corrupted { .. }) => seq![
            "Try re-downloading the mod from its source"@,
            "Verify the file integrity if available"@,
            "Skip this file and continue with others"@,
        ],
        Error::BA2(BA2Error::BSArchNotFound { .. }) => seq![
            "Specify the BA2 extraction tool path in Settings > Advanced"@,
            "Download BSArch.exe from TES5Edit project"@,
            "Check if an antivirus blocked the file"@,
        ],
        Error::BA2(BA2Error::BSArchExecFailed(_)) => seq![
            "Try running the extraction again"@,
            "Check if another program is using the files"@,
            "Ensure the extraction tool has execute permissions"@,
        ],
        Error::IO { kind: IoKind::PermissionDenied, .. } => seq![
            "Close any programs that might be using these files"@,
            "Run the application as administrator"@,
            "Check file and folder permissions"@,
        ],
        Error::IO { kind: IoKind::NotFound, .. } => seq![
            "Verify the path exists and hasn't been moved"@,
            "Check for typos in the file path"@,
            "Ensure the drive is connected and accessible"@,
        ],
        Error::Validation(ValidationError::PathNotFound(_)) => seq![
            "Browse for the folder instead of typing the path"@,
            "Verify the folder hasn't been moved or deleted"@,
            "Check that network drives are connected"@,
        ],
        Error::Validation(ValidationError::InvalidSize(_)) => seq![
            "Use format like '500MB' or '2GB'"@,
            "Valid units: B, KB, MB, GB, TB"@,
            "Numbers without units are treated as bytes"@,
        ],
        _ => seq!["Try the operation again"@],
    }
}

/// The label naming an error's category in the detailed report.
pub open spec fn error_type_label(e: Error) -> Seq<char> {
    match e {
        Error::Config(_) => "Configuration"@,
        Error::BA2(_) => "BA2 File Format"@,
        Error::IO { .. } => "File System I/O"@,
        Error::Validation(_) => "Input Validation"@,
        Error::Other(_) => "General"@,
    }
}

/// The first `n` items, each prefixed with its one-based number and
/// terminated by a line break.
pub open spec fn numbered_lines(items: Seq<Seq<char>>, n: nat) -> Seq<char>
    decreases n,
{
    if n == 0 || n > items.len() {
        Seq::empty()
    } else {
        numbered_lines(items, (n - 1) as nat) + dec_str(n) + ". "@ + items[n - 1] + "\n"@
    }
}

/// The full technical report for an error.
pub open spec fn detailed_report_spec(e: Error) -> Seq<char> {
    let sugg = recovery_suggestions_spec(e);
    "Error Type: "@ + error_type_label(e) + "\n\n"@ + "Error: "@ + error_text(e) + "\n\n"@
        + "User Message: "@ + user_message_spec(e) + "\n\n"@ + (if is_transient_spec(e) {
        "Note: This error might be temporary. Retrying may succeed.\n\n"@
    } else {
        Seq::<char>::empty()
    }) + "Recovery Suggestions:\n"@ + numbered_lines(sugg, sugg.len()) + "\n"@ + "Version: 0.1.0\n"@
        + "Platform: unknown\n"@
}

/// Whether an error is classified as transient, worth retrying.
pub open spec fn is_transient_spec(e: Error) -> bool {
    match e {
        Error::IO { kind, message } => kind == IoKind::Interrupted || kind == IoKind::WouldBlock
            || kind == IoKind::TimedOut || kind == IoKind::PermissionDenied || kind
            == IoKind::AddrInUse,
        Error::BA2(inner) => inner is BSArchExecFailed,
        _ => false,
    }
}

/// Build a list of three suggestion strings.
fn three_suggestions(a: &str, b: &str, c: &str) -> (r: Vec<String>)
    ensures
        r.deep_view() == seq![a@, b@, c@],
{
    let mut v: Vec<String> = Vec::new();
    v.push(a.to_owned());
    v.push(b.to_owned());
    v.push(c.to_owned());
    proof {
        assert(v.deep_view() =~~= seq![a@, b@, c@]);
    }
    v
}

/// Build a list of one suggestion string.
fn one_suggestion(a: &str) -> (r: Vec<String>)
    ensures
        r.deep_view() == seq![a@],
{
    let mut v: Vec<String> = Vec::new();
    v.push(a.to_owned());
    proof {
        assert(v.deep_view() =~~= seq![a@]);
    }
    v
}

impl ConfigError {
    /// The display text of this error.
    pub fn message(&self) -> (r: String)
        ensures
            r@ == config_error_text(*self),
    {
        match self {
            ConfigError::LoadFailed { path, source } => String::from_str(
                "Failed to load configuration from ",
            ).concat(path.as_str()).concat(": ").concat(source.as_str()),
            ConfigError::SaveFailed { path, source } => String::from_str(
                "Failed to save configuration to ",
            ).concat(path.as_str()).concat(": ").concat(source.as_str()),
            ConfigError::InvalidFormat(msg) => String::from_str(
                "Invalid configuration format: ",
            ).concat(msg.as_str()),
            ConfigError::ValidationFailed(msg) => String::from_str(
                "Configuration validation failed: ",
            ).concat(msg.as_str()),
            ConfigError::InvalidRegex { pattern, source } => String::from_str(
                "Invalid regex pattern '",
            ).concat(pattern.as_str()).concat("': ").concat(source.as_str()),
            ConfigError::InvalidPath(path) => String::from_str(
                "Invalid path in configuration: ",
            ).concat(path.as_str()),
        }
    }
}

impl BA2Error {
    /// The display text of this error.
    pub fn message(&self) -> (r: String)
        ensures
            r@ == ba2_error_text(*self),
    {
        match self {
            BA2Error::InvalidMagic { path } => String::from_str(
                "Invalid BA2 magic number in file ",
            ).concat(path.as_str()),
            BA2Error::UnsupportedVersion { version, path } => String::from_str(
                "Unsupported BA2 version ",
            ).concat(u32_to_string(*version).as_str()).concat(" in file ").concat(path.as_str()),
            BA2Error::Corrupted { path, reason } => String::from_str("Corrupted BA2 file: ").concat(
                path.as_str(),
            ).concat(" - ").concat(reason.as_str()),
            BA2Error::ExtractionFailed { path, reason } => String::from_str(
                "Failed to extract ",
            ).concat(path.as_str()).concat(": ").concat(reason.as_str()),
            BA2Error::BSArchNotFound { path } => String::from_str(
                "BSArch.exe not found at expected location: ",
            ).concat(path.as_str()),
            BA2Error::BSArchExecFailed(msg) => String::from_str(
                "BSArch.exe execution failed: ",
            ).concat(msg.as_str()),
        }
    }
}

impl ValidationError {
    /// The display text of this error.
    pub fn message(&self) -> (r: String)
        ensures
            r@ == validation_error_text(*self),
    {
        match self {
            ValidationError::InvalidInput(msg) => String::from_str("Invalid input: ").concat(
                msg.as_str(),
            ),
            ValidationError::PathNotFound(path) => String::from_str("Path does not exist: ").concat(
                path.as_str(),
            ),
            ValidationError::NotADirectory(path) => String::from_str(
                "Path is not a directory: ",
            ).concat(path.as_str()),
            ValidationError::NotAFile(path) => String::from_str("Path is not a file: ").concat(
                path.as_str(),
            ),
            ValidationError::InvalidSize(msg) => String::from_str("Invalid size format: ").concat(
                msg.as_str(),
            ),
        }
    }
}

impl Error {
    /// Create a generic error with a message.
    pub fn other(msg: &str) -> (r: Error)
        ensures
            r matches Error::Other(m) && m@ == msg@,
    {
        Error::Other(msg.to_owned())
    }

    /// The display text of this error.
    pub fn message(&self) -> (r: String)
        ensures
            r@ == error_text(*self),
    {
        match self {
            Error::Config(inner) => String::from_str("Configuration error: ").concat(
                inner.message().as_str(),
            ),
            Error::BA2(inner) => String::from_str("BA2 error: ").concat(inner.message().as_str()),
            Error::IO { kind, message } => String::from_str("I/O error: ").concat(
                message.as_str(),
            ),
            Error::Validation(inner) => String::from_str("Validation error: ").concat(
                inner.message().as_str(),
            ),
            Error::Other(msg) => msg.clone(),
        }
    }

    /// A short message fit for showing to the user.
    pub fn user_message(&self) -> (r: String)
        ensures
            r@ == user_message_spec(*self),
    {
        match self {
            Error::Config(inner) => match inner {
                ConfigError::LoadFailed { path, source } => String::from_str(
                    "Failed to load settings from '",
                ).concat(path.as_str()).concat("'"),
                ConfigError::SaveFailed { path, source } => String::from_str(
                    "Failed to save settings to '",
                ).concat(path.as_str()).concat("'"),
                ConfigError::InvalidFormat(msg) => String::from_str(
                    "Invalid settings format: ",
                ).concat(msg.as_str()),
                ConfigError::ValidationFailed(msg) => String::from_str(
                    "Settings validation failed: ",
                ).concat(msg.as_str()),
                ConfigError::InvalidRegex { pattern, source } => String::from_str(
                    "Invalid pattern: '",
                ).concat(pattern.as_str()).concat("'"),
                ConfigError::InvalidPath(path) => String::from_str(
                    "Invalid path in settings: '",
                ).concat(path.as_str()).concat("'"),
            },
            Error::BA2(inner) => match inner {
                BA2Error::InvalidMagic { path } => String::from_str("'").concat(
                    path.as_str(),
                ).concat("' is not a valid BA2 file"),
                BA2Error::UnsupportedVersion { version, path } => String::from_str("'").concat(
                    path.as_str(),
                ).concat("' uses unsupported BA2 version ").concat(u32_to_string(*version).as_str()),
                BA2Error::Corrupted { path, reason } => String::from_str("BA2 file '").concat(
                    path.as_str(),
                ).concat("' is corrupted: ").concat(reason.as_str()),
                BA2Error::ExtractionFailed { path, reason } => String::from_str(
                    "Failed to extract '",
                ).concat(path.as_str()).concat("': ").concat(reason.as_str()),
                BA2Error::BSArchNotFound { path } => String::from_str(
                    "BA2 extraction tool not found at '",
                ).concat(path.as_str()).concat("'"),
                BA2Error::BSArchExecFailed(msg) => String::from_str(
                    "BA2 extraction tool failed: ",
                ).concat(msg.as_str()),
            },
            Error::IO { kind, message } => match kind {
                IoKind::NotFound => String::from_str("File or folder not found"),
                IoKind::PermissionDenied => String::from_str(
                    "Permission denied - check file permissions",
                ),
                IoKind::AlreadyExists => String::from_str("File already exists"),
                IoKind::InvalidInput => String::from_str("Invalid input provided"),
                IoKind::TimedOut => String::from_str("Operation timed out"),
                IoKind::Interrupted => String::from_str("Operation was interrupted"),
                _ => String::from_str("File operation failed: ").concat(message.as_str()),
            },
            Error::Validation(inner) => match inner {
                ValidationError::InvalidInput(msg) => String::from_str("Invalid input: ").concat(
                    msg.as_str(),
                ),
                ValidationError::PathNotFound(path) => String::from_str("Path not found: '").concat(
                    path.as_str(),
                ).concat("'"),
                ValidationError::NotADirectory(path) => String::from_str("'").concat(
                    path.as_str(),
                ).concat("' is not a folder"),
                ValidationError::NotAFile(path) => String::from_str("'").concat(
                    path.as_str(),
                ).concat("' is not a file"),
                ValidationError::InvalidSize(msg) => String::from_str(
                    "Invalid size format: ",
                ).concat(msg.as_str()),
            },
            Error::Other(msg) => msg.clone(),
        }
    }

    /// Actionable suggestions the user can try to resolve or work around
    /// the error.
    pub fn recovery_suggestions(&self) -> (r: Vec<String>)
        ensures
            r.deep_view() == recovery_suggestions_spec(*self),
            r.deep_view().len() > 0,
    {
        let r = match self {
            Error::Config(ConfigError::LoadFailed { .. }) => three_suggestions(
                "Check that the settings file exists and is readable",
                "Try deleting the settings file to restore defaults",
                "Ensure you have read permissions for the file",
            ),
            Error::Config(ConfigError::SaveFailed { .. }) => three_suggestions(
                "Check that you have write permissions",
                "Ensure there is enough disk space",
                "Try running the application as administrator",
            ),
            Error::Config(ConfigError::InvalidRegex { .. }) => three_suggestions(
                "Check your file filter patterns in Settings",
                "Use simpler patterns or wildcards instead of regex",
                "Reset to default patterns",
            ),
            Error::BA2(BA2Error::Corrupted { .. }) => three_suggestions(
                "Try re-downloading the mod from its source",
                "Verify the file integrity if available",
                "Skip this file and continue with others",
            ),
            Error::BA2(BA2Error::BSArchNotFound { .. }) => three_suggestions(
                "Specify the BA2 extraction tool path in Settings > Advanced",
                "Download BSArch.exe from TES5Edit project",
                "Check if an antivirus blocked the file",
            ),
            Error::BA2(BA2Error::BSArchExecFailed(_)) => three_suggestions(
                "Try running the extraction again",
                "Check if another program is using the files",
                "Ensure the extraction tool has execute permissions",
            ),
            Error::IO { kind: IoKind::PermissionDenied, .. } => three_suggestions(
                "Close any programs that might be using these files",
                "Run the application as administrator",
                "Check file and folder permissions",
            ),
            Error::IO { kind: IoKind::NotFound, .. } => three_suggestions(
                "Verify the path exists and hasn't been moved",
                "Check for typos in the file path",
                "Ensure the drive is connected and accessible",
            ),
            Error::Validation(ValidationError::PathNotFound(_)) => three_suggestions(
                "Browse for the folder instead of typing the path",
                "Verify the folder hasn't been moved or deleted",
                "Check that network drives are connected",
            ),
            Error::Validation(ValidationError::InvalidSize(_)) => three_suggestions(
                "Use format like '500MB' or '2GB'",
                "Valid units: B, KB, MB, GB, TB",
                "Numbers without units are treated as bytes",
            ),
            _ => one_suggestion("Try the operation again"),
        };
        proof {
            assert(r.deep_view() =~~= recovery_suggestions_spec(*self));
        }
        r
    }

    /// A detailed technical report for bug reports and debugging. The
    /// operating system is the driver's to name, so the platform line
    /// reads unknown here.
    pub fn detailed_report(&self) -> (r: String)
        ensures
            r@ == detailed_report_spec(*self),
    {
        let mut report = String::from_str("Error Type: ");
        let label: &str = match self {
            Error::Config(_) => "Configuration",
            Error::BA2(_) => "BA2 File Format",
            Error::IO { .. } => "File System I/O",
            Error::Validation(_) => "Input Validation",
            Error::Other(_) => "General",
        };
        report.append(label);
        report.append("\n\n");
        report.append("Error: ");
        report.append(self.message().as_str());
        report.append("\n\n");
        report.append("User Message: ");
        report.append(self.user_message().as_str());
        report.append("\n\n");
        let ghost before_note = report@;
        if self.is_transient() {
            report.append("Note: This error might be temporary. Retrying may succeed.\n\n");
        }
        proof {
            assert(report@ =~= before_note + (if is_transient_spec(*self) {
                "Note: This error might be temporary. Retrying may succeed.\n\n"@
            } else {
                Seq::<char>::empty()
            }));
        }
        report.append("Recovery Suggestions:\n");
        let suggestions = self.recovery_suggestions();
        let ghost before_list = report@;
        let mut i: usize = 0;
        while i < suggestions.len()
            invariant
                i <= suggestions@.len(),
                suggestions.deep_view() == recovery_suggestions_spec(*self),
                report@ == before_list + numbered_lines(suggestions.deep_view(), i as nat),
            decreases suggestions@.len() - i,
        {
            let ghost pre = report@;
            report.append(usize_to_string(i + 1).as_str());
            report.append(". ");
            report.append(suggestions[i].as_str());
            report.append("\n");
            proof {
                assert(suggestions.deep_view()[i as int] == suggestions@[i as int]@);
                assert(report@ =~= before_list + numbered_lines(
                    suggestions.deep_view(),
                    (i + 1) as nat,
                ));
            }
            i = i + 1;
        }
        report.append("\n");
        report.append("Version: 0.1.0\n");
        report.append("Platform: unknown\n");
        proof {
            assert(report@ =~= detailed_report_spec(*self));
        }
        report
    }

    /// Check if this error is an archive corruption error.
    pub fn is_ba2_corrupted(&self) -> (r: bool)
        ensures
            r == (self matches Error::BA2(BA2Error::Corrupted { .. })),
    {
        match self {
            Error::BA2(BA2Error::Corrupted { .. }) => true,
            _ => false,
        }
    }

    /// Check if this error might be transient: temporary I/O conditions, or
    /// a failure to run the external tool, which may simply be busy.
    pub fn is_transient(&self) -> (r: bool)
        ensures
            r == is_transient_spec(*self),
    {
        match self {
            Error::IO { kind, message } => match kind {
                IoKind::Interrupted => true,
                IoKind::WouldBlock => true,
                IoKind::TimedOut => true,
                IoKind::PermissionDenied => true,
                IoKind::AddrInUse => true,
                _ => false,
            },
            Error::BA2(BA2Error::BSArchExecFailed(_)) => true,
            _ => false,
        }
    }
}

} // verus!
