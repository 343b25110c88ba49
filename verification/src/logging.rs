//! The bridge between the configuration's log level and the tracing
//! framework's.
//!
//! Setting up subscribers, files and rotation is the driver's job; the
//! library only converts between the two level vocabularies.

use vstd::prelude::*;

use crate::config::LogLevel;

verus! {

#[verifier::external_type_specification]
#[verifier::external_body]
pub struct ExTracingLevel(tracing::Level);

/// Relies on the `tracing::Level` constants: maps the configuration's
/// level onto the tracing framework's, folding fatal into error.
#[verifier::external_body]
pub fn config_log_level_to_tracing(level: LogLevel) -> tracing::Level {
    match level {
        LogLevel::Fatal => tracing::Level::ERROR,
        LogLevel::Error => tracing::Level::ERROR,
        LogLevel::Warning => tracing::Level::WARN,
        LogLevel::Info => tracing::Level::INFO,
        LogLevel::Debug => tracing::Level::DEBUG,
        LogLevel::Trace => tracing::Level::TRACE,
    }
}

} // verus!
