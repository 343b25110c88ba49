//! Batch discovery and extraction of BA2 archive containers.
//!
//! The crate parses the fixed 24-byte BA2 header, filters archive candidates
//! found under a two-level directory tree, and drives a cooperative batch
//! extraction job with progress events, pause/resume/cancel control and
//! retry-with-backoff for transient failures.

pub mod ba2;
pub mod config;
pub mod error;
pub mod log_viewer;
pub mod logging;
pub mod models;
pub mod notifications;
pub mod operations;
pub mod platform;
pub mod text;
pub mod update_checker;
