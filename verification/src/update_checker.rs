//! Data describing an available application update.
//!
//! Querying the release feed over the network and comparing versions is
//! the driver's job; the library only carries the result.

use vstd::prelude::*;

verus! {

/// Information about an available update.
#[derive(Debug, Clone, PartialEq, Eq)]
pub struct UpdateInfo {
    /// The installed version.
    pub current_version: String,
    /// The latest available version.
    pub latest_version: String,
    /// The human-readable name of the latest release.
    pub release_name: String,
    /// The release notes, as markdown.
    pub release_notes: String,
    /// Where to download the update.
    pub download_url: String,
    /// Whether the latest version is a pre-release.
    pub is_prerelease: bool,
}

} // verus!
