//! The ways in which the catalog engine fails.

use vstd::prelude::*;

verus! {

/// What went wrong in an operation of the engine.
#[derive(Clone, Copy, Debug, PartialEq, Eq, Structural)]
pub enum CatalogError {
    /// The connection could not be made, or the transfer was cut short.
    Network,
    /// Something local could not be read or written.
    Io,
    /// The playlist text is malformed; nothing of it was decoded.
    Parse,
    /// The operation needs a live catalog, and the catalog is archived.
    UnsupportedInOfflineMode,
    /// The entry was never downloaded for offline use.
    NotArchived,
    /// Every attempt to fetch the playlist failed.
    Exhausted,
}

impl CatalogError {
    /// The sentence that tells a user of this error.
    pub open spec fn text(self) -> Seq<char> {
        match self {
            CatalogError::Network => "Failed to reach the playlist server"@,
            CatalogError::Io => "Failed to read or write a local file"@,
            CatalogError::Parse => "The playlist is malformed"@,
            CatalogError::UnsupportedInOfflineMode => "Cannot refresh playlist in offlinemode"@,
            CatalogError::NotArchived => "Not stored for offline use"@,
            CatalogError::Exhausted => "Failed to download playlist"@,
        }
    }

    /// The sentence that tells a user of this error.
    pub fn message(&self) -> (r: &'static str)
        ensures
            r@ == self.text(),
    {
        match self {
            CatalogError::Network => "Failed to reach the playlist server",
            CatalogError::Io => "Failed to read or write a local file",
            CatalogError::Parse => "The playlist is malformed",
            CatalogError::UnsupportedInOfflineMode => "Cannot refresh playlist in offlinemode",
            CatalogError::NotArchived => "Not stored for offline use",
            CatalogError::Exhausted => "Failed to download playlist",
        }
    }
}

} // verus!
