//! The library's error type.

use vstd::prelude::*;

verus! {

/// Everything that can go wrong while querying an index or building a
/// mirror. Pure computations over already-fetched metadata never fail.
#[derive(Debug, Clone, PartialEq, Eq)]
pub enum Error {
    /// The queried package does not exist on the backing index.
    CrateNotFoundOnIndex,
    /// A package name does not follow the index's naming rules.
    InvalidName,
    /// A version string is not a valid semantic version.
    InvalidVersion,
    /// A mirror operation ran before `initialize`, or after `finalize`.
    NotInitialized,
    /// The mirror path already holds data and replacement was not allowed.
    AlreadyExists,
    /// A downloaded archive did not match the checksum the index declares.
    Integrity(String),
    /// The index client failed: network, protocol, or malformed data.
    Index(String),
    /// A filesystem operation failed.
    Io(String),
}

impl Error {
    /// A short human-readable description of the error.
    pub fn message(&self) -> (r: String)
        ensures
            self is CrateNotFoundOnIndex ==> r@ == "The crate was not found on crates.io"@,
    {
        match self {
            Error::CrateNotFoundOnIndex => "The crate was not found on crates.io".to_owned(),
            Error::InvalidName => "The package name is not valid".to_owned(),
            Error::InvalidVersion => "The version string is not valid".to_owned(),
            Error::NotInitialized => "The mirror has not been initialized".to_owned(),
            Error::AlreadyExists => "The mirror path is already occupied".to_owned(),
            Error::Integrity(m) => m.clone(),
            Error::Index(m) => m.clone(),
            Error::Io(m) => m.clone(),
        }
    }
}

} // verus!
