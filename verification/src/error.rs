//! The ways in which a command can fail.

use vstd::prelude::*;

verus! {

/// Why a command, or one entry of a batch, failed.
#[derive(Clone, Copy, Debug, PartialEq, Eq, Structural)]
pub enum DotmanError {
    /// The user's home directory cannot be determined.
    HomeDirectoryUnavailable,
    /// The repository directory does not exist yet.
    RepositoryNotInitialized,
    /// The repository directory could not be created.
    RepositoryCreationError,
    /// The file to add does not exist.
    SourceNotFound,
    /// The path to add has no final component to name the file by.
    InvalidFileName,
    /// The file could not be moved into the repository.
    FileMoveError,
    /// A symbolic link, or what stood in the way of one, could not be removed.
    LinkRemovalError,
    /// The symbolic link could not be created.
    SymlinkCreationError,
    /// The manifest file could not be read.
    ManifestReadError,
    /// The manifest file is not a manifest.
    ManifestParseError,
    /// The manifest could not be turned into text, or the text could not be written.
    ManifestWriteError,
}

} // verus!
