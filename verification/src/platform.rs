//! Platform identifiers, build modes, and the error taxonomy.

use vstd::prelude::*;

verus! {

/// The operating system a manifest is being resolved on.
#[derive(Clone, Copy, PartialEq, Eq, Structural, Debug)]
pub enum Platform {
    Windows,
    Macos,
    Linux,
}

/// Whether the hub runs against the real application directories or against
/// a fixed development sandbox under the user's home directory.
#[derive(Clone, Copy, PartialEq, Eq, Structural, Debug)]
pub enum BuildMode {
    Production,
    Sandbox,
}

/// Why resolving an installation path failed.
#[derive(Clone, Copy, PartialEq, Eq, Structural, Debug)]
pub enum PathError {
    /// Neither `universal` nor the field matching the running platform is set.
    MissingPath,
    /// The raw path does not exist on disk, so it cannot be canonicalized.
    PathNotFound,
    /// The home directory or the application-install directory could not be
    /// determined.
    DirectoryDiscoveryError,
}

/// Why loading or saving a manifest failed.
#[derive(Clone, Copy, PartialEq, Eq, Structural, Debug)]
pub enum ManifestError {
    /// The manifest file could not be read or written.
    IoError,
    /// The manifest text is not well formed or does not match the schema.
    ParseError,
    /// The manifest value could not be serialized.
    SerializeError,
}

} // verus!
