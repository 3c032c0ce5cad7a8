//! A declarative package-manifest library for a software installer hub.
//!
//! A manifest ([`manifest::PackageFile`]) describes an application's identity,
//! its installable content, and per-platform install paths.  The core logic is
//! installation-path resolution: picking the path variant for the running
//! platform ([`paths::InstallationPath::get`]), expanding the placeholder
//! tokens `$APPLICATIONS` and `$HOME` into concrete directories, and turning
//! manifests into and out of their textual form.

pub mod codec;
pub mod expand;
pub mod json;
pub mod manifest;
pub mod paths;
pub mod platform;
