//! Where a package keeps its manifest and its examples.

use crate::error::ConfigError;
use crate::paths::{join, joined, parent, parent_of};
use vstd::prelude::*;
use vstd::string::StringExecFns;

verus! {

/// The paths one run works with.
#[derive(Debug, PartialEq, Eq)]
pub struct Layout {
    /// The package's manifest.
    pub manifest_path: String,
    /// The directory that holds the manifest; commands run there.
    pub root_dir: String,
    /// The directory `examples` beside the manifest.
    pub examples_dir: String,
}

/// The manifest path to use: the one given, or `Cargo.toml` in the current
/// directory.
pub fn manifest_path_or_default(given: Option<String>) -> (path: String)
    ensures
        path@ == match given {
            Some(p) => p@,
            None => "Cargo.toml"@,
        },
{
    match given {
        Some(p) => p,
        None => String::from_str("Cargo.toml"),
    }
}

/// Lays out the package around `manifest_path`. `is_file` says whether that
/// path leads to a regular file; where it does not, nothing else is looked
/// at.
pub fn locate(manifest_path: String, is_file: bool) -> (r: Result<Layout, ConfigError>)
    ensures
        match r {
            Ok(layout) => {
                &&& is_file
                &&& layout.manifest_path@ == manifest_path@
                &&& parent_of(manifest_path@) == Some(layout.root_dir@)
                &&& layout.examples_dir@ == joined(layout.root_dir@, "examples"@)
            },
            Err(ConfigError::ManifestNotAFile) => !is_file,
            Err(ConfigError::NoParentDirectory) => is_file && parent_of(manifest_path@) is None,
            Err(ConfigError::InvalidManifest(_)) => false,
        },
{
    if !is_file {
        return Err(ConfigError::ManifestNotAFile);
    }
    match parent(manifest_path.as_str()) {
        Some(root_dir) => {
            let examples_dir = join(root_dir.as_str(), "examples");
            Ok(Layout { manifest_path, root_dir, examples_dir })
        },
        None => Err(ConfigError::NoParentDirectory),
    }
}

} // verus!
