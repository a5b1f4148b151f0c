//! What can be wrong with the configuration before any example is run.

use vstd::prelude::*;
use vstd::string::StringExecFns;

verus! {

/// A fault in what the run was given. Each is fatal and is found before any
/// example runs.
#[derive(Debug, PartialEq, Eq)]
pub enum ConfigError {
    /// The manifest path does not lead to a regular file.
    ManifestNotAFile,
    /// The manifest path has no parent directory.
    NoParentDirectory,
    /// The manifest could not be parsed; holds the parser's message.
    InvalidManifest(String),
}

impl ConfigError {
    /// The message shown to the user.
    pub open spec fn message_text(self) -> Seq<char> {
        match self {
            ConfigError::ManifestNotAFile => "the manifest-path must be a path to a Cargo.toml file"@,
            ConfigError::NoParentDirectory => "Cargo.toml does not have parent directory"@,
            ConfigError::InvalidManifest(reason) => reason@,
        }
    }

    /// The message shown to the user.
    pub fn message(&self) -> (text: String)
        ensures
            text@ == self.message_text(),
    {
        match self {
            ConfigError::ManifestNotAFile => String::from_str(
                "the manifest-path must be a path to a Cargo.toml file",
            ),
            ConfigError::NoParentDirectory => String::from_str(
                "Cargo.toml does not have parent directory",
            ),
            ConfigError::InvalidManifest(reason) => reason.clone(),
        }
    }
}

} // verus!
