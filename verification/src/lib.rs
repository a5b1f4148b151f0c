//! Discovery, ordering and selection of a package's runnable examples.
//!
//! Everything in this crate computes on plain values. Reading directories,
//! reading the manifest file and spawning the build tool are left to the
//! caller, which hands in what it found and carries out the plan it gets back.

pub mod command;
pub mod discovery;
pub mod error;
pub mod example;
pub mod laws;
pub mod layout;
pub mod manifest;
pub mod order;
pub mod paths;
pub mod plan;
pub mod selection;
pub mod sorting;
pub mod text;
