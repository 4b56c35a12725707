//! Resolution and activation of compositor theme bundles.
//!
//! The library holds the logic: parsing theme identifiers, the manifest
//! model, the module tree, path resolution and the enable / disable state
//! machine. Reading and writing files, running hooks and talking to git are
//! left to the caller, which hands the library plain values and performs the
//! filesystem operations that the library plans.

pub mod activation;
pub mod cli;
pub mod config;
pub mod identity;
pub mod installed;
pub mod manifest;
pub mod paths;
pub mod resolver;
