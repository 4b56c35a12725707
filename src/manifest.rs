//! The manifest model: what one theme or module directory declares.

use vstd::prelude::*;

verus! {

/// The compositor configuration a manifest node contributes, and the hooks
/// run when it is enabled or disabled.
#[derive(Clone, Debug, PartialEq, Eq)]
pub struct ConfigTheme {
    pub config: String,
    pub load: Option<String>,
    pub unload: Option<String>,
}

/// A nested manifest, by its path relative to the parent's directory, with
/// the parent's record of whether it is enabled.
#[derive(Clone, Debug, PartialEq, Eq)]
pub struct ConfigModule {
    pub config: String,
    pub enabled: bool,
}

/// A symbolic link to create: `to` will point at `from`.
#[derive(Clone, Debug, PartialEq, Eq)]
pub struct ConfigLink {
    pub from: String,
    pub to: String,
}

/// The declarative file of one theme or module.
#[derive(Clone, Debug, PartialEq, Eq)]
pub struct Config {
    pub name: String,
    pub repo: String,
    pub branch: Option<String>,
    pub desc: String,
    pub enabled: bool,
    pub theme: ConfigTheme,
    pub module: Vec<ConfigModule>,
    pub link: Vec<ConfigLink>,
}

impl Config {
    /// The same manifest with its own `enabled` flag set to `on`.
    pub open spec fn with_enabled(self, on: bool) -> Config {
        Config { enabled: on, ..self }
    }
}

} // verus!
