//! The commands the tool accepts, as plain values, and the decisions the
//! listing command makes on them.

use vstd::prelude::*;
use crate::identity::ThemeId;

verus! {

/// Global options and the command to run.
#[derive(Clone, Debug)]
pub struct CliParser {
    /// Directories where themes are stored, searched in order.
    pub theme_dirs: Vec<String>,
    /// Catalog documents listing themes.
    pub theme_urls: Vec<String>,
    pub commands: CliCommands,
}

#[derive(Clone, Debug)]
pub enum CliCommands {
    /// List installed themes and catalog themes.
    List(List),
    /// Install a theme from a catalog or a repository.
    Install(InstallArgs),
    /// Remove an installed theme.
    Uninstall(UninstallArgs),
    /// Fetch an installed theme's branch.
    Update(UpdateArgs),
    /// Enable an installed theme.
    Enable(EnableArgs),
    /// Disable an installed theme.
    Disable(DisableArgs),
    /// Source all enabled themes and modules.
    Init,
}

/// Names the theme to disable, by name or `name:branch@repo`.
#[derive(Clone, Debug)]
pub struct DisableArgs {
    pub theme_id: String,
}

/// Names the theme to enable, by name or `name:branch@repo`.
#[derive(Clone, Debug)]
pub struct EnableArgs {
    pub theme_id: String,
}

/// What to list.
#[derive(Clone, Copy, Debug, PartialEq, Eq, Structural)]
pub struct List {
    /// Installed themes.
    pub installed: bool,
    /// Catalog themes.
    pub online: bool,
    /// Catalog themes that are installed too.
    pub show_installed: bool,
}

/// Names the theme to install, or the repository and branch to clone.
#[derive(Clone, Debug)]
pub struct InstallArgs {
    pub git: Option<String>,
    pub branch: Option<String>,
    pub theme_id: Option<String>,
}

/// Names the theme to uninstall, by name or `name:branch@repo`.
#[derive(Clone, Debug)]
pub struct UninstallArgs {
    pub theme_id: String,
}

/// Names the theme to update, by name or `name:branch@repo`.
#[derive(Clone, Debug)]
pub struct UpdateArgs {
    pub theme_id: String,
}

#[derive(Clone, Copy, Debug, PartialEq, Eq, Structural)]
pub struct CleanAllArgs {}

impl List {
    /// Asking for neither installed nor catalog themes asks for both.
    pub fn normalized(self) -> (r: List)
        ensures
            !self.installed && !self.online ==> r == (List { installed: true, online: true, ..self }),
            self.installed || self.online ==> r == self,
    {
        if !self.installed && !self.online {
            List { installed: true, online: true, show_installed: self.show_installed }
        } else {
            self
        }
    }

    /// The ids to leave out of the catalog listing: the installed themes
    /// that were listed already, unless installed themes are to be shown
    /// again.
    pub fn excluded_ids(&self, installed: Vec<ThemeId>) -> (r: Vec<ThemeId>)
        ensures
            self.installed && !self.show_installed ==> r@ == installed@,
            !self.installed || self.show_installed ==> r@.len() == 0,
    {
        if self.installed && !self.show_installed {
            installed
        } else {
            Vec::new()
        }
    }
}

} // verus!
