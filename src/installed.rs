//! Installed themes: a manifest loaded from disk, its location, and the
//! module tree below it.

use vstd::prelude::*;
use crate::identity::{Theme, ThemeId, clone_opt, opt_view, same_id};
use crate::manifest::{Config, ConfigModule};
use crate::paths::{
    expand_or_keep, expands_to, is_tilde_spec, joined_path, parent_path, path_join, path_parent,
    resolve_path, resolves_to,
};

verus! {

/// What can go wrong when resolving, loading or toggling a theme.
#[derive(Clone, Copy, Debug, PartialEq, Eq, Structural)]
pub enum ThemeError {
    /// No installed or catalogued theme answers the identifier.
    ThemeNotFound,
    /// A manifest is malformed or lacks a required field.
    ManifestParse,
    /// A file, directory or process could not be used; also a manifest path
    /// that has no containing directory.
    Io,
    /// Cloning or fetching a repository failed.
    SourceControl,
    /// The theme is already in the requested state.
    StateConflict,
}

/// A theme whose manifest was read from disk.
#[derive(Clone, Debug)]
pub struct InstalledTheme {
    pub config: Config,
    pub path: String,
    pub partial: Theme,
    pub parent_dir: String,
    pub parent_config_path: Option<String>,
}

impl InstalledTheme {
    /// The containing directory is the parent of the manifest path, and the
    /// base record repeats the manifest's fields.
    pub open spec fn wf(self) -> bool {
        &&& parent_path(self.path@) == Some(self.parent_dir@)
        &&& self.partial.name@ == self.config.name@
        &&& self.partial.repo@ == self.config.repo@
        &&& opt_view(self.partial.branch) == opt_view(self.config.branch)
        &&& self.partial.desc@ == self.config.desc@
        &&& self.partial.images@.len() == 0
    }

    /// Where the `i`-th module's manifest lies.
    pub open spec fn module_file(self, i: int) -> Seq<char> {
        joined_path(self.parent_dir@, self.config.module@[i].config@)
    }

    /// `m` is the `i`-th module of this theme, loaded from `parsed`.
    pub open spec fn is_module_of(self, m: InstalledTheme, parsed: Seq<Option<Config>>, i: int) -> bool {
        &&& m.wf()
        &&& m.path@ == self.module_file(i)
        &&& m.config == parsed[i]->0
        &&& opt_view(m.parent_config_path) == Some(self.path@)
    }

    /// The `i`-th module loads: its manifest parsed and its path has a parent.
    pub open spec fn module_loads(self, parsed: Seq<Option<Config>>, only_enabled: bool, i: int) -> bool {
        &&& parsed[i] is Some
        &&& parent_path(self.module_file(i)) is Some
        &&& only_enabled ==> self.config.module@[i].enabled
    }

    /// The indices, in order, of the first `n` modules that load.
    pub open spec fn loaded_modules(self, parsed: Seq<Option<Config>>, only_enabled: bool, n: nat) -> Seq<int>
        decreases n,
    {
        if n == 0 {
            Seq::empty()
        } else {
            let prev = self.loaded_modules(parsed, only_enabled, (n - 1) as nat);
            if self.module_loads(parsed, only_enabled, n - 1) {
                prev.push(n - 1)
            } else {
                prev
            }
        }
    }

    /// Builds an installed theme from the manifest `config` read at `path`;
    /// `parent_config_path` is the parent's manifest when this is a module.
    /// Fails when the path has no containing directory.
    pub fn from_file(path: &String, parent_config_path: Option<String>, config: Config) -> (r: Result<InstalledTheme, ThemeError>)
        ensures
            r is Ok <==> parent_path(path@) is Some,
            r matches Err(e) ==> e == ThemeError::Io,
            r matches Ok(t) ==> {
                &&& t.wf()
                &&& t.config == config
                &&& t.path@ == path@
                &&& opt_view(t.parent_config_path) == opt_view(parent_config_path)
            },
    {
        match path_parent(path.as_str()) {
            None => Err(ThemeError::Io),
            Some(dir) => {
                let partial = Theme::new(
                    config.name.clone(),
                    config.repo.clone(),
                    clone_opt(&config.branch),
                    config.desc.clone(),
                    Vec::new(),
                );
                Ok(InstalledTheme {
                    config,
                    path: path.clone(),
                    partial,
                    parent_dir: dir,
                    parent_config_path: clone_opt(&parent_config_path),
                })
            },
        }
    }

    /// The manifest paths of the modules, in declaration order.
    pub fn module_paths(&self) -> (r: Vec<String>)
        ensures
            r@.len() == self.config.module@.len(),
            forall|i: int| 0 <= i < r@.len() ==> #[trigger] r@[i]@ == self.module_file(i),
    {
        let mut r: Vec<String> = Vec::new();
        let mut i: usize = 0;
        while i < self.config.module.len()
            invariant
                i <= self.config.module@.len(),
                r@.len() == i,
                forall|k: int| 0 <= k < i ==> #[trigger] r@[k]@ == self.module_file(k),
            decreases self.config.module@.len() - i,
        {
            r.push(path_join(self.parent_dir.as_str(), self.config.module[i].config.as_str()));
            i = i + 1;
        }
        r
    }

    fn module_list(&self, parsed: Vec<Option<Config>>, only_enabled: bool) -> (r: Vec<InstalledTheme>)
        requires
            parsed@.len() == self.config.module@.len(),
        ensures
            r@.len() == self.loaded_modules(parsed@, only_enabled, parsed@.len()).len(),
            forall|k: int| 0 <= k < r@.len() ==> self.is_module_of(
                #[trigger] r@[k],
                parsed@,
                self.loaded_modules(parsed@, only_enabled, parsed@.len())[k],
            ),
    {
        let ghost orig = parsed@;
        let mut parsed = parsed;
        let total: usize = parsed.len();
        let mut r: Vec<InstalledTheme> = Vec::new();
        let mut i: usize = 0;
        while parsed.len() > 0
            invariant
                i + parsed@.len() == total,
                total == orig.len(),
                orig.len() == self.config.module@.len(),
                parsed@ == orig.subrange(i as int, orig.len() as int),
                r@.len() == self.loaded_modules(orig, only_enabled, i as nat).len(),
                forall|k: int| 0 <= k < r@.len() ==> self.is_module_of(
                    #[trigger] r@[k],
                    orig,
                    self.loaded_modules(orig, only_enabled, i as nat)[k],
                ),
            decreases parsed@.len(),
        {
            let entry = parsed.remove(0);
            assert(entry == orig[i as int]);
            let ghost before = r@;
            let module = &self.config.module[i];
            if !only_enabled || module.enabled {
                if let Some(c) = entry {
                    let p = path_join(self.parent_dir.as_str(), module.config.as_str());
                    match InstalledTheme::from_file(&p, Some(self.path.clone()), c) {
                        Ok(t) => {
                            r.push(t);
                        },
                        Err(_) => {},
                    }
                }
            }
            assert(forall|k: int| 0 <= k < before.len() ==> r@[k] == before[k]);
            i = i + 1;
        }
        r
    }

    /// The modules whose manifests parsed, each tagged with this manifest as
    /// its parent. `parsed` holds, for each declared module in order, its
    /// manifest, or `None` where it could not be read or parsed; such a
    /// module is left out.
    pub fn get_modules(&self, parsed: Vec<Option<Config>>) -> (r: Vec<InstalledTheme>)
        requires
            parsed@.len() == self.config.module@.len(),
        ensures
            r@.len() == self.loaded_modules(parsed@, false, parsed@.len()).len(),
            forall|k: int| 0 <= k < r@.len() ==> self.is_module_of(
                #[trigger] r@[k],
                parsed@,
                self.loaded_modules(parsed@, false, parsed@.len())[k],
            ),
    {
        self.module_list(parsed, false)
    }

    /// As `get_modules`, keeping only the modules that this manifest marks
    /// as enabled.
    pub fn get_enabled_modules(&self, parsed: Vec<Option<Config>>) -> (r: Vec<InstalledTheme>)
        requires
            parsed@.len() == self.config.module@.len(),
        ensures
            r@.len() == self.loaded_modules(parsed@, true, parsed@.len()).len(),
            forall|k: int| 0 <= k < r@.len() ==> self.is_module_of(
                #[trigger] r@[k],
                parsed@,
                self.loaded_modules(parsed@, true, parsed@.len())[k],
            ),
    {
        self.module_list(parsed, true)
    }

    /// The declared links, each resolved against the containing directory:
    /// `(from, to)` where `to` is to point at `from`.
    pub fn get_links(&self) -> (r: Vec<(String, String)>)
        ensures
            r@.len() == self.config.link@.len(),
            forall|i: int| 0 <= i < r@.len() ==> self.link_resolved(i, #[trigger] r@[i]),
    {
        let mut r: Vec<(String, String)> = Vec::new();
        let mut i: usize = 0;
        while i < self.config.link.len()
            invariant
                i <= self.config.link@.len(),
                r@.len() == i,
                forall|k: int| 0 <= k < i ==> self.link_resolved(k, #[trigger] r@[k]),
            decreases self.config.link@.len() - i,
        {
            let link = &self.config.link[i];
            let from = resolve_path(link.from.as_str(), self.parent_dir.as_str());
            let to = resolve_path(link.to.as_str(), self.parent_dir.as_str());
            r.push((from, to));
            i = i + 1;
        }
        r
    }

    /// The `i`-th declared link resolves to `pair`.
    pub open spec fn link_resolved(self, i: int, pair: (String, String)) -> bool {
        &&& resolves_to(self.config.link@[i].from@, self.parent_dir@, pair.0@)
        &&& resolves_to(self.config.link@[i].to@, self.parent_dir@, pair.1@)
    }

    /// The hook `hook` of this theme, as a program to run with the containing
    /// directory as its argument.
    fn hook_run(&self, hook: &Option<String>) -> (r: Option<HookRun>)
        ensures
            r is Some <==> hook is Some,
            r matches Some(h) ==> h.runs(self.parent_dir@, hook->0@),
    {
        match hook {
            None => None,
            Some(h) => {
                let joined = path_join(self.parent_dir.as_str(), h.as_str());
                Some(HookRun { program: expand_or_keep(joined.as_str()), dir: self.parent_dir.clone() })
            },
        }
    }

    /// The load hook, to run when the theme is enabled.
    pub fn load(&self) -> (r: Option<HookRun>)
        ensures
            r is Some <==> self.config.theme.load is Some,
            r matches Some(h) ==> h.runs(self.parent_dir@, self.config.theme.load->0@),
    {
        self.hook_run(&self.config.theme.load)
    }

    /// The unload hook, to run when the theme is disabled.
    pub fn unload(&self) -> (r: Option<HookRun>)
        ensures
            r is Some <==> self.config.theme.unload is Some,
            r matches Some(h) ==> h.runs(self.parent_dir@, self.config.theme.unload->0@),
    {
        self.hook_run(&self.config.theme.unload)
    }

    /// The compositor configuration fragment, as the manifest writes it.
    pub fn get_hypr_config(&self) -> (r: String)
        ensures
            r@ == self.config.theme.config@,
    {
        self.config.theme.config.clone()
    }

    /// Where the compositor is to source this theme's configuration from.
    pub open spec fn source_file(self, out: Seq<char>) -> bool {
        expands_to(joined_path(self.parent_dir@, self.config.theme.config@), out)
    }

    /// The path of the configuration fragment to source, resolved against
    /// the containing directory and expanded.
    pub fn source_path(&self) -> (r: String)
        ensures
            self.source_file(r@),
            !is_tilde_spec(joined_path(self.parent_dir@, self.config.theme.config@)) ==> r@ == joined_path(
                self.parent_dir@,
                self.config.theme.config@,
            ),
    {
        let joined = path_join(self.parent_dir.as_str(), self.config.theme.config.as_str());
        expand_or_keep(joined.as_str())
    }

    /// The shell command that asks the compositor to source this theme.
    pub fn run_hyprctl_source(&self) -> (r: String)
        ensures
            exists|p: Seq<char>| self.source_file(p) && r@ == source_command_text(p),
    {
        let p = self.source_path();
        source_command(p.as_str())
    }

    pub fn is_enabled(&self) -> (r: bool)
        ensures
            r == self.config.enabled,
    {
        self.config.enabled
    }

    pub fn is_module(&self) -> (r: bool)
        ensures
            r == (self.parent_config_path is Some),
    {
        self.parent_config_path.is_some()
    }

    /// The modules after setting the flag of each entry whose manifest lies
    /// at `p` to `on`.
    pub open spec fn flagged_modules(self, p: Seq<char>, on: bool) -> Seq<ConfigModule> {
        Seq::new(
            self.config.module@.len(),
            |i: int|
                if self.module_file(i) == p {
                    ConfigModule { config: self.config.module@[i].config, enabled: on }
                } else {
                    self.config.module@[i]
                },
        )
    }

    /// `b` is `a` with only its module entries changed.
    pub open spec fn same_but_modules(a: InstalledTheme, b: InstalledTheme) -> bool {
        &&& b.config == (Config { module: b.config.module, ..a.config })
        &&& b.path == a.path
        &&& b.partial == a.partial
        &&& b.parent_dir == a.parent_dir
        &&& b.parent_config_path == a.parent_config_path
    }

    /// Records in this (parent) manifest that the module whose manifest lies
    /// at `path` is enabled or not. Entries are matched by their path
    /// resolved against the containing directory.
    pub fn set_module_enabled(&mut self, path: &str, on: bool)
        ensures
            InstalledTheme::same_but_modules(*old(self), *final(self)),
            final(self).config.module@ == old(self).flagged_modules(path@, on),
    {
        let ghost start = *self;
        let target = String::from_str(path);
        let mut i: usize = 0;
        while i < self.config.module.len()
            invariant
                target@ == path@,
                InstalledTheme::same_but_modules(start, *self),
                self.config.module@.len() == start.config.module@.len(),
                i <= self.config.module@.len(),
                forall|k: int| 0 <= k < i ==> self.config.module@[k] == #[trigger] start.flagged_modules(path@, on)[k],
                forall|k: int| i <= k < self.config.module@.len() ==> self.config.module@[k] == #[trigger] start.config.module@[k],
            decreases self.config.module@.len() - i,
        {
            let file = path_join(self.parent_dir.as_str(), self.config.module[i].config.as_str());
            proof {
                assert(file@ == start.module_file(i as int));
            }
            if file == target {
                let config = self.config.module[i].config.clone();
                self.config.module.set(i, ConfigModule { config, enabled: on });
            }
            i = i + 1;
        }
        assert(self.config.module@ =~= start.flagged_modules(path@, on));
    }

    /// This theme with its own `enabled` flag set to `on`.
    pub open spec fn with_enabled(self, on: bool) -> InstalledTheme {
        InstalledTheme { config: self.config.with_enabled(on), ..self }
    }

    /// `plan` is what enabling (`on`) or disabling this theme asks for.
    pub open spec fn plans(self, plan: ActivationPlan, on: bool) -> bool {
        let hook = if on { self.config.theme.load } else { self.config.theme.unload };
        &&& plan.hook is Some <==> hook is Some
        &&& plan.hook matches Some(h) ==> h.runs(self.parent_dir@, hook->0@)
        &&& plan.links@.len() == self.config.link@.len()
        &&& forall|i: int| 0 <= i < plan.links@.len() ==> self.link_resolved(i, #[trigger] plan.links@[i])
        &&& opt_view(plan.parent_manifest) == opt_view(self.parent_config_path)
        &&& on ==> (plan.source matches Some(p) && self.source_file(p@))
        &&& !on ==> plan.source is None
    }

    fn plan(&self, on: bool) -> (r: ActivationPlan)
        ensures
            self.plans(r, on),
    {
        let hook = if on { self.load() } else { self.unload() };
        let source = if on { Some(self.source_path()) } else { None };
        ActivationPlan {
            hook,
            links: self.get_links(),
            parent_manifest: clone_opt(&self.parent_config_path),
            source,
        }
    }

    /// Enables the theme. An enabled theme is left as it is and the call
    /// reports a conflict. Otherwise the manifest is marked enabled and the
    /// returned plan says what the caller is to do, in order: run the load
    /// hook, back up each link target that exists and create the link, mark
    /// the module enabled in its parent's manifest, write this manifest,
    /// and have the compositor source the configuration.
    pub fn enable(&mut self) -> (r: Result<ActivationPlan, ThemeError>)
        ensures
            old(self).config.enabled ==> r == Err::<ActivationPlan, ThemeError>(ThemeError::StateConflict) && *final(self) == *old(self),
            !old(self).config.enabled ==> r is Ok && *final(self) == old(self).with_enabled(true),
            r matches Ok(plan) ==> old(self).plans(plan, true),
    {
        if self.config.enabled {
            return Err(ThemeError::StateConflict);
        }
        self.config.enabled = true;
        let plan = self.plan(true);
        Ok(plan)
    }

    /// Disables the theme. A disabled theme is left as it is and the call
    /// reports a conflict. Otherwise the manifest is marked disabled and the
    /// returned plan says what the caller is to do, in order: run the unload
    /// hook, remove each link and restore its backup, mark the module
    /// disabled in its parent's manifest, and write this manifest.
    pub fn disable(&mut self) -> (r: Result<ActivationPlan, ThemeError>)
        ensures
            !old(self).config.enabled ==> r == Err::<ActivationPlan, ThemeError>(ThemeError::StateConflict) && *final(self) == *old(self),
            old(self).config.enabled ==> r is Ok && *final(self) == old(self).with_enabled(false),
            r matches Ok(plan) ==> old(self).plans(plan, false),
    {
        if !self.config.enabled {
            return Err(ThemeError::StateConflict);
        }
        self.config.enabled = false;
        let plan = self.plan(false);
        Ok(plan)
    }

    /// The branch to fetch when updating: the declared one, else `master`.
    pub fn update_branch(&self) -> (r: String)
        ensures
            self.partial.branch matches Some(b) ==> r@ == b@,
            self.partial.branch is None ==> r@ == seq!['m', 'a', 's', 't', 'e', 'r'],
    {
        match &self.partial.branch {
            Some(b) => b.clone(),
            None => {
                proof {
                    reveal_strlit("master");
                }
                let r = String::from_str("master");
                assert(r@ =~= seq!['m', 'a', 's', 't', 'e', 'r']);
                r
            },
        }
    }

    /// The catalog record this theme stands for once its directory is gone.
    pub fn to_online(&self) -> (r: OnlineTheme)
        ensures
            r.partial.same_record(self.partial),
    {
        OnlineTheme::from_theme(self.partial.copy())
    }

    pub fn get_id(&self) -> (r: ThemeId)
        ensures
            same_id(r, self.partial.id_spec()),
    {
        self.partial.get_id()
    }

    pub fn get_name(&self) -> (r: String)
        ensures
            r@ == self.partial.name@,
    {
        self.partial.name.clone()
    }

    pub fn get_repo(&self) -> (r: String)
        ensures
            r@ == self.partial.repo@,
    {
        self.partial.repo.clone()
    }

    pub fn get_branch(&self) -> (r: Option<String>)
        ensures
            opt_view(r) == opt_view(self.partial.branch),
    {
        clone_opt(&self.partial.branch)
    }
}

/// What the caller carries out after a theme changed state.
pub struct ActivationPlan {
    /// The hook to run first.
    pub hook: Option<HookRun>,
    /// The links, `(from, to)`, to create or remove.
    pub links: Vec<(String, String)>,
    /// The parent manifest to re-read, update and write, for a module.
    pub parent_manifest: Option<String>,
    /// The configuration fragment the compositor is to source last.
    pub source: Option<String>,
}

/// A theme known from a catalog, not yet on disk.
#[derive(Clone, Debug)]
pub struct OnlineTheme {
    pub partial: Theme,
}

impl OnlineTheme {
    pub fn from_theme(partial: Theme) -> (r: OnlineTheme)
        ensures
            r.partial == partial,
    {
        OnlineTheme { partial }
    }
}

/// A theme as the resolver finds it: installed, or only in a catalog.
#[derive(Clone, Debug)]
pub enum ThemeVariant {
    Installed(InstalledTheme),
    Online(OnlineTheme),
}

impl ThemeVariant {
    pub open spec fn record(self) -> Theme {
        match self {
            ThemeVariant::Installed(t) => t.partial,
            ThemeVariant::Online(t) => t.partial,
        }
    }

    /// `installed` or `online`.
    pub fn get_type_string(&self) -> (r: String)
        ensures
            self is Installed ==> r@ == seq!['i', 'n', 's', 't', 'a', 'l', 'l', 'e', 'd'],
            self is Online ==> r@ == seq!['o', 'n', 'l', 'i', 'n', 'e'],
    {
        match self {
            ThemeVariant::Installed(_) => {
                proof {
                    reveal_strlit("installed");
                }
                let r = String::from_str("installed");
                assert(r@ =~= seq!['i', 'n', 's', 't', 'a', 'l', 'l', 'e', 'd']);
                r
            },
            ThemeVariant::Online(_) => {
                proof {
                    reveal_strlit("online");
                }
                let r = String::from_str("online");
                assert(r@ =~= seq!['o', 'n', 'l', 'i', 'n', 'e']);
                r
            },
        }
    }

    pub fn get_id(&self) -> (r: ThemeId)
        ensures
            same_id(r, self.record().id_spec()),
    {
        match self {
            ThemeVariant::Installed(t) => t.partial.get_id(),
            ThemeVariant::Online(t) => t.partial.get_id(),
        }
    }

    pub fn get_name(&self) -> (r: String)
        ensures
            r@ == self.record().name@,
    {
        match self {
            ThemeVariant::Installed(t) => t.partial.name.clone(),
            ThemeVariant::Online(t) => t.partial.name.clone(),
        }
    }
}

/// A hook to run: a program and the directory handed to it.
#[derive(Clone, Debug, PartialEq, Eq)]
pub struct HookRun {
    pub program: String,
    pub dir: String,
}

impl HookRun {
    /// This runs the hook written as `hook` in a manifest in `dir`.
    pub open spec fn runs(self, dir: Seq<char>, hook: Seq<char>) -> bool {
        &&& self.dir@ == dir
        &&& expands_to(joined_path(dir, hook), self.program@)
        &&& !is_tilde_spec(joined_path(dir, hook)) ==> self.program@ == joined_path(dir, hook)
    }
}

/// The text of the command that has the compositor source the file at `p`.
pub open spec fn source_command_text(p: Seq<char>) -> Seq<char> {
    seq!['h', 'y', 'p', 'r', 'c', 't', 'l', ' ', 'k', 'e', 'y', 'w', 'o', 'r', 'd', ' ', 's', 'o', 'u', 'r', 'c', 'e', ' '] + p
}

/// The command that has the compositor source the file at `p`.
pub fn source_command(p: &str) -> (r: String)
    ensures
        r@ == source_command_text(p@),
{
    let prefix = "hyprctl keyword source ";
    proof {
        reveal_strlit("hyprctl keyword source ");
    }
    let mut r = String::from_str(prefix);
    r.append(p);
    assert(r@ =~= source_command_text(p@));
    r
}

/// A theme that one call of `enable` turned on takes a second call as a
/// conflict and stays as it is: no hook, no link and no parent update is
/// planned twice. Marking a module in its parent twice leaves the parent as
/// marking it once does.
pub proof fn lemma_enable_twice_is_noop(t: InstalledTheme, parent: InstalledTheme, marked: InstalledTheme, p: Seq<char>)
    requires
        !t.config.enabled,
        InstalledTheme::same_but_modules(parent, marked),
        marked.config.module@ == parent.flagged_modules(p, true),
    ensures
        t.with_enabled(true).config.enabled,
        marked.flagged_modules(p, true) == parent.flagged_modules(p, true),
{
    assert(marked.flagged_modules(p, true) =~= parent.flagged_modules(p, true));
}

/// Enabling a module marks its own manifest enabled and, in its parent's
/// manifest as read again from disk, the entry that names it; disabling
/// clears both.
pub proof fn lemma_module_state_follows(
    parent: InstalledTheme,
    parsed: Seq<Option<Config>>,
    i: int,
    m: InstalledTheme,
    reloaded: InstalledTheme,
    on: bool,
)
    requires
        parent.wf(),
        0 <= i < parent.config.module@.len(),
        parent.is_module_of(m, parsed, i),
        reloaded.wf(),
        reloaded.path@ == parent.path@,
        i < reloaded.config.module@.len(),
        reloaded.config.module@[i].config@ == parent.config.module@[i].config@,
    ensures
        m.with_enabled(on).config.enabled == on,
        reloaded.flagged_modules(m.path@, on)[i].enabled == on,
        opt_view(m.parent_config_path) == Some(reloaded.path@),
{
    assert(reloaded.parent_dir@ == parent.parent_dir@);
    assert(reloaded.module_file(i) == parent.module_file(i));
}

/// Which modules load: the `j`-th is among the first `n` that load exactly
/// when its manifest parsed and its path has a parent (and, for the enabled
/// ones, its entry is enabled).
pub proof fn lemma_loaded_modules_members(t: InstalledTheme, parsed: Seq<Option<Config>>, only_enabled: bool, n: nat)
    ensures
        forall|j: int| #[trigger] t.loaded_modules(parsed, only_enabled, n).contains(j) <==> (0 <= j < n
            && t.module_loads(parsed, only_enabled, j)),
    decreases n,
{
    if n > 0 {
        lemma_loaded_modules_members(t, parsed, only_enabled, (n - 1) as nat);
        let prev = t.loaded_modules(parsed, only_enabled, (n - 1) as nat);
        assert forall|j: int| #[trigger] t.loaded_modules(parsed, only_enabled, n).contains(j) <==> (0 <= j < n
            && t.module_loads(parsed, only_enabled, j)) by {
            if t.module_loads(parsed, only_enabled, n - 1) {
                assert(prev.push(n - 1).contains(j) <==> (prev.contains(j) || j == n - 1)) by {
                    if prev.push(n - 1).contains(j) {
                        let k = choose|k: int| 0 <= k < prev.push(n - 1).len() && #[trigger] prev.push(n - 1)[k] == j;
                        if k < prev.len() {
                            assert(prev[k] == j);
                        }
                    }
                    if prev.contains(j) {
                        let k = choose|k: int| 0 <= k < prev.len() && #[trigger] prev[k] == j;
                        assert(prev.push(n - 1)[k] == j);
                    }
                    if j == n - 1 {
                        assert(prev.push(n - 1)[prev.len() as int] == j);
                    }
                }
            }
        }
    }
}

/// A module whose manifest does not parse is left out of the modules and
/// the enabled modules, while its siblings that parse are still listed.
pub proof fn lemma_unparsable_module_left_out(t: InstalledTheme, parsed: Seq<Option<Config>>, i: int, j: int)
    requires
        parsed.len() == t.config.module@.len(),
        0 <= i < parsed.len(),
        parsed[i] is None,
    ensures
        !t.loaded_modules(parsed, false, parsed.len()).contains(i),
        !t.loaded_modules(parsed, true, parsed.len()).contains(i),
        0 <= j < parsed.len() && parsed[j] is Some && parent_path(t.module_file(j)) is Some
            ==> t.loaded_modules(parsed, false, parsed.len()).contains(j),
{
    lemma_loaded_modules_members(t, parsed, false, parsed.len());
    lemma_loaded_modules_members(t, parsed, true, parsed.len());
}

} // verus!
