use hyprtheme::activation::{disable_link_ops, enable_link_ops, LinkOp};
use hyprtheme::cli::List;
use hyprtheme::config::{get_all_source_paths, get_enabled_themes};
use hyprtheme::identity::{parse_theme_id, exclude_ids, Theme, ThemeId};
use hyprtheme::installed::{source_command, InstalledTheme, OnlineTheme, ThemeError, ThemeVariant};
use hyprtheme::manifest::{Config, ConfigLink, ConfigModule, ConfigTheme};
use hyprtheme::paths::{backup_path, expand_or_keep, resolve_path};
use hyprtheme::resolver::{identify_offline_theme, identify_theme};

fn manifest(name: &str, enabled: bool) -> Config {
    Config {
        name: name.to_string(),
        repo: format!("https://example.org/{}", name),
        branch: None,
        desc: format!("{} theme", name),
        enabled,
        theme: ConfigTheme { config: "./theme.conf".to_string(), load: None, unload: None },
        module: Vec::new(),
        link: Vec::new(),
    }
}

fn installed(path: &str, config: Config) -> InstalledTheme {
    InstalledTheme::from_file(&path.to_string(), None, config).unwrap()
}

fn theme(name: &str, repo: &str, branch: Option<&str>) -> Theme {
    Theme::new(name.to_string(), repo.to_string(), branch.map(|b| b.to_string()), String::new(), Vec::new())
}

#[test]
fn parse_bare_name() {
    let q = parse_theme_id("nord").unwrap();
    assert_eq!(q.name, "nord");
    assert_eq!(q.branch, None);
    assert_eq!(q.repo, None);
}

#[test]
fn parse_name_branch_repo() {
    let q = parse_theme_id("nord:dev@https://github.com/x/nord").unwrap();
    assert_eq!(q.name, "nord");
    assert_eq!(q.branch.as_deref(), Some("dev"));
    assert_eq!(q.repo.as_deref(), Some("https://github.com/x/nord"));
}

#[test]
fn parse_name_branch_only() {
    let q = parse_theme_id("nord:dev").unwrap();
    assert_eq!(q.name, "nord");
    assert_eq!(q.branch.as_deref(), Some("dev"));
    assert_eq!(q.repo, None);
}

#[test]
fn parse_name_repo_only() {
    let q = parse_theme_id("nord@git@github.com:x/nord.git").unwrap();
    assert_eq!(q.name, "nord");
    assert_eq!(q.branch, None);
    assert_eq!(q.repo.as_deref(), Some("git@github.com:x/nord.git"));
}

#[test]
fn parse_rejects_missing_name() {
    assert!(parse_theme_id("").is_none());
    assert!(parse_theme_id(":dev").is_none());
    assert!(parse_theme_id("@repo").is_none());
}

#[test]
fn exclude_ids_drops_listed_themes() {
    let themes = vec![theme("a", "r1", None), theme("b", "r2", Some("main")), theme("c", "r2", None)];
    let ex = vec![ThemeId { repo: "r2".to_string(), branch: None }];
    let kept = exclude_ids(themes, &ex);
    let names: Vec<String> = kept.iter().map(|t| t.name.clone()).collect();
    assert_eq!(names, vec!["a".to_string(), "b".to_string()]);
}

#[test]
fn from_file_derives_directory_and_record() {
    let t = installed("/themes/nord/hyprtheme.toml", manifest("nord", false));
    assert_eq!(t.parent_dir, "/themes/nord");
    assert_eq!(t.get_name(), "nord");
    assert_eq!(t.get_repo(), "https://example.org/nord");
    assert_eq!(t.get_branch(), None);
    assert!(!t.is_module());
    assert!(!t.is_enabled());
    assert_eq!(t.get_hypr_config(), "./theme.conf");
}

#[test]
fn from_file_without_directory_fails() {
    let r = InstalledTheme::from_file(&String::new(), None, manifest("x", false));
    assert_eq!(r.err(), Some(ThemeError::Io));
}

fn parent_with_modules() -> InstalledTheme {
    let mut c = manifest("base", true);
    c.module = vec![
        ConfigModule { config: "bar/hyprtheme.toml".to_string(), enabled: true },
        ConfigModule { config: "broken/hyprtheme.toml".to_string(), enabled: true },
        ConfigModule { config: "dock/hyprtheme.toml".to_string(), enabled: false },
    ];
    installed("/themes/base/hyprtheme.toml", c)
}

#[test]
fn module_paths_are_joined() {
    let p = parent_with_modules();
    assert_eq!(
        p.module_paths(),
        vec![
            "/themes/base/bar/hyprtheme.toml".to_string(),
            "/themes/base/broken/hyprtheme.toml".to_string(),
            "/themes/base/dock/hyprtheme.toml".to_string(),
        ]
    );
}

#[test]
fn unparsable_module_is_left_out() {
    let p = parent_with_modules();
    let parsed = vec![Some(manifest("bar", true)), None, Some(manifest("dock", false))];
    let mods = p.get_modules(parsed);
    assert_eq!(mods.len(), 2);
    assert_eq!(mods[0].get_name(), "bar");
    assert_eq!(mods[0].path, "/themes/base/bar/hyprtheme.toml");
    assert_eq!(mods[0].parent_config_path.as_deref(), Some("/themes/base/hyprtheme.toml"));
    assert!(mods[0].is_module());
    assert_eq!(mods[1].get_name(), "dock");
}

#[test]
fn enabled_modules_follow_parent_flags() {
    let p = parent_with_modules();
    let parsed = vec![Some(manifest("bar", true)), None, Some(manifest("dock", false))];
    let mods = p.get_enabled_modules(parsed);
    assert_eq!(mods.len(), 1);
    assert_eq!(mods[0].get_name(), "bar");
}

#[test]
fn enabling_module_marks_parent_entry() {
    let p = parent_with_modules();
    let parsed = vec![Some(manifest("bar", false)), None, Some(manifest("dock", false))];
    let mut dock = p.get_modules(parsed).remove(1);
    let plan = dock.enable().unwrap();
    assert!(dock.is_enabled());
    assert_eq!(plan.parent_manifest.as_deref(), Some("/themes/base/hyprtheme.toml"));
    let mut reloaded = parent_with_modules();
    reloaded.set_module_enabled(&dock.path, true);
    assert!(reloaded.config.module[2].enabled);
    assert!(reloaded.config.module[0].enabled);
    let plan = dock.disable().unwrap();
    assert!(!dock.is_enabled());
    assert!(plan.source.is_none());
    reloaded.set_module_enabled(&dock.path, false);
    assert!(!reloaded.config.module[2].enabled);
    assert!(reloaded.config.module[0].enabled);
    assert!(reloaded.config.module[1].enabled);
}

#[test]
fn enable_twice_is_a_conflict() {
    let mut t = installed("/themes/nord/hyprtheme.toml", manifest("nord", false));
    assert!(t.enable().is_ok());
    let before = t.config.clone();
    assert_eq!(t.enable().err(), Some(ThemeError::StateConflict));
    assert_eq!(t.config, before);
    assert!(t.is_enabled());
}

#[test]
fn disable_when_disabled_is_a_conflict() {
    let mut t = installed("/themes/nord/hyprtheme.toml", manifest("nord", false));
    assert_eq!(t.disable().err(), Some(ThemeError::StateConflict));
    assert!(!t.is_enabled());
}

#[test]
fn enable_plan_resolves_hooks_links_and_source() {
    let mut c = manifest("nord", false);
    c.theme.load = Some("scripts/load.sh".to_string());
    c.link = vec![
        ConfigLink { from: "./dark.conf".to_string(), to: "/etc/app/theme.conf".to_string() },
        ConfigLink { from: "/abs/a.conf".to_string(), to: "out/b.conf".to_string() },
    ];
    let mut t = installed("/themes/nord/hyprtheme.toml", c);
    let plan = t.enable().unwrap();
    let hook = plan.hook.unwrap();
    assert_eq!(hook.program, "/themes/nord/scripts/load.sh");
    assert_eq!(hook.dir, "/themes/nord");
    assert_eq!(
        plan.links,
        vec![
            ("/themes/nord/./dark.conf".to_string(), "/etc/app/theme.conf".to_string()),
            ("/abs/a.conf".to_string(), "/themes/nord/out/b.conf".to_string()),
        ]
    );
    assert_eq!(plan.source.as_deref(), Some("/themes/nord/./theme.conf"));
    assert_eq!(plan.parent_manifest, None);
    assert_eq!(t.run_hyprctl_source(), "hyprctl keyword source /themes/nord/./theme.conf");
}

#[test]
fn disable_plan_has_unload_hook_only() {
    let mut c = manifest("nord", true);
    c.theme.load = Some("load.sh".to_string());
    let mut t = installed("/themes/nord/hyprtheme.toml", c);
    let plan = t.disable().unwrap();
    assert!(plan.hook.is_none());
    t.config.theme.unload = Some("unload.sh".to_string());
    t.enable().unwrap();
    let plan = t.disable().unwrap();
    assert_eq!(plan.hook.unwrap().program, "/themes/nord/unload.sh");
}

#[test]
fn link_without_prior_file_has_no_backup() {
    let from = "/themes/dark/./dark.conf";
    let to = "/home/u/.config/app/theme.conf";
    let ops = enable_link_ops(from, to, false);
    assert_eq!(ops, vec![LinkOp::Symlink { target: from.to_string(), link: to.to_string() }]);
    let step = disable_link_ops(to, false);
    assert!(step.missing_backup);
    assert_eq!(step.ops, vec![LinkOp::Remove { path: to.to_string() }]);
}

#[test]
fn link_over_existing_file_is_backed_up_and_restored() {
    let ops = enable_link_ops("/t/a.conf", "/c/a.conf", true);
    assert_eq!(
        ops,
        vec![
            LinkOp::Rename { from: "/c/a.conf".to_string(), to: "/c/a.conf.hyprtheme.bak".to_string() },
            LinkOp::Symlink { target: "/t/a.conf".to_string(), link: "/c/a.conf".to_string() },
        ]
    );
    let step = disable_link_ops("/c/a.conf", true);
    assert!(!step.missing_backup);
    assert_eq!(
        step.ops,
        vec![
            LinkOp::Remove { path: "/c/a.conf".to_string() },
            LinkOp::Rename { from: "/c/a.conf.hyprtheme.bak".to_string(), to: "/c/a.conf".to_string() },
        ]
    );
}

#[test]
fn backup_path_appends_suffix() {
    assert_eq!(backup_path("/x/y.conf"), "/x/y.conf.hyprtheme.bak");
}

#[test]
fn tilde_paths_are_expanded() {
    let r = resolve_path("~/.config/app/theme.conf", "/themes/dark");
    assert!(!r.starts_with('~'));
    assert!(r.ends_with("/.config/app/theme.conf"));
    assert_eq!(expand_or_keep("/plain/path"), "/plain/path");
    assert_eq!(resolve_path("rel/x", "/d"), "/d/rel/x");
}

#[test]
fn resolver_prefers_installed_theme_in_later_root() {
    let first_root = vec![
        installed("/root1/gruvbox/hyprtheme.toml", manifest("gruvbox", false)),
        installed("/root1/catppuccin/hyprtheme.toml", manifest("catppuccin", false)),
    ];
    let mut all = first_root;
    all.push(installed("/root2/nord/hyprtheme.toml", manifest("nord", false)));
    let online = vec![OnlineTheme::from_theme(theme("nord", "https://catalog.example/nord", None))];
    match identify_theme("nord", all, online).unwrap() {
        ThemeVariant::Installed(t) => assert_eq!(t.path, "/root2/nord/hyprtheme.toml"),
        ThemeVariant::Online(_) => panic!("resolved to the catalog"),
    }
}

#[test]
fn resolver_falls_back_to_catalog() {
    let all = vec![installed("/root1/gruvbox/hyprtheme.toml", manifest("gruvbox", false))];
    let online = vec![
        OnlineTheme::from_theme(theme("nord", "r1", Some("main"))),
        OnlineTheme::from_theme(theme("nord", "r2", Some("dev"))),
    ];
    match identify_theme("nord:dev", all, online).unwrap() {
        ThemeVariant::Online(t) => assert_eq!(t.partial.repo, "r2"),
        ThemeVariant::Installed(_) => panic!("resolved to an installed theme"),
    }
}

#[test]
fn offline_resolver_reports_not_found() {
    let all = vec![installed("/root1/gruvbox/hyprtheme.toml", manifest("gruvbox", false))];
    assert_eq!(identify_offline_theme("nord", all).err(), Some(ThemeError::ThemeNotFound));
    let all = vec![installed("/root1/gruvbox/hyprtheme.toml", manifest("gruvbox", false))];
    assert_eq!(identify_offline_theme("gruvbox@other", all).err(), Some(ThemeError::ThemeNotFound));
}

#[test]
fn variant_type_strings() {
    let i = ThemeVariant::Installed(installed("/r/a/hyprtheme.toml", manifest("a", false)));
    let o = ThemeVariant::Online(OnlineTheme::from_theme(theme("b", "rb", None)));
    assert_eq!(i.get_type_string(), "installed");
    assert_eq!(o.get_type_string(), "online");
    assert_eq!(o.get_id(), ThemeId { repo: "rb".to_string(), branch: None });
}

#[test]
fn enabled_themes_and_source_paths() {
    let themes = vec![
        installed("/r/a/hyprtheme.toml", manifest("a", true)),
        installed("/r/b/hyprtheme.toml", manifest("b", false)),
        installed("/r/c/hyprtheme.toml", manifest("c", true)),
    ];
    let enabled = get_enabled_themes(themes);
    assert_eq!(enabled.len(), 2);
    let mut m = manifest("m", true);
    m.theme.config = "./module.conf".to_string();
    let module = InstalledTheme::from_file(&"/r/a/m/hyprtheme.toml".to_string(), Some("/r/a/hyprtheme.toml".to_string()), m).unwrap();
    let paths = get_all_source_paths(&enabled, &vec![vec![module], Vec::new()]);
    assert_eq!(paths, vec!["./theme.conf".to_string(), "./module.conf".to_string(), "./theme.conf".to_string()]);
}

#[test]
fn update_branch_defaults_to_master() {
    let t = installed("/r/a/hyprtheme.toml", manifest("a", false));
    assert_eq!(t.update_branch(), "master");
    let mut c = manifest("a", false);
    c.branch = Some("dev".to_string());
    let t = installed("/r/a/hyprtheme.toml", c);
    assert_eq!(t.update_branch(), "dev");
    assert_eq!(t.to_online().partial.branch.as_deref(), Some("dev"));
}

#[test]
fn list_flags() {
    let l = List { installed: false, online: false, show_installed: false }.normalized();
    assert_eq!(l, List { installed: true, online: true, show_installed: false });
    let ids = vec![ThemeId { repo: "r".to_string(), branch: None }];
    assert_eq!(l.excluded_ids(ids.clone()), ids);
    let l = List { installed: true, online: true, show_installed: true };
    assert!(l.excluded_ids(ids).is_empty());
}

#[test]
fn source_command_text() {
    assert_eq!(source_command("/a/b.conf"), "hyprctl keyword source /a/b.conf");
}

#[test]
fn dark_link_end_to_end_without_prior_file() {
    let mut c = manifest("dark", false);
    c.link = vec![ConfigLink { from: "./dark.conf".to_string(), to: "~/.config/app/theme.conf".to_string() }];
    let mut t = installed("/themes/dark/hyprtheme.toml", c);
    let plan = t.enable().unwrap();
    assert_eq!(plan.links.len(), 1);
    let (from, to) = &plan.links[0];
    assert_eq!(from, "/themes/dark/./dark.conf");
    assert!(to.ends_with("/.config/app/theme.conf"));
    assert!(!to.starts_with('~'));
    let ops = enable_link_ops(from, to, false);
    assert_eq!(ops, vec![LinkOp::Symlink { target: from.clone(), link: to.clone() }]);
    let plan = t.disable().unwrap();
    let (_, to) = &plan.links[0];
    let step = disable_link_ops(to, false);
    assert!(step.missing_backup);
    assert_eq!(step.ops, vec![LinkOp::Remove { path: to.clone() }]);
}
