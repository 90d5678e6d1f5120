use cyberplug::app::PluginEntry;
use cyberplug::models::Plugin;
use cyberplug::profile::{
    build_profile, ImportAction, ImportRun, Outcome, Profile, ProfileEntry,
};
use cyberplug::settings::{LocalSettings, SettingsTable};

fn installed(id: &str, enabled: bool) -> PluginEntry {
    PluginEntry {
        plugin: Plugin {
            id: id.to_string(),
            name: id.to_uppercase(),
            description: String::new(),
            kinds: vec![],
            first_party: None,
            version: None,
            author: None,
            bar_widget: None,
        },
        enabled,
    }
}

fn entry(id: &str, repo: Option<&str>, enabled: bool) -> ProfileEntry {
    ProfileEntry {
        id: id.to_string(),
        name: id.to_string(),
        repo: repo.map(|r| r.to_string()),
        enabled,
    }
}

fn action_text(a: &ImportAction) -> String {
    match a {
        ImportAction::Install(r) => format!("install {}", r),
        ImportAction::Enable(i) => format!("enable {}", i),
        ImportAction::Disable(i) => format!("disable {}", i),
        ImportAction::MergeSettings => "merge".to_string(),
        ImportAction::Done => "done".to_string(),
    }
}

#[test]
fn export_captures_plugins_remotes_and_settings() {
    let plugins = vec![installed("clock", true), installed("vpn", false)];
    let mut local = LocalSettings::default();
    local.set("clock", "format", "24h".to_string());
    let p = build_profile(&plugins, vec![None, Some("https://x/vpn.git".to_string())], &local);
    assert_eq!(p.version, 1);
    assert_eq!(p.plugins.len(), 2);
    assert_eq!(p.plugins[0].id, "clock");
    assert_eq!(p.plugins[0].name, "CLOCK");
    assert_eq!(p.plugins[0].repo, None);
    assert!(p.plugins[0].enabled);
    assert_eq!(p.plugins[1].repo.as_deref(), Some("https://x/vpn.git"));
    assert!(!p.plugins[1].enabled);
    assert_eq!(p.settings.lookup("clock", "format"), Some(&"24h".to_string()));
}

#[test]
fn import_installs_missing_and_matches_state() {
    let mut settings = SettingsTable::new();
    settings.store("clock", "format", "24h".to_string());
    settings.store("vpn", "server", "ch".to_string());
    let profile = Profile {
        version: 1,
        plugins: vec![
            entry("clock", None, true),
            entry("vpn", Some("https://x/vpn.git"), false),
            entry("ghost", None, true),
            entry("broken", Some("https://x/broken.git"), true),
            entry("weather", None, false),
        ],
        settings,
    };
    let mut run = ImportRun::new(profile, vec!["clock".to_string(), "weather".to_string()]);
    let mut log = vec![];
    let mut a = run.step(Outcome::Succeeded);
    log.push(action_text(&a));
    // clock: enable succeeds.
    a = run.step(Outcome::Succeeded);
    log.push(action_text(&a));
    // vpn: install succeeds, then disable succeeds.
    a = run.step(Outcome::Succeeded);
    log.push(action_text(&a));
    a = run.step(Outcome::Succeeded);
    log.push(action_text(&a));
    // broken: install fails; weather comes next.
    a = run.step(Outcome::Failed("clone failed".to_string()));
    log.push(action_text(&a));
    // weather: disable fails.
    a = run.step(Outcome::Failed("not running".to_string()));
    log.push(action_text(&a));
    let mut local = LocalSettings::default();
    local.set("clock", "format", "12h".to_string());
    local.set("clock", "seconds", "yes".to_string());
    run.merge_settings(&mut local);
    a = run.step(Outcome::Succeeded);
    log.push(action_text(&a));
    assert_eq!(
        log,
        vec![
            "enable clock",
            "install https://x/vpn.git",
            "disable vpn",
            "install https://x/broken.git",
            "disable weather",
            "merge",
            "done",
        ]
    );
    let s = run.summary();
    assert_eq!(s.installed, 1);
    assert_eq!(s.enabled, 1);
    assert_eq!(s.disabled, 1);
    assert_eq!(s.settings_applied, 2);
    assert_eq!(
        s.errors,
        vec![
            "ghost: not present and no repo to install from".to_string(),
            "broken: install failed: clone failed".to_string(),
            "weather: not running".to_string(),
        ]
    );
    assert_eq!(s.enabled + s.disabled + s.errors.len(), 5);
    assert_eq!(local.get("clock", "format"), Some(&"24h".to_string()));
    assert_eq!(local.get("clock", "seconds"), Some(&"yes".to_string()));
    assert_eq!(local.get("vpn", "server"), Some(&"ch".to_string()));
    assert!(matches!(run.step(Outcome::Succeeded), ImportAction::Done));
}

#[test]
fn import_without_settings_skips_the_merge() {
    let profile = Profile {
        version: 1,
        plugins: vec![entry("clock", None, false)],
        settings: SettingsTable::new(),
    };
    let mut run = ImportRun::new(profile, vec!["clock".to_string()]);
    assert!(matches!(run.step(Outcome::Succeeded), ImportAction::Disable(ref i) if i == "clock"));
    assert!(matches!(run.step(Outcome::Succeeded), ImportAction::Done));
    assert_eq!(run.summary().disabled, 1);
    assert_eq!(run.summary().settings_applied, 0);
}

#[test]
fn reimporting_an_export_restores_enabled_state() {
    let plugins = vec![installed("clock", true), installed("vpn", false)];
    let local = LocalSettings::default();
    let p = build_profile(&plugins, vec![None, None], &local);
    let mut run = ImportRun::new(p, vec!["clock".to_string(), "vpn".to_string()]);
    assert!(matches!(run.step(Outcome::Succeeded), ImportAction::Enable(ref i) if i == "clock"));
    assert!(matches!(run.step(Outcome::Succeeded), ImportAction::Disable(ref i) if i == "vpn"));
    assert!(matches!(run.step(Outcome::Succeeded), ImportAction::Done));
    assert_eq!(run.summary().enabled, 1);
    assert_eq!(run.summary().disabled, 1);
    assert!(run.summary().errors.is_empty());
}

#[test]
fn empty_profile_is_done_at_once() {
    let profile = Profile { version: 1, plugins: vec![], settings: SettingsTable::new() };
    let mut run = ImportRun::new(profile, vec![]);
    assert!(matches!(run.step(Outcome::Failed("ignored".to_string())), ImportAction::Done));
    let s = run.summary();
    assert_eq!((s.installed, s.enabled, s.disabled, s.settings_applied), (0, 0, 0, 0));
}

#[test]
fn profile_with_only_empty_settings_rows_still_merges() {
    let mut settings = SettingsTable::new();
    settings.ensure_row("clock");
    let profile = Profile { version: 1, plugins: vec![], settings };
    let mut run = ImportRun::new(profile, vec![]);
    assert!(matches!(run.step(Outcome::Succeeded), ImportAction::MergeSettings));
    let mut local = LocalSettings::default();
    run.merge_settings(&mut local);
    assert!(matches!(run.step(Outcome::Succeeded), ImportAction::Done));
    assert_eq!(run.summary().settings_applied, 0);
    assert!(local.values.is_empty());
}

#[test]
fn export_then_import_restores_the_setup() {
    let plugins = vec![installed("clock", true), installed("vpn", false), installed("mail", true)];
    let mut local = LocalSettings::default();
    local.set("mail", "interval", "60".to_string());
    local.set("clock", "format", "24h".to_string());
    let profile = build_profile(&plugins, vec![None, Some("https://x/vpn.git".to_string()), None], &local);
    let present = vec!["clock".to_string(), "vpn".to_string(), "mail".to_string()];
    let mut run = ImportRun::new(profile, present);
    let mut log = vec![];
    loop {
        let a = run.step(Outcome::Succeeded);
        log.push(action_text(&a));
        match a {
            ImportAction::MergeSettings => {
                let mut fresh = LocalSettings::default();
                fresh.set("mail", "interval", "30".to_string());
                fresh.set("weather", "unit", "c".to_string());
                run.merge_settings(&mut fresh);
                assert_eq!(fresh.get("mail", "interval"), Some(&"60".to_string()));
                assert_eq!(fresh.get("clock", "format"), Some(&"24h".to_string()));
                assert_eq!(fresh.get("weather", "unit"), Some(&"c".to_string()));
            },
            ImportAction::Done => break,
            _ => {},
        }
    }
    assert_eq!(log, vec!["enable clock", "disable vpn", "enable mail", "merge", "done"]);
    let s = run.summary();
    assert_eq!(s.installed, 0);
    assert_eq!(s.enabled, 2);
    assert_eq!(s.disabled, 1);
    assert_eq!(s.settings_applied, 2);
    assert!(s.errors.is_empty());
}
