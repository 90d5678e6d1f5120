use cyberplug::app::{App, Mode, PluginEntry};
use cyberplug::discovery::{CatalogEntry, Source};
use cyberplug::input::{current_setting, Command, Key};
use cyberplug::profile::ImportSummary;
use cyberplug::models::{BarWidget, Plugin, SchemaField};
use cyberplug::settings::LocalSettings;

fn field(key: &str, field_type: &str, default_value: Option<&str>) -> SchemaField {
    SchemaField {
        key: key.to_string(),
        field_type: field_type.to_string(),
        label: key.to_string(),
        min_bits: Some(5.0f64.to_bits()),
        max_bits: Some(300.0f64.to_bits()),
        step_bits: None,
        default_value: default_value.map(|d| d.to_string()),
        description: None,
    }
}

fn plugin(id: &str, schema: Vec<SchemaField>) -> PluginEntry {
    PluginEntry {
        plugin: Plugin {
            id: id.to_string(),
            name: id.to_string(),
            description: String::new(),
            kinds: vec![],
            first_party: None,
            version: None,
            author: None,
            bar_widget: if schema.is_empty() {
                None
            } else {
                Some(BarWidget {
                    display_name: None,
                    description: None,
                    category: None,
                    defaults: None,
                    schema,
                })
            },
        },
        enabled: true,
    }
}

fn sample() -> App {
    App::new(
        vec![
            plugin("clock", vec![]),
            plugin(
                "mail",
                vec![field("interval", "integer", Some("60")), field("folder", "string", Some("\"inbox\""))],
            ),
        ],
        LocalSettings::default(),
    )
}

fn source(id: &str) -> Source {
    Source {
        repo: format!("https://example.org/{}.git", id),
        catalog: CatalogEntry {
            id: id.to_string(),
            name: format!("{} plugin", id),
            description: String::new(),
            author: None,
            version: None,
            category: None,
            tags: vec![],
            kind: None,
        },
    }
}

#[test]
fn normal_quit_and_navigation() {
    let mut app = sample();
    assert!(matches!(app.handle_key(Key::Char('j')), Command::Nothing));
    assert_eq!(app.selected, 1);
    app.handle_key(Key::Down);
    assert_eq!(app.selected, 0);
    app.handle_key(Key::Up);
    assert_eq!(app.selected, 1);
    app.handle_key(Key::Char('q'));
    assert!(app.should_quit);
}

#[test]
fn normal_actions_ask_for_commands() {
    let mut app = sample();
    match app.handle_key(Key::Char('d')) {
        Command::Disable(id) => assert_eq!(id, "clock"),
        _ => panic!("expected disable"),
    }
    match app.handle_key(Key::Char('u')) {
        Command::Update(Some(id)) => assert_eq!(id, "clock"),
        _ => panic!("expected update"),
    }
    assert!(matches!(app.handle_key(Key::Char('U')), Command::Update(None)));
    assert!(app.mode == Mode::Normal);
}

#[test]
fn normal_mode_changes() {
    let mut app = sample();
    app.input_buffer = "left over".to_string();
    app.handle_key(Key::Char('a'));
    assert!(app.mode == Mode::AddUrl);
    assert_eq!(app.input_buffer, "");
    app.mode = Mode::Normal;
    app.handle_key(Key::Char('e'));
    assert!(app.mode == Mode::Placement);
    assert_eq!(app.placement_selected, 1);
    app.mode = Mode::Normal;
    app.handle_key(Key::Char('x'));
    assert!(app.mode == Mode::ConfirmRemove);
    app.mode = Mode::Normal;
    app.handle_key(Key::Char('/'));
    assert!(app.mode == Mode::Filter);
}

#[test]
fn settings_open_only_with_a_schema() {
    let mut app = sample();
    app.handle_key(Key::Char('s'));
    assert!(app.mode == Mode::Normal);
    app.handle_key(Key::Char('j'));
    app.settings_selected = 7;
    app.settings_editing = true;
    app.handle_key(Key::Char('s'));
    assert!(app.mode == Mode::Settings);
    assert_eq!(app.settings_selected, 0);
    assert!(!app.settings_editing);
}

#[test]
fn discovery_key_asks_to_load_the_registry() {
    let mut app = sample();
    assert!(matches!(
        app.handle_key(Key::Char('D')),
        Command::LoadDiscovery { force_refresh: false }
    ));
    assert!(app.mode == Mode::Discovery);
    assert_eq!(app.status.as_deref(), Some("loading registry..."));
}

#[test]
fn filter_typing_filters_and_escape_clears() {
    let mut app = sample();
    app.mode = Mode::Filter;
    app.handle_key(Key::Char('M'));
    app.handle_key(Key::Char('a'));
    assert_eq!(app.filter_text, "Ma");
    assert_eq!(app.filtered, vec![1]);
    app.handle_key(Key::Backspace);
    assert_eq!(app.filter_text, "M");
    app.handle_key(Key::Enter);
    assert!(app.mode == Mode::Normal);
    assert_eq!(app.filter_text, "M");
    app.mode = Mode::Filter;
    app.handle_key(Key::Esc);
    assert!(app.mode == Mode::Normal);
    assert_eq!(app.filter_text, "");
    assert_eq!(app.filtered, vec![0, 1]);
}

#[test]
fn add_url_trims_and_skips_empty_input() {
    let mut app = sample();
    app.mode = Mode::AddUrl;
    for c in "  https://x/y.git ".chars() {
        app.handle_key(Key::Char(c));
    }
    match app.handle_key(Key::Enter) {
        Command::Add(url) => assert_eq!(url, "https://x/y.git"),
        _ => panic!("expected add"),
    }
    assert!(app.mode == Mode::Normal);
    assert_eq!(app.input_buffer, "");
    app.mode = Mode::AddUrl;
    app.handle_key(Key::Char(' '));
    assert!(matches!(app.handle_key(Key::Enter), Command::Nothing));
    app.mode = Mode::AddUrl;
    app.handle_key(Key::Char('z'));
    app.handle_key(Key::Backspace);
    assert_eq!(app.input_buffer, "");
    app.handle_key(Key::Esc);
    assert!(app.mode == Mode::Normal);
}

#[test]
fn confirm_remove() {
    let mut app = sample();
    app.mode = Mode::ConfirmRemove;
    app.handle_key(Key::Char('q'));
    assert!(app.mode == Mode::ConfirmRemove);
    match app.handle_key(Key::Char('Y')) {
        Command::Remove(id) => assert_eq!(id, "clock"),
        _ => panic!("expected remove"),
    }
    assert!(app.mode == Mode::Normal);
    app.mode = Mode::ConfirmRemove;
    assert!(matches!(app.handle_key(Key::Char('n')), Command::Nothing));
    assert!(app.mode == Mode::Normal);
}

#[test]
fn settings_edit_and_stage() {
    let mut app = sample();
    app.selected = 1;
    app.mode = Mode::Settings;
    app.handle_key(Key::Enter);
    assert!(app.settings_editing);
    assert_eq!(app.settings_edit_buffer, "60");
    app.handle_key(Key::Backspace);
    app.handle_key(Key::Backspace);
    for c in " 90 ".chars() {
        app.handle_key(Key::Char(c));
    }
    match app.handle_key(Key::Enter) {
        Command::StageSetting { plugin_id, key, value, bounds } => {
            assert_eq!(plugin_id, "mail");
            assert_eq!(key, "interval");
            assert_eq!(value, "90");
            let b = bounds.expect("integer field has bounds");
            assert_eq!(b.min_bits, Some(5.0f64.to_bits()));
            assert_eq!(b.max_bits, Some(300.0f64.to_bits()));
            app.stage_setting(&plugin_id, &key, value);
        },
        _ => panic!("expected a staged setting"),
    }
    assert!(!app.settings_editing);
    assert_eq!(app.settings_edit_buffer, "");
    assert_eq!(app.status.as_deref(), Some("staged interval=90 for mail"));
    assert_eq!(app.local_settings.get("mail", "interval"), Some(&"90".to_string()));
    app.handle_key(Key::Enter);
    assert_eq!(app.settings_edit_buffer, "90");
    app.handle_key(Key::Esc);
    assert!(!app.settings_editing);
    assert!(app.mode == Mode::Settings);
}

#[test]
fn settings_navigation_and_string_fields() {
    let mut app = sample();
    app.selected = 1;
    app.mode = Mode::Settings;
    app.handle_key(Key::Up);
    assert_eq!(app.settings_selected, 1);
    app.handle_key(Key::Enter);
    assert_eq!(app.settings_edit_buffer, "inbox");
    match app.handle_key(Key::Enter) {
        Command::StageSetting { bounds, value, .. } => {
            assert!(bounds.is_none());
            assert_eq!(value, "inbox");
        },
        _ => panic!("expected a staged setting"),
    }
    app.handle_key(Key::Char('j'));
    assert_eq!(app.settings_selected, 0);
    app.handle_key(Key::Esc);
    assert!(app.mode == Mode::Normal);
}

#[test]
fn settings_without_selection_returns_to_main() {
    let mut app = App::new(vec![], LocalSettings::default());
    app.mode = Mode::Settings;
    assert!(matches!(app.handle_key(Key::Enter), Command::Nothing));
    assert!(app.mode == Mode::Normal);
}

#[test]
fn current_setting_prefers_staged_value() {
    let mut local = LocalSettings::default();
    let f = field("folder", "string", Some("\"inbox\""));
    assert_eq!(current_setting(&local, "mail", &f), Some("inbox".to_string()));
    local.set("mail", "folder", "archive".to_string());
    assert_eq!(current_setting(&local, "mail", &f), Some("archive".to_string()));
    let g = field("other", "string", None);
    assert_eq!(current_setting(&local, "mail", &g), None);
}

#[test]
fn placement_choice_and_enable() {
    let mut app = sample();
    app.mode = Mode::Placement;
    app.placement_selected = 1;
    app.handle_key(Key::Char('l'));
    assert_eq!(app.placement_selected, 2);
    app.handle_key(Key::Right);
    assert_eq!(app.placement_selected, 0);
    app.handle_key(Key::Left);
    assert_eq!(app.placement_selected, 2);
    match app.handle_key(Key::Enter) {
        Command::Enable { id, placement } => {
            assert_eq!(id, "clock");
            assert_eq!(placement, "right");
        },
        _ => panic!("expected enable"),
    }
    assert!(app.mode == Mode::Normal);
}

#[test]
fn discovery_screen() {
    let mut app = sample();
    app.mode = Mode::Discovery;
    app.load_discovery(vec![source("battery"), source("vpn")]);
    app.handle_key(Key::Char('j'));
    assert_eq!(app.discovery_selected, 1);
    match app.handle_key(Key::Enter) {
        Command::Install { repo, name, id } => {
            assert_eq!(repo, "https://example.org/vpn.git");
            assert_eq!(name, "vpn plugin");
            assert_eq!(id, "vpn");
        },
        _ => panic!("expected install"),
    }
    assert!(matches!(
        app.handle_key(Key::Char('r')),
        Command::LoadDiscovery { force_refresh: true }
    ));
    assert_eq!(app.status.as_deref(), Some("refreshing registry..."));
    app.announce_discovery();
    assert_eq!(app.status.as_deref(), Some("2 plugins available"));
    app.handle_key(Key::Char('q'));
    assert!(app.mode == Mode::Normal);
}

#[test]
fn report_texts() {
    let mut app = sample();
    app.report(&Command::Disable("clock".to_string()), Ok(()));
    assert_eq!(app.status.as_deref(), Some("disabled clock"));
    app.report(&Command::Update(None), Ok(()));
    assert_eq!(app.status.as_deref(), Some("updated all plugins"));
    app.report(&Command::Update(Some("clock".to_string())), Ok(()));
    assert_eq!(app.status.as_deref(), Some("updated clock"));
    app.report(&Command::Add("https://x".to_string()), Ok(()));
    assert_eq!(app.status.as_deref(), Some("added https://x"));
    app.report(&Command::Remove("clock".to_string()), Ok(()));
    assert_eq!(app.status.as_deref(), Some("removed clock"));
    app.report(
        &Command::Enable { id: "clock".to_string(), placement: "left".to_string() },
        Ok(()),
    );
    assert_eq!(app.status.as_deref(), Some("enabled clock at left"));
    app.report(
        &Command::Install {
            repo: "r".to_string(),
            name: "Battery".to_string(),
            id: "battery".to_string(),
        },
        Ok(()),
    );
    assert_eq!(app.status.as_deref(), Some("added Battery"));
    app.report(&Command::Remove("clock".to_string()), Err("boom".to_string()));
    assert_eq!(app.status.as_deref(), Some("error: boom"));
    app.report(&Command::Nothing, Err("ignored".to_string()));
    assert_eq!(app.status.as_deref(), Some("error: boom"));
}

fn filed(id: &str, category: Option<&str>, description: &str, repo: &str) -> Source {
    let mut s = source(id);
    s.catalog.category = category.map(|c| c.to_string());
    s.catalog.description = description.to_string();
    s.repo = repo.to_string();
    s
}

fn shown_ids(app: &App) -> Vec<String> {
    app.discovery_visible.iter().map(|&i| app.discovery_sources[i].catalog.id.clone()).collect()
}

#[test]
fn discovery_category_tabs() {
    let mut app = sample();
    app.mode = Mode::Discovery;
    app.load_discovery(vec![
        filed("battery", Some("system"), "Battery level", "https://example.org/battery.git"),
        filed("weather", Some("info"), "Forecast", "https://example.org/weather.git"),
        filed("vpn", Some("system"), "VPN state", "https://example.org/vpn.git"),
        filed("misc", None, "Other", "https://example.org/misc.git"),
    ]);
    assert_eq!(app.discovery_categories, vec!["system".to_string(), "info".to_string()]);
    assert_eq!(shown_ids(&app), vec!["battery", "weather", "vpn", "misc"]);
    app.handle_key(Key::Char('j'));
    assert_eq!(app.discovery_selected, 1);
    assert!(matches!(app.handle_key(Key::Char('l')), Command::Nothing));
    assert_eq!(app.discovery_tab, 1);
    assert_eq!(app.discovery_selected, 0);
    assert_eq!(shown_ids(&app), vec!["battery", "vpn"]);
    app.handle_key(Key::Right);
    assert_eq!(shown_ids(&app), vec!["weather"]);
    app.handle_key(Key::Right);
    assert_eq!(app.discovery_tab, 0);
    assert_eq!(shown_ids(&app), vec!["battery", "weather", "vpn", "misc"]);
    app.handle_key(Key::Char('h'));
    assert_eq!(app.discovery_tab, 2);
    assert_eq!(shown_ids(&app), vec!["weather"]);
    app.handle_key(Key::Left);
    app.handle_key(Key::Char('k'));
    assert_eq!(app.discovery_selected, 1);
    match app.handle_key(Key::Enter) {
        Command::Install { id, .. } => assert_eq!(id, "vpn"),
        _ => panic!("expected install"),
    }
}

#[test]
fn discovery_fetches_a_missing_description_once() {
    let mut app = sample();
    app.mode = Mode::Discovery;
    app.load_discovery(vec![
        filed("battery", None, "Battery level", "https://github.com/someone/battery"),
        filed("suite-clock", None, "", "https://github.com/someone/suite.git"),
        filed("local", None, "", "https://example.org/local.git"),
    ]);
    assert!(matches!(app.describe_selected(), Command::Nothing));
    match app.handle_key(Key::Char('j')) {
        Command::FetchDescription { repo, url } => {
            assert_eq!(repo, "https://github.com/someone/suite.git");
            assert_eq!(url, "https://api.github.com/repos/someone/suite");
        },
        _ => panic!("expected a description fetch"),
    }
    let s = app.discovery_sources[1].catalog.id.clone();
    assert_eq!(s, "suite-clock");
    assert_eq!(app.description_of(&app.discovery_sources[1]), None);
    app.store_description("https://github.com/someone/suite.git", Some("A clock suite".to_string()));
    assert_eq!(
        app.description_of(&app.discovery_sources[1]).as_deref(),
        Some("A clock suite")
    );
    assert_eq!(app.description_of(&app.discovery_sources[0]).as_deref(), Some("Battery level"));
    // Not on GitHub: nothing to fetch.
    assert!(matches!(app.handle_key(Key::Char('j')), Command::Nothing));
    // Back on the suite entry: already fetched this session.
    assert!(matches!(app.handle_key(Key::Char('k')), Command::Nothing));
    // A failed fetch is remembered too.
    app.store_description("https://github.com/x/y", None);
    assert_eq!(app.descriptions.get("https://github.com/x/y").map(|d| d.as_str()), Some(""));
}

#[test]
fn install_from_discovery_walks_into_placement() {
    let mut app = sample();
    app.mode = Mode::Discovery;
    app.filter_text = "zzz".to_string();
    app.apply_filter();
    assert!(app.filtered.is_empty());
    app.load_discovery(vec![source("vpn")]);
    let cmd = app.handle_key(Key::Enter);
    assert!(matches!(cmd, Command::Install { .. }));
    app.report(&cmd, Ok(()));
    assert_eq!(app.status.as_deref(), Some("added vpn plugin"));
    let mut plugins = vec![plugin("clock", vec![]), plugin("vpn", vec![])];
    plugins.push(plugin("mail", vec![]));
    app.refresh(plugins);
    assert!(!app.finish_install("vpn", true));
    assert!(app.mode == Mode::Placement);
    assert_eq!(app.placement_selected, 1);
    assert_eq!(app.filter_text, "");
    assert_eq!(app.filtered, vec![0, 1, 2]);
    assert_eq!(app.selected, 1);
    assert_eq!(app.selected_id().as_deref(), Some("vpn"));
}

#[test]
fn failed_or_unknown_install_stays_on_discovery() {
    let mut app = sample();
    app.mode = Mode::Discovery;
    assert!(app.finish_install("vpn", false));
    assert!(app.mode == Mode::Discovery);
    assert!(app.finish_install("vpn", true));
    assert!(app.mode == Mode::Discovery);
    assert!(app.finish_install("clock", false));
    assert!(app.mode == Mode::Discovery);
}

#[test]
fn profile_screen_export_and_import() {
    let mut app = sample();
    app.profile_path = "/home/me/setup.json".to_string();
    assert!(matches!(app.handle_key(Key::Char('P')), Command::Nothing));
    assert!(app.mode == Mode::Profile);
    app.handle_key(Key::Char('e'));
    assert!(app.mode == Mode::ExportPath);
    assert_eq!(app.input_buffer, "/home/me/setup.json");
    match app.handle_key(Key::Enter) {
        Command::ExportProfile(path) => assert_eq!(path, "/home/me/setup.json"),
        _ => panic!("expected export"),
    }
    assert!(app.mode == Mode::Normal);
    assert_eq!(app.input_buffer, "");

    app.handle_key(Key::Char('P'));
    app.handle_key(Key::Char('i'));
    assert!(app.mode == Mode::ImportPath);
    for _ in 0..10 {
        app.handle_key(Key::Backspace);
    }
    for c in "old.json ".chars() {
        app.handle_key(Key::Char(c));
    }
    assert_eq!(app.input_buffer, "/home/me/old.json ");
    match app.handle_key(Key::Enter) {
        Command::ImportProfile(path) => assert_eq!(path, "/home/me/old.json"),
        _ => panic!("expected import"),
    }
    assert_eq!(app.profile_path, "/home/me/old.json");
    assert!(app.mode == Mode::Normal);

    app.handle_key(Key::Char('P'));
    app.handle_key(Key::Char('e'));
    assert!(matches!(app.handle_key(Key::Esc), Command::Nothing));
    assert!(app.mode == Mode::Profile);
    assert_eq!(app.input_buffer, "");
    app.handle_key(Key::Char('i'));
    for _ in 0..40 {
        app.handle_key(Key::Backspace);
    }
    app.handle_key(Key::Char(' '));
    assert!(matches!(app.handle_key(Key::Enter), Command::Nothing));
    assert!(app.mode == Mode::Normal);
    assert_eq!(app.profile_path, "/home/me/old.json");
    app.handle_key(Key::Char('P'));
    app.handle_key(Key::Char('q'));
    assert!(app.mode == Mode::Normal);
}

#[test]
fn profile_reports() {
    let mut app = sample();
    app.report_export("/tmp/p.json", Ok(2));
    assert_eq!(app.status.as_deref(), Some("2 plugins exported to /tmp/p.json"));
    app.report_export("/tmp/p.json", Err("disk full".to_string()));
    assert_eq!(app.status.as_deref(), Some("error: disk full"));
    let summary = ImportSummary {
        installed: 1,
        enabled: 3,
        disabled: 1,
        settings_applied: 4,
        errors: vec!["ghost: not present and no repo to install from".to_string()],
    };
    app.report_import(Ok(&summary));
    assert_eq!(
        app.status.as_deref(),
        Some("profile imported: 1 installed, 3 enabled, 1 disabled, 4 settings, 1 errors")
    );
    app.report_import(Err("failed to read x".to_string()));
    assert_eq!(app.status.as_deref(), Some("error: failed to read x"));
}
