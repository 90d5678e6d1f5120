use cyberplug::app::{load_plugins, placement, App, Mode, PluginEntry, PLACEMENT_COUNT};
use cyberplug::discovery::{CatalogEntry, Source};
use cyberplug::models::{BarWidget, Plugin, SchemaField};
use cyberplug::settings::LocalSettings;

fn plugin(id: &str, name: &str, description: &str) -> Plugin {
    Plugin {
        id: id.to_string(),
        name: name.to_string(),
        description: description.to_string(),
        kinds: vec![],
        first_party: None,
        version: None,
        author: None,
        bar_widget: None,
    }
}

fn entry(id: &str, name: &str, description: &str) -> PluginEntry {
    PluginEntry { plugin: plugin(id, name, description), enabled: true }
}

fn source(id: &str) -> Source {
    Source {
        repo: format!("https://example.org/{}.git", id),
        catalog: CatalogEntry {
            id: id.to_string(),
            name: id.to_string(),
            description: String::new(),
            author: None,
            version: None,
            category: None,
            tags: vec![],
            kind: None,
        },
    }
}

fn sample() -> App {
    App::new(
        vec![
            entry("weather", "Weather", "Shows the forecast"),
            entry("clock", "Clock", "A big CLOCK"),
            entry("mail", "Proton Mail", "Unread count"),
        ],
        LocalSettings::default(),
    )
}

#[test]
fn new_shows_every_plugin() {
    let app = sample();
    assert_eq!(app.filtered, vec![0, 1, 2]);
    assert_eq!(app.selected, 0);
    assert!(app.mode == Mode::Normal);
    assert!(!app.should_quit);
    assert!(app.status.is_none());
    assert!(app.discovery_sources.is_empty());
}

#[test]
fn filter_is_case_insensitive_over_name_id_and_description() {
    let mut app = sample();
    app.filter_text = "clock".to_string();
    app.apply_filter();
    assert_eq!(app.filtered, vec![1]);
    app.filter_text = "PROTON".to_string();
    app.apply_filter();
    assert_eq!(app.filtered, vec![2]);
    app.filter_text = "forecast".to_string();
    app.apply_filter();
    assert_eq!(app.filtered, vec![0]);
    app.filter_text = "o".to_string();
    app.apply_filter();
    assert_eq!(app.filtered, vec![0, 1, 2]);
    app.filter_text = "zzz".to_string();
    app.apply_filter();
    assert!(app.filtered.is_empty());
}

#[test]
fn filter_keeps_selection_inside_the_list() {
    let mut app = sample();
    app.selected = 2;
    app.filter_text = "clock".to_string();
    app.apply_filter();
    assert_eq!(app.selected, 0);
    app.filter_text = "nothing matches".to_string();
    app.apply_filter();
    assert_eq!(app.selected, 0);
    app.filter_text = String::new();
    app.selected = 1;
    app.apply_filter();
    assert_eq!(app.selected, 1);
}

#[test]
fn next_and_previous_wrap_and_undo_each_other() {
    let mut app = sample();
    app.previous();
    assert_eq!(app.selected, 2);
    app.next();
    assert_eq!(app.selected, 0);
    app.next();
    app.next();
    assert_eq!(app.selected, 2);
    app.previous();
    assert_eq!(app.selected, 1);
    app.next();
    assert_eq!(app.selected, 2);
}

#[test]
fn moving_in_an_empty_list_does_nothing() {
    let mut app = App::new(vec![], LocalSettings::default());
    app.next();
    app.previous();
    assert_eq!(app.selected, 0);
    assert!(app.selected_entry().is_none());
    assert_eq!(app.selected_id(), None);
}

#[test]
fn selected_entry_follows_the_filter() {
    let mut app = sample();
    assert_eq!(app.selected_id(), Some("weather".to_string()));
    app.filter_text = "mail".to_string();
    app.apply_filter();
    assert_eq!(app.selected_id(), Some("mail".to_string()));
    assert_eq!(app.selected_entry().unwrap().plugin.name, "Proton Mail");
}

#[test]
fn load_plugins_marks_disabled_ones() {
    let entries = load_plugins(
        vec![plugin("a", "A", ""), plugin("b", "B", ""), plugin("c", "C", "")],
        vec!["b".to_string()],
    );
    let state: Vec<(&str, bool)> =
        entries.iter().map(|e| (e.plugin.id.as_str(), e.enabled)).collect();
    assert_eq!(state, vec![("a", true), ("b", false), ("c", true)]);
}

#[test]
fn refresh_refilters_the_new_list() {
    let mut app = sample();
    app.filter_text = "weather".to_string();
    app.apply_filter();
    app.refresh(vec![entry("clock", "Clock", ""), entry("weather", "Weather", "")]);
    assert_eq!(app.filtered, vec![1]);
    assert_eq!(app.plugins.len(), 2);
}

#[test]
fn discovery_hides_installed_plugins() {
    let mut app = sample();
    app.discovery_selected = 2;
    app.load_discovery(vec![source("clock"), source("battery"), source("mail"), source("vpn")]);
    let ids: Vec<&str> =
        app.discovery_sources.iter().map(|s| s.catalog.id.as_str()).collect();
    assert_eq!(ids, vec!["battery", "vpn"]);
    assert_eq!(app.discovery_selected, 0);
    app.discovery_previous();
    assert_eq!(app.discovery_selected, 1);
    app.discovery_next();
    assert_eq!(app.discovery_selected, 0);
}

#[test]
fn placements() {
    assert_eq!(PLACEMENT_COUNT, 3);
    assert_eq!(placement(0), "left");
    assert_eq!(placement(1), "center");
    assert_eq!(placement(2), "right");
}

#[test]
fn schema_comes_from_the_bar_widget() {
    let mut p = plugin("mail", "Mail", "");
    assert!(p.schema().is_empty());
    p.bar_widget = Some(BarWidget {
        display_name: None,
        description: None,
        category: Some("Info".to_string()),
        defaults: None,
        schema: vec![SchemaField {
            key: "interval".to_string(),
            field_type: "integer".to_string(),
            label: "Interval".to_string(),
            min_bits: None,
            max_bits: None,
            step_bits: None,
            default_value: None,
            description: None,
        }],
    });
    assert_eq!(p.schema().len(), 1);
    assert_eq!(p.schema()[0].key, "interval");
}

#[test]
fn typing_more_never_adds_a_plugin() {
    let mut app = sample();
    let mut previous: Vec<usize> = app.filtered.clone();
    for c in "mail".chars() {
        app.filter_text.push(c);
        app.apply_filter();
        assert!(app.filtered.iter().all(|i| previous.contains(i)));
        previous = app.filtered.clone();
    }
    assert_eq!(app.filtered, vec![2]);
    app.filter_text = "C".to_string();
    app.apply_filter();
    assert_eq!(app.filtered, vec![0, 1, 2]);
    app.filter_text = "CL".to_string();
    app.apply_filter();
    assert_eq!(app.filtered, vec![1]);
}
