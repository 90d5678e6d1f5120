use cyberplug::settings::{FieldValues, LocalSettings, SettingsTable};

#[test]
fn get_after_set_reads_back_the_value() {
    let mut s = LocalSettings::default();
    assert_eq!(s.get("weather", "interval"), None);
    s.set("weather", "interval", "30".to_string());
    assert_eq!(s.get("weather", "interval"), Some(&"30".to_string()));
}

#[test]
fn set_replaces_and_leaves_other_pairs() {
    let mut s = LocalSettings::default();
    s.set("weather", "interval", "30".to_string());
    s.set("weather", "unit", "c".to_string());
    s.set("mail", "interval", "5".to_string());
    s.set("weather", "interval", "60".to_string());
    assert_eq!(s.get("weather", "interval"), Some(&"60".to_string()));
    assert_eq!(s.get("weather", "unit"), Some(&"c".to_string()));
    assert_eq!(s.get("mail", "interval"), Some(&"5".to_string()));
    assert_eq!(s.get("mail", "unit"), None);
    assert_eq!(s.values.len(), 2);
    assert_eq!(s.values.row("weather").unwrap().len(), 2);
}

#[test]
fn field_values_insert_get_entry() {
    let mut f = FieldValues::new();
    f.insert("a".to_string(), "1".to_string());
    f.insert("b".to_string(), "2".to_string());
    f.insert("a".to_string(), "3".to_string());
    assert_eq!(f.len(), 2);
    assert_eq!(f.get("a"), Some(&"3".to_string()));
    let (k, v) = f.entry(1);
    assert_eq!((k.as_str(), v.as_str()), ("b", "2"));
    let c = f.copy();
    assert_eq!(c.get("b"), Some(&"2".to_string()));
}

#[test]
fn merge_overrides_and_counts_pairs() {
    let mut base = SettingsTable::new();
    base.store("weather", "interval", "30".to_string());
    base.store("weather", "unit", "c".to_string());
    let mut incoming = SettingsTable::new();
    incoming.store("weather", "interval", "60".to_string());
    incoming.store("mail", "folder", "inbox".to_string());
    incoming.store("mail", "interval", "5".to_string());
    let n = base.merge(&incoming);
    assert_eq!(n, 3);
    assert_eq!(base.lookup("weather", "interval"), Some(&"60".to_string()));
    assert_eq!(base.lookup("weather", "unit"), Some(&"c".to_string()));
    assert_eq!(base.lookup("mail", "folder"), Some(&"inbox".to_string()));
    assert_eq!(base.lookup("mail", "interval"), Some(&"5".to_string()));
}

#[test]
fn merge_into_empty_restores_every_pair() {
    let mut exported = SettingsTable::new();
    exported.store("a", "k1", "v1".to_string());
    exported.store("b", "k2", "v2".to_string());
    let copy = exported.copy();
    let mut fresh = SettingsTable::new();
    assert!(fresh.is_empty());
    assert_eq!(fresh.merge(&copy), 2);
    assert!(!fresh.is_empty());
    assert_eq!(fresh.lookup("a", "k1"), Some(&"v1".to_string()));
    assert_eq!(fresh.lookup("b", "k2"), Some(&"v2".to_string()));
    assert_eq!(fresh.lookup("a", "k2"), None);
}

#[test]
fn table_entries_are_listed() {
    let mut t = SettingsTable::new();
    t.store("x", "k", "v".to_string());
    let (id, row) = t.entry(0);
    assert_eq!(id, "x");
    assert_eq!(row.get("k"), Some(&"v".to_string()));
}

#[test]
fn empty_rows_count_as_settings_but_merge_nothing() {
    let mut incoming = SettingsTable::new();
    incoming.ensure_row("clock");
    incoming.ensure_row("clock");
    assert!(!incoming.is_empty());
    assert_eq!(incoming.len(), 1);
    assert_eq!(incoming.lookup("clock", "any"), None);
    let mut base = SettingsTable::new();
    assert_eq!(base.merge(&incoming), 0);
    assert!(base.is_empty());
    incoming.store("clock", "format", "24h".to_string());
    incoming.ensure_row("clock");
    assert_eq!(incoming.lookup("clock", "format"), Some(&"24h".to_string()));
}
