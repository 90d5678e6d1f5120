use cyberplug::models::SchemaField;
use cyberplug::style::{badge, category_tint, field_info, Tint};

#[test]
fn category_tints() {
    assert_eq!(category_tint("Utilities"), Tint::Yellow);
    assert_eq!(category_tint("Status"), Tint::Blue);
    assert_eq!(category_tint("System"), Tint::Red);
    assert_eq!(category_tint("Info"), Tint::Cyan);
    assert_eq!(category_tint("Desktop"), Tint::Magenta);
    assert_eq!(category_tint("utilities"), Tint::White);
    assert_eq!(category_tint(""), Tint::White);
}

#[test]
fn badges() {
    assert_eq!(badge(Some(true)), "core");
    assert_eq!(badge(Some(false)), "community");
    assert_eq!(badge(None), "community");
}

#[test]
fn field_info_prefers_description() {
    let mut f = SchemaField {
        key: "interval".to_string(),
        field_type: "integer".to_string(),
        label: "Interval".to_string(),
        min_bits: None,
        max_bits: None,
        step_bits: None,
        default_value: None,
        description: Some("Seconds between refreshes".to_string()),
    };
    assert_eq!(field_info(&f), "Seconds between refreshes");
    f.description = None;
    assert_eq!(field_info(&f), "type: integer");
}
