//! Presentation choices that do not depend on a terminal library.
use vstd::prelude::*;
use crate::models::SchemaField;
use crate::text::same_text;

verus! {

/// The color a plugin category is shown in.
#[derive(PartialEq, Eq, Structural, Clone, Copy, Debug)]
pub enum Tint {
    Yellow,
    Blue,
    Red,
    Cyan,
    Magenta,
    White,
}

/// The color of a category: Utilities yellow, Status blue, System red,
/// Info cyan, Desktop magenta, anything else white.
pub open spec fn tint_of(category: Seq<char>) -> Tint {
    if category == "Utilities"@ {
        Tint::Yellow
    } else if category == "Status"@ {
        Tint::Blue
    } else if category == "System"@ {
        Tint::Red
    } else if category == "Info"@ {
        Tint::Cyan
    } else if category == "Desktop"@ {
        Tint::Magenta
    } else {
        Tint::White
    }
}

/// The color of a category.
pub fn category_tint(category: &str) -> (t: Tint)
    ensures
        t == tint_of(category@),
{
    if same_text(category, "Utilities") {
        Tint::Yellow
    } else if same_text(category, "Status") {
        Tint::Blue
    } else if same_text(category, "System") {
        Tint::Red
    } else if same_text(category, "Info") {
        Tint::Cyan
    } else if same_text(category, "Desktop") {
        Tint::Magenta
    } else {
        Tint::White
    }
}

/// The badge of a plugin: core for first-party plugins, community otherwise.
pub open spec fn badge_text(first_party: Option<bool>) -> Seq<char> {
    if first_party == Some(true) {
        "core"@
    } else {
        "community"@
    }
}

/// The badge of a plugin.
pub fn badge(first_party: Option<bool>) -> (b: &'static str)
    ensures
        b@ == badge_text(first_party),
{
    match first_party {
        Some(true) => "core",
        _ => "community",
    }
}

/// The help text for a settings field: its description, else its type.
pub open spec fn field_info_text(field: SchemaField) -> Seq<char> {
    match field.description {
        Some(d) => d@,
        None => "type: "@ + field.field_type@,
    }
}

/// The help text for a settings field.
pub fn field_info(field: &SchemaField) -> (t: String)
    ensures
        t@ == field_info_text(*field),
{
    match &field.description {
        Some(d) => d.clone(),
        None => "type: ".to_owned().concat(field.field_type.as_str()),
    }
}

} // verus!
