//! Key handling: for each screen, what a key press changes in the state and
//! which outside action it asks for. Performing the action (running the
//! `omarchy` CLI, loading the registry, saving settings) is the caller's
//! part; `report`, `stage_setting`, `announce_discovery`, `finish_install`,
//! `store_description`, `report_export` and `report_import` take its result.
use vstd::prelude::*;
use crate::app::{
    App, Mode, PLACEMENT_COUNT, installed_ids, next_tab_shown, placed_after_install, placement,
    placement_text, previous_tab_shown, wrap_down, wrap_up,
};
use crate::discovery::{description_address, description_url, display_name, shown_name};
use crate::models::SchemaField;
use crate::profile::ImportSummary;
use crate::settings::{LocalSettings, lookup, stored};
use crate::text::{
    decimal, decimal_text, pop_char, push_char, same_text, trim, trim_quotes, trimmed, unquoted,
};

verus! {

/// A key press, as far as the screens tell keys apart.
#[derive(PartialEq, Eq, Structural, Clone, Copy, Debug)]
pub enum Key {
    Char(char),
    Esc,
    Enter,
    Backspace,
    Up,
    Down,
    Left,
    Right,
    Other,
}

/// The numeric bounds of an integer setting, as IEEE-754 bit patterns.
#[derive(PartialEq, Eq, Structural, Clone, Copy, Debug)]
pub struct Bounds {
    pub min_bits: Option<u64>,
    pub max_bits: Option<u64>,
    pub step_bits: Option<u64>,
}

/// An outside action that a key press asks for.
pub enum Command {
    /// Nothing to do.
    Nothing,
    /// Disable the plugin, then report and reload the plugin list.
    Disable(String),
    /// Update the plugin, or every plugin, then report and reload.
    Update(Option<String>),
    /// Install from the git URL, then report and reload.
    Add(String),
    /// Remove the plugin, then report and reload.
    Remove(String),
    /// Enable the plugin at the placement, then report and reload.
    Enable { id: String, placement: String },
    /// Fetch the registry (bypassing the cache when forced), call
    /// `load_discovery` with it, then `announce_discovery`, then perform
    /// what `describe_selected` asks for.
    LoadDiscovery { force_refresh: bool },
    /// Install the registry entry's repository, then report, reload the
    /// plugin list, and call `finish_install` with the plugin's id; when it
    /// answers `true`, fetch the registry again for `load_discovery` and
    /// perform what `describe_selected` asks for.
    Install { repo: String, name: String, id: String },
    /// Fetch the description of the repository from the API address, then
    /// call `store_description`.
    FetchDescription { repo: String, url: String },
    /// Write the current setup to the profile file, then `report_export`.
    ExportProfile(String),
    /// Replay the profile file, then `report_import`, and reload the plugin list.
    ImportProfile(String),
    /// Stage a setting: an integer field's value is clamped and snapped to
    /// its bounds first when it reads as a number; then `stage_setting`.
    StageSetting { plugin_id: String, key: String, value: String, bounds: Option<Bounds> },
}

/// A command, as texts.
pub enum Effect {
    Nothing,
    Disable(Seq<char>),
    Update(Option<Seq<char>>),
    Add(Seq<char>),
    Remove(Seq<char>),
    Enable(Seq<char>, Seq<char>),
    LoadDiscovery(bool),
    Install(Seq<char>, Seq<char>, Seq<char>),
    FetchDescription(Seq<char>, Seq<char>),
    ExportProfile(Seq<char>),
    ImportProfile(Seq<char>),
    StageSetting(Seq<char>, Seq<char>, Seq<char>, Option<Bounds>),
}

/// The view of a command.
pub open spec fn effect(c: Command) -> Effect {
    match c {
        Command::Nothing => Effect::Nothing,
        Command::Disable(id) => Effect::Disable(id@),
        Command::Update(id) => Effect::Update(
            match id {
                Some(i) => Some(i@),
                None => None,
            },
        ),
        Command::Add(url) => Effect::Add(url@),
        Command::Remove(id) => Effect::Remove(id@),
        Command::Enable { id, placement } => Effect::Enable(id@, placement@),
        Command::LoadDiscovery { force_refresh } => Effect::LoadDiscovery(force_refresh),
        Command::Install { repo, name, id } => Effect::Install(repo@, name@, id@),
        Command::FetchDescription { repo, url } => Effect::FetchDescription(repo@, url@),
        Command::ExportProfile(path) => Effect::ExportProfile(path@),
        Command::ImportProfile(path) => Effect::ImportProfile(path@),
        Command::StageSetting { plugin_id, key, value, bounds } => Effect::StageSetting(
            plugin_id@,
            key@,
            value@,
            bounds,
        ),
    }
}

/// The status line after an action succeeded; `None` for commands that
/// report nothing this way.
pub open spec fn done_text(e: Effect) -> Option<Seq<char>> {
    match e {
        Effect::Disable(id) => Some("disabled "@ + id),
        Effect::Update(Some(id)) => Some("updated "@ + id),
        Effect::Update(None) => Some("updated all plugins"@),
        Effect::Add(url) => Some("added "@ + url),
        Effect::Remove(id) => Some("removed "@ + id),
        Effect::Enable(id, p) => Some("enabled "@ + id + " at "@ + p),
        Effect::Install(_, name, _) => Some("added "@ + name),
        _ => None,
    }
}

/// The text a setting field shows: the staged value, else the schema's
/// default without surrounding quotes; `None` when there is neither.
pub open spec fn setting_text(
    local: Map<Seq<char>, Map<Seq<char>, Seq<char>>>,
    plugin_id: Seq<char>,
    field: SchemaField,
) -> Option<Seq<char>> {
    match lookup(local, plugin_id, field.key@) {
        Some(v) => Some(v),
        None => match field.default_value {
            Some(d) => Some(unquoted(d@)),
            None => None,
        },
    }
}

/// Once a value is staged for a field, the settings screen shows that value
/// for it, whatever the field's default.
pub proof fn law_staged_value_is_shown(
    local: Map<Seq<char>, Map<Seq<char>, Seq<char>>>,
    plugin_id: Seq<char>,
    field: SchemaField,
    value: Seq<char>,
)
    ensures
        setting_text(stored(local, plugin_id, field.key@, value), plugin_id, field) == Some(value),
{
    crate::settings::law_get_after_set(local, plugin_id, field.key@, value, plugin_id, field.key@);
}

/// The bounds that an integer field's value is held to; `None` for other fields.
pub open spec fn bounds_of(field: SchemaField) -> Option<Bounds> {
    if field.field_type@ == "integer"@ {
        Some(Bounds { min_bits: field.min_bits, max_bits: field.max_bits, step_bits: field.step_bits })
    } else {
        None
    }
}

/// The text a setting field shows: the staged value, else its default.
pub fn current_setting(local: &LocalSettings, plugin_id: &str, field: &SchemaField) -> (r: Option<
    String,
>)
    ensures
        r is Some == setting_text(local.values@, plugin_id@, *field) is Some,
        r matches Some(v) ==> setting_text(local.values@, plugin_id@, *field) == Some(v@),
{
    match local.get(plugin_id, field.key.as_str()) {
        Some(v) => Some(v.clone()),
        None => match &field.default_value {
            Some(d) => Some(trim_quotes(d.as_str())),
            None => None,
        },
    }
}

fn field_bounds(field: &SchemaField) -> (b: Option<Bounds>)
    ensures
        b == bounds_of(*field),
{
    if same_text(field.field_type.as_str(), "integer") {
        Some(Bounds { min_bits: field.min_bits, max_bits: field.max_bits, step_bits: field.step_bits })
    } else {
        None
    }
}

fn text(s: &str) -> (r: String)
    ensures
        r@ == s@,
{
    s.to_owned()
}

/// What a main-screen key does: navigation, mode changes, and the actions
/// on the selected plugin.
pub open spec fn normal_post(pre: App, post: App, key: Key, e: Effect) -> bool {
    match key {
        Key::Char('q') | Key::Esc => post == (App { should_quit: true, ..pre }) && e is Nothing,
        Key::Char('j') | Key::Down => post == (App {
            selected: wrap_down(pre.selected, pre.filtered@.len()),
            ..pre
        }) && e is Nothing,
        Key::Char('k') | Key::Up => post == (App {
            selected: wrap_up(pre.selected, pre.filtered@.len()),
            ..pre
        }) && e is Nothing,
        Key::Char('/') => post == (App { mode: Mode::Filter, ..pre }) && e is Nothing,
        Key::Char('a') => post.input_buffer@.len() == 0 && post == (App {
            mode: Mode::AddUrl,
            input_buffer: post.input_buffer,
            ..pre
        }) && e is Nothing,
        Key::Char('e') => e is Nothing && if pre.has_selection() {
            post == (App { mode: Mode::Placement, placement_selected: 1, ..pre })
        } else {
            post == pre
        },
        Key::Char('d') => post == pre && if pre.has_selection() {
            e == Effect::Disable(pre.selection().plugin.id@)
        } else {
            e is Nothing
        },
        Key::Char('x') => e is Nothing && if pre.has_selection() {
            post == (App { mode: Mode::ConfirmRemove, ..pre })
        } else {
            post == pre
        },
        Key::Char('s') => e is Nothing && if pre.has_selection()
            && pre.selection().plugin.schema_view().len() > 0 {
            post == (App {
                mode: Mode::Settings,
                settings_selected: 0,
                settings_editing: false,
                ..pre
            })
        } else {
            post == pre
        },
        Key::Char('u') => post == pre && if pre.has_selection() {
            e == Effect::Update(Some(pre.selection().plugin.id@))
        } else {
            e is Nothing
        },
        Key::Char('U') => post == pre && e == Effect::Update(None),
        Key::Char('P') => post == (App { mode: Mode::Profile, ..pre }) && e is Nothing,
        Key::Char('D') => post.status matches Some(s) && s@ == "loading registry..."@ && post == (App {
            mode: Mode::Discovery,
            status: post.status,
            ..pre
        }) && e == Effect::LoadDiscovery(false),
        _ => post == pre && e is Nothing,
    }
}

/// `post` is `pre` with the filter text replaced by `text` and the list
/// filtered again by it.
pub open spec fn refiltered(pre: App, post: App, text: Seq<char>) -> bool {
    &&& post.filter_text@ == text
    &&& post.filtered@ == crate::app::matching(crate::text::lowercase(text), pre.plugins@)
    &&& post.selected == crate::app::clamped(pre.selected, post.filtered@.len())
    &&& post == (App {
        filter_text: post.filter_text,
        filtered: post.filtered,
        selected: post.selected,
        mode: post.mode,
        ..pre
    })
}

/// A text after Backspace: its last character removed, if any.
pub open spec fn backspaced(s: Seq<char>) -> Seq<char> {
    if s.len() > 0 {
        s.drop_last()
    } else {
        s
    }
}

/// What a filter-screen key does: typing edits the filter text and filters
/// at once; Esc clears the filter (showing every plugin) and leaves, Enter
/// keeps it and leaves.
pub open spec fn filter_post(pre: App, post: App, key: Key) -> bool {
    match key {
        Key::Esc => refiltered(pre, post, Seq::empty()) && post.mode == Mode::Normal
            && post.filtered@ == crate::app::all_indices(pre.plugins@.len()),
        Key::Enter => post == (App { mode: Mode::Normal, ..pre }),
        Key::Backspace => refiltered(pre, post, backspaced(pre.filter_text@)) && post.mode
            == pre.mode,
        Key::Char(c) => refiltered(pre, post, pre.filter_text@.push(c)) && post.mode == pre.mode,
        _ => post == pre,
    }
}

/// What an add-screen key does: typing edits the URL; Enter asks to install
/// the trimmed URL when it is not empty; Esc and Enter clear the input and
/// return to the main screen.
pub open spec fn add_url_post(pre: App, post: App, key: Key, e: Effect) -> bool {
    match key {
        Key::Esc => post.input_buffer@.len() == 0 && post == (App {
            input_buffer: post.input_buffer,
            mode: Mode::Normal,
            ..pre
        }) && e is Nothing,
        Key::Enter => post.input_buffer@.len() == 0 && post == (App {
            input_buffer: post.input_buffer,
            mode: Mode::Normal,
            ..pre
        }) && if trimmed(pre.input_buffer@).len() > 0 {
            e == Effect::Add(trimmed(pre.input_buffer@))
        } else {
            e is Nothing
        },
        Key::Backspace => post.input_buffer@ == backspaced(pre.input_buffer@) && post == (App {
            input_buffer: post.input_buffer,
            ..pre
        }) && e is Nothing,
        Key::Char(c) => post.input_buffer@ == pre.input_buffer@.push(c) && post == (App {
            input_buffer: post.input_buffer,
            ..pre
        }) && e is Nothing,
        _ => post == pre && e is Nothing,
    }
}

/// What a key does on the remove confirmation: y asks to remove the selected
/// plugin; y, n and Esc return to the main screen.
pub open spec fn confirm_remove_post(pre: App, post: App, key: Key, e: Effect) -> bool {
    match key {
        Key::Char('y') | Key::Char('Y') => post == (App { mode: Mode::Normal, ..pre })
            && if pre.has_selection() {
            e == Effect::Remove(pre.selection().plugin.id@)
        } else {
            e is Nothing
        },
        Key::Char('n') | Key::Char('N') | Key::Esc => post == (App { mode: Mode::Normal, ..pre })
            && e is Nothing,
        _ => post == pre && e is Nothing,
    }
}

/// The schema of the selected plugin.
pub open spec fn selected_schema(app: App) -> Seq<SchemaField> {
    app.selection().plugin.schema_view()
}

/// What a settings-screen key does. Without a selected plugin every key
/// returns to the main screen. While a value is edited, typing edits it,
/// Esc drops it, and Enter asks to stage the trimmed value for the field
/// (with its bounds when it is an integer field); both leave editing.
/// Otherwise j/k move between fields (wrapping), Enter starts editing the
/// field from its staged value, else its default, else nothing, and Esc
/// returns to the main screen.
pub open spec fn settings_post(pre: App, post: App, key: Key, e: Effect) -> bool {
    if !pre.has_selection() {
        post == (App { mode: Mode::Normal, ..pre }) && e is Nothing
    } else if pre.settings_editing {
        match key {
            Key::Esc => post.settings_edit_buffer@.len() == 0 && post == (App {
                settings_editing: false,
                settings_edit_buffer: post.settings_edit_buffer,
                ..pre
            }) && e is Nothing,
            Key::Enter => post.settings_edit_buffer@.len() == 0 && post == (App {
                settings_editing: false,
                settings_edit_buffer: post.settings_edit_buffer,
                ..pre
            }) && if pre.settings_selected < selected_schema(pre).len() {
                e == Effect::StageSetting(
                    pre.selection().plugin.id@,
                    selected_schema(pre)[pre.settings_selected as int].key@,
                    trimmed(pre.settings_edit_buffer@),
                    bounds_of(selected_schema(pre)[pre.settings_selected as int]),
                )
            } else {
                e is Nothing
            },
            Key::Backspace => post.settings_edit_buffer@ == backspaced(pre.settings_edit_buffer@)
                && post == (App { settings_edit_buffer: post.settings_edit_buffer, ..pre })
                && e is Nothing,
            Key::Char(c) => post.settings_edit_buffer@ == pre.settings_edit_buffer@.push(c)
                && post == (App { settings_edit_buffer: post.settings_edit_buffer, ..pre })
                && e is Nothing,
            _ => post == pre && e is Nothing,
        }
    } else {
        e is Nothing && match key {
            Key::Esc => post == (App { mode: Mode::Normal, ..pre }),
            Key::Char('j') | Key::Down => post == (App {
                settings_selected: wrap_down(pre.settings_selected, selected_schema(pre).len()),
                ..pre
            }),
            Key::Char('k') | Key::Up => post == (App {
                settings_selected: wrap_up(pre.settings_selected, selected_schema(pre).len()),
                ..pre
            }),
            Key::Enter => if pre.settings_selected < selected_schema(pre).len() {
                post.settings_edit_buffer@ == match setting_text(
                    pre.local_settings.values@,
                    pre.selection().plugin.id@,
                    selected_schema(pre)[pre.settings_selected as int],
                ) {
                    Some(t) => t,
                    None => Seq::empty(),
                } && post == (App {
                    settings_editing: true,
                    settings_edit_buffer: post.settings_edit_buffer,
                    ..pre
                })
            } else {
                post == pre
            },
            _ => post == pre,
        }
    }
}

/// What a placement-screen key does: h/k and l/j move between left, center
/// and right (wrapping); Enter asks to enable the selected plugin at the
/// chosen placement; Enter and Esc return to the main screen.
pub open spec fn placement_post(pre: App, post: App, key: Key, e: Effect) -> bool {
    match key {
        Key::Esc => post == (App { mode: Mode::Normal, ..pre }) && e is Nothing,
        Key::Char('h') | Key::Left | Key::Char('k') | Key::Up => post == (App {
            placement_selected: wrap_up(pre.placement_selected, PLACEMENT_COUNT as nat),
            ..pre
        }) && e is Nothing,
        Key::Char('l') | Key::Right | Key::Char('j') | Key::Down => post == (App {
            placement_selected: wrap_down(pre.placement_selected, PLACEMENT_COUNT as nat),
            ..pre
        }) && e is Nothing,
        Key::Enter => post == (App { mode: Mode::Normal, ..pre }) && if pre.has_selection() {
            e == Effect::Enable(
                pre.selection().plugin.id@,
                placement_text(pre.placement_selected as int),
            )
        } else {
            e is Nothing
        },
        _ => post == pre && e is Nothing,
    }
}

/// What landing on the selected registry entry asks for: the fetch of its
/// repository's description, when the registry gives none, none was fetched
/// this session, and the repository is on GitHub.
pub open spec fn landing_effect(app: App) -> Effect {
    if app.has_discovery_selection() {
        let s = app.discovery_selection();
        if s.catalog.description@.len() == 0 && !app.descriptions@.contains_key(s.repo@) {
            match description_address(s.repo@) {
                Some(a) => Effect::FetchDescription(s.repo@, a),
                None => Effect::Nothing,
            }
        } else {
            Effect::Nothing
        }
    } else {
        Effect::Nothing
    }
}

/// What a discovery-screen key does: j/k move through the shown entries
/// (wrapping), h/l switch the category tab (wrapping) and show its entries
/// from the top, each landing on an entry that may ask for its description;
/// r asks for a forced registry refresh, Enter asks to install the selected
/// entry, and Esc or q return to the main screen.
pub open spec fn discovery_post(pre: App, post: App, key: Key, e: Effect) -> bool {
    match key {
        Key::Esc | Key::Char('q') => post == (App { mode: Mode::Normal, ..pre }) && e is Nothing,
        Key::Char('j') | Key::Down => post == (App {
            discovery_selected: wrap_down(pre.discovery_selected, pre.discovery_visible@.len()),
            ..pre
        }) && e == landing_effect(post),
        Key::Char('k') | Key::Up => post == (App {
            discovery_selected: wrap_up(pre.discovery_selected, pre.discovery_visible@.len()),
            ..pre
        }) && e == landing_effect(post),
        Key::Char('l') | Key::Right => next_tab_shown(pre, post) && e == landing_effect(post),
        Key::Char('h') | Key::Left => previous_tab_shown(pre, post) && e == landing_effect(post),
        Key::Char('r') => post.status matches Some(s) && s@ == "refreshing registry..."@ && post
            == (App { status: post.status, ..pre }) && e == Effect::LoadDiscovery(true),
        Key::Enter => post == pre && if pre.has_discovery_selection() {
            e == Effect::Install(
                pre.discovery_selection().repo@,
                shown_name(pre.discovery_selection().catalog),
                pre.discovery_selection().catalog.id@,
            )
        } else {
            e is Nothing
        },
        _ => post == pre && e is Nothing,
    }
}

/// Once a description was fetched for a repository (found or not), landing
/// on an entry of that repository asks for nothing more.
pub proof fn law_description_fetched_once(app: App)
    requires
        app.has_discovery_selection(),
        app.descriptions@.contains_key(app.discovery_selection().repo@),
    ensures
        landing_effect(app) == Effect::Nothing,
{
}

/// Enter on a registry entry asks to install exactly that entry; once the
/// install succeeded and the reloaded plugin list holds its plugin, the
/// placement screen opens at the center with that plugin selected.
pub proof fn law_install_walks_into_placement(
    pre: App,
    mid: App,
    e: Effect,
    reloaded: App,
    post: App,
)
    requires
        pre.mode == Mode::Discovery,
        pre.has_discovery_selection(),
        key_post(pre, mid, Key::Enter, e),
        installed_ids(reloaded.plugins@).contains(pre.discovery_selection().catalog.id@),
        placed_after_install(reloaded, post, pre.discovery_selection().catalog.id@, true),
    ensures
        e == Effect::Install(
            pre.discovery_selection().repo@,
            shown_name(pre.discovery_selection().catalog),
            pre.discovery_selection().catalog.id@,
        ),
        post.mode == Mode::Placement,
        post.placement_selected == 1,
        post.has_selection(),
        post.selection().plugin.id@ == pre.discovery_selection().catalog.id@,
{
    crate::app::lemma_all_indices_len(reloaded.plugins@.len());
}

/// Confirming an edited integer setting stages the trimmed text with the
/// field's own minimum, maximum and step, so that the value is clamped and
/// snapped to them; any other field's value is staged without bounds.
pub proof fn law_staged_value_carries_field_bounds(pre: App, post: App, e: Effect)
    requires
        pre.has_selection(),
        pre.settings_editing,
        pre.settings_selected < selected_schema(pre).len(),
        settings_post(pre, post, Key::Enter, e),
    ensures
        ({
            let f = selected_schema(pre)[pre.settings_selected as int];
            &&& e matches Effect::StageSetting(plugin, key, value, bounds)
            &&& plugin == pre.selection().plugin.id@
            &&& key == f.key@
            &&& value == trimmed(pre.settings_edit_buffer@)
            &&& f.field_type@ == "integer"@ ==> (bounds matches Some(b) && b.min_bits == f.min_bits
                && b.max_bits == f.max_bits && b.step_bits == f.step_bits)
            &&& f.field_type@ != "integer"@ ==> bounds is None
        }),
{
}

/// Every discovery key that moves the selection (j/k through the entries,
/// h/l through the tabs) asks for the description of the entry it lands on
/// exactly when the registry gives none, none was fetched this session, and
/// the repository is on GitHub; otherwise it asks for nothing.
pub proof fn law_moving_fetches_missing_description(pre: App, post: App, key: Key, e: Effect)
    requires
        key == Key::Char('j') || key == Key::Down || key == Key::Char('k') || key == Key::Up
            || key == Key::Char('h') || key == Key::Left || key == Key::Char('l') || key
            == Key::Right,
        discovery_post(pre, post, key, e),
    ensures
        post.has_discovery_selection() && post.discovery_selection().catalog.description@.len()
            == 0 && !post.descriptions@.contains_key(post.discovery_selection().repo@)
            && description_address(post.discovery_selection().repo@) is Some ==> e
            == Effect::FetchDescription(
            post.discovery_selection().repo@,
            description_address(post.discovery_selection().repo@)->0,
        ),
        !(post.has_discovery_selection() && post.discovery_selection().catalog.description@.len()
            == 0 && !post.descriptions@.contains_key(post.discovery_selection().repo@)
            && description_address(post.discovery_selection().repo@) is Some) ==> e is Nothing,
        post.descriptions == pre.descriptions,
        post.discovery_sources == pre.discovery_sources,
{
}

/// What a profile-screen key does: e and i open the path of the profile to
/// export to or import from, starting from the last one used; Esc and q
/// return to the main screen.
pub open spec fn profile_post(pre: App, post: App, key: Key, e: Effect) -> bool {
    e is Nothing && match key {
        Key::Char('e') => post.input_buffer@ == pre.profile_path@ && post == (App {
            mode: Mode::ExportPath,
            input_buffer: post.input_buffer,
            ..pre
        }),
        Key::Char('i') => post.input_buffer@ == pre.profile_path@ && post == (App {
            mode: Mode::ImportPath,
            input_buffer: post.input_buffer,
            ..pre
        }),
        Key::Esc | Key::Char('q') => post == (App { mode: Mode::Normal, ..pre }),
        _ => post == pre,
    }
}

/// The action on a profile path: export to it or import from it.
pub open spec fn path_effect(export: bool, path: Seq<char>) -> Effect {
    if export {
        Effect::ExportProfile(path)
    } else {
        Effect::ImportProfile(path)
    }
}

/// What a key does while a profile path is typed: typing edits it; Enter
/// asks to export to (or import from) the trimmed path when it is not
/// empty, remembers it, and returns to the main screen; Esc drops it and
/// returns to the profile screen.
pub open spec fn path_post(pre: App, post: App, key: Key, e: Effect, export: bool) -> bool {
    match key {
        Key::Esc => post.input_buffer@.len() == 0 && post == (App {
            input_buffer: post.input_buffer,
            mode: Mode::Profile,
            ..pre
        }) && e is Nothing,
        Key::Enter => post.input_buffer@.len() == 0 && if trimmed(pre.input_buffer@).len() > 0 {
            post.profile_path@ == trimmed(pre.input_buffer@) && post == (App {
                input_buffer: post.input_buffer,
                profile_path: post.profile_path,
                mode: Mode::Normal,
                ..pre
            }) && e == path_effect(export, trimmed(pre.input_buffer@))
        } else {
            post == (App { input_buffer: post.input_buffer, mode: Mode::Normal, ..pre })
                && e is Nothing
        },
        Key::Backspace => post.input_buffer@ == backspaced(pre.input_buffer@) && post == (App {
            input_buffer: post.input_buffer,
            ..pre
        }) && e is Nothing,
        Key::Char(c) => post.input_buffer@ == pre.input_buffer@.push(c) && post == (App {
            input_buffer: post.input_buffer,
            ..pre
        }) && e is Nothing,
        _ => post == pre && e is Nothing,
    }
}

/// What a key does on the current screen.
pub open spec fn key_post(pre: App, post: App, key: Key, e: Effect) -> bool {
    match pre.mode {
        Mode::Normal => normal_post(pre, post, key, e),
        Mode::Filter => filter_post(pre, post, key) && e is Nothing,
        Mode::AddUrl => add_url_post(pre, post, key, e),
        Mode::ConfirmRemove => confirm_remove_post(pre, post, key, e),
        Mode::Settings => settings_post(pre, post, key, e),
        Mode::Placement => placement_post(pre, post, key, e),
        Mode::Discovery => discovery_post(pre, post, key, e),
        Mode::Profile => profile_post(pre, post, key, e),
        Mode::ExportPath => path_post(pre, post, key, e, true),
        Mode::ImportPath => path_post(pre, post, key, e, false),
    }
}

/// The key can be handled on the current screen without an index overflowing
/// or the placement index leaving the list of placements.
pub open spec fn key_allowed(app: App, key: Key) -> bool {
    let down = key == Key::Char('j') || key == Key::Down;
    match app.mode {
        Mode::Normal => down && app.filtered@.len() > 0 ==> app.selected < usize::MAX,
        Mode::Settings => down && !app.settings_editing && app.has_selection() && selected_schema(
            app,
        ).len() > 0 ==> app.settings_selected < usize::MAX,
        Mode::Placement => (key == Key::Enter && app.has_selection() ==> app.placement_selected
            < PLACEMENT_COUNT) && (
        down || key == Key::Char('l') || key == Key::Right ==> app.placement_selected
            < usize::MAX),
        Mode::Discovery => {
            let tabs = key == Key::Char('h') || key == Key::Left || key == Key::Char('l') || key
                == Key::Right;
            &&& down && app.discovery_visible@.len() > 0 ==> app.discovery_selected < usize::MAX
            &&& tabs ==> app.discovery_categories@.len() < usize::MAX
            &&& key == Key::Char('l') || key == Key::Right ==> app.discovery_tab < usize::MAX
        },
        _ => true,
    }
}

/// The status line after `cmd` ran with `outcome`: the command's own text
/// on success, `error: ` and the message on failure.
pub open spec fn reported(e: Effect, outcome: Result<(), String>) -> Option<Seq<char>> {
    match done_text(e) {
        Some(t) => Some(
            match outcome {
                Ok(_) => t,
                Err(m) => "error: "@ + m@,
            },
        ),
        None => None,
    }
}

/// The status line after an export to `path`.
pub open spec fn export_text(path: Seq<char>, outcome: Result<usize, String>) -> Seq<char> {
    match outcome {
        Ok(n) => decimal(n as nat) + " plugins exported to "@ + path,
        Err(m) => "error: "@ + m@,
    }
}

/// The status line after an import.
pub open spec fn import_text(outcome: Result<ImportSummary, String>) -> Seq<char> {
    match outcome {
        Ok(s) => "profile imported: "@ + decimal(s.installed as nat) + " installed, "@ + decimal(
            s.enabled as nat,
        ) + " enabled, "@ + decimal(s.disabled as nat) + " disabled, "@ + decimal(
            s.settings_applied as nat,
        ) + " settings, "@ + decimal(s.errors@.len()) + " errors"@,
        Err(m) => "error: "@ + m@,
    }
}

impl App {
    fn selection_index(&self) -> (r: Option<usize>)
        ensures
            r is Some == self.has_selection(),
            r matches Some(i) ==> i == self.filtered@[self.selected as int] && i
                < self.plugins@.len(),
    {
        if self.selected < self.filtered.len() {
            let i = self.filtered[self.selected];
            if i < self.plugins.len() {
                return Some(i);
            }
        }
        None
    }

    /// Handles a key on the main screen.
    pub fn handle_normal(&mut self, key: Key) -> (cmd: Command)
        requires
            (key == Key::Char('j') || key == Key::Down) && old(self).filtered@.len() > 0
                ==> old(self).selected < usize::MAX,
        ensures
            normal_post(*old(self), *final(self), key, effect(cmd)),
    {
        match key {
            Key::Char('q') | Key::Esc => {
                self.should_quit = true;
                Command::Nothing
            },
            Key::Char('j') | Key::Down => {
                self.next();
                Command::Nothing
            },
            Key::Char('k') | Key::Up => {
                self.previous();
                Command::Nothing
            },
            Key::Char('/') => {
                self.mode = Mode::Filter;
                Command::Nothing
            },
            Key::Char('a') => {
                self.mode = Mode::AddUrl;
                self.input_buffer = String::new();
                Command::Nothing
            },
            Key::Char('e') => {
                if self.selected_id().is_some() {
                    self.mode = Mode::Placement;
                    self.placement_selected = 1;
                }
                Command::Nothing
            },
            Key::Char('d') => match self.selected_id() {
                Some(id) => Command::Disable(id),
                None => Command::Nothing,
            },
            Key::Char('x') => {
                if self.selected_id().is_some() {
                    self.mode = Mode::ConfirmRemove;
                }
                Command::Nothing
            },
            Key::Char('s') => {
                let open = match self.selected_entry() {
                    Some(entry) => entry.plugin.schema().len() > 0,
                    None => false,
                };
                if open {
                    self.mode = Mode::Settings;
                    self.settings_selected = 0;
                    self.settings_editing = false;
                }
                Command::Nothing
            },
            Key::Char('u') => match self.selected_id() {
                Some(id) => Command::Update(Some(id)),
                None => Command::Nothing,
            },
            Key::Char('U') => Command::Update(None),
            Key::Char('P') => {
                self.mode = Mode::Profile;
                Command::Nothing
            },
            Key::Char('D') => {
                self.mode = Mode::Discovery;
                self.status = Some(text("loading registry..."));
                Command::LoadDiscovery { force_refresh: false }
            },
            _ => Command::Nothing,
        }
    }

    /// Handles a key on the filter screen.
    pub fn handle_filter(&mut self, key: Key)
        ensures
            filter_post(*old(self), *final(self), key),
    {
        match key {
            Key::Esc => {
                self.filter_text = String::new();
                self.apply_filter();
                self.mode = Mode::Normal;
            },
            Key::Enter => {
                self.mode = Mode::Normal;
            },
            Key::Backspace => {
                pop_char(&mut self.filter_text);
                self.apply_filter();
            },
            Key::Char(c) => {
                push_char(&mut self.filter_text, c);
                self.apply_filter();
            },
            _ => {},
        }
    }

    /// Handles a key on the add screen.
    pub fn handle_add_url(&mut self, key: Key) -> (cmd: Command)
        ensures
            add_url_post(*old(self), *final(self), key, effect(cmd)),
    {
        match key {
            Key::Esc => {
                self.input_buffer = String::new();
                self.mode = Mode::Normal;
                Command::Nothing
            },
            Key::Enter => {
                let url = trim(self.input_buffer.as_str());
                self.input_buffer = String::new();
                self.mode = Mode::Normal;
                if url.as_str().unicode_len() > 0 {
                    Command::Add(url)
                } else {
                    Command::Nothing
                }
            },
            Key::Backspace => {
                pop_char(&mut self.input_buffer);
                Command::Nothing
            },
            Key::Char(c) => {
                push_char(&mut self.input_buffer, c);
                Command::Nothing
            },
            _ => Command::Nothing,
        }
    }

    /// Handles a key on the remove confirmation.
    pub fn handle_confirm_remove(&mut self, key: Key) -> (cmd: Command)
        ensures
            confirm_remove_post(*old(self), *final(self), key, effect(cmd)),
    {
        match key {
            Key::Char('y') | Key::Char('Y') => {
                let cmd = match self.selected_id() {
                    Some(id) => Command::Remove(id),
                    None => Command::Nothing,
                };
                self.mode = Mode::Normal;
                cmd
            },
            Key::Char('n') | Key::Char('N') | Key::Esc => {
                self.mode = Mode::Normal;
                Command::Nothing
            },
            _ => Command::Nothing,
        }
    }

    /// Handles a key on the settings screen.
    pub fn handle_settings(&mut self, key: Key) -> (cmd: Command)
        requires
            (key == Key::Char('j') || key == Key::Down) && !old(self).settings_editing
                && old(self).has_selection() && selected_schema(*old(self)).len() > 0
                ==> old(self).settings_selected < usize::MAX,
        ensures
            settings_post(*old(self), *final(self), key, effect(cmd)),
    {
        let pi = match self.selection_index() {
            Some(i) => i,
            None => {
                self.mode = Mode::Normal;
                return Command::Nothing;
            },
        };
        let schema_len = self.plugins[pi].plugin.schema().len();
        if self.settings_editing {
            match key {
                Key::Esc => {
                    self.settings_editing = false;
                    self.settings_edit_buffer = String::new();
                    Command::Nothing
                },
                Key::Enter => {
                    let i = self.settings_selected;
                    let mut cmd = Command::Nothing;
                    if i < schema_len {
                        let plugin = &self.plugins[pi].plugin;
                        let field = &plugin.schema()[i];
                        let key = field.key.clone();
                        let bounds = field_bounds(field);
                        let value = trim(self.settings_edit_buffer.as_str());
                        cmd = Command::StageSetting {
                            plugin_id: plugin.id.clone(),
                            key,
                            value,
                            bounds,
                        };
                    }
                    self.settings_editing = false;
                    self.settings_edit_buffer = String::new();
                    cmd
                },
                Key::Backspace => {
                    pop_char(&mut self.settings_edit_buffer);
                    Command::Nothing
                },
                Key::Char(c) => {
                    push_char(&mut self.settings_edit_buffer, c);
                    Command::Nothing
                },
                _ => Command::Nothing,
            }
        } else {
            match key {
                Key::Esc => {
                    self.mode = Mode::Normal;
                },
                Key::Char('j') | Key::Down => {
                    if schema_len > 0 {
                        self.settings_selected = (self.settings_selected + 1) % schema_len;
                    }
                },
                Key::Char('k') | Key::Up => {
                    if schema_len > 0 {
                        self.settings_selected = if self.settings_selected == 0 {
                            schema_len - 1
                        } else {
                            self.settings_selected - 1
                        };
                    }
                },
                Key::Enter => {
                    let i = self.settings_selected;
                    if i < schema_len {
                        let plugin = &self.plugins[pi].plugin;
                        let current = current_setting(
                            &self.local_settings,
                            plugin.id.as_str(),
                            &plugin.schema()[i],
                        );
                        let buffer = match current {
                            Some(t) => t,
                            None => String::new(),
                        };
                        self.settings_edit_buffer = buffer;
                        self.settings_editing = true;
                    }
                },
                _ => {},
            }
            Command::Nothing
        }
    }

    /// Handles a key on the placement screen.
    pub fn handle_placement(&mut self, key: Key) -> (cmd: Command)
        requires
            key == Key::Enter && old(self).has_selection() ==> old(self).placement_selected
                < PLACEMENT_COUNT,
            key == Key::Char('l') || key == Key::Right || key == Key::Char('j') || key == Key::Down
                ==> old(self).placement_selected < usize::MAX,
        ensures
            placement_post(*old(self), *final(self), key, effect(cmd)),
    {
        match key {
            Key::Esc => {
                self.mode = Mode::Normal;
                Command::Nothing
            },
            Key::Char('h') | Key::Left | Key::Char('k') | Key::Up => {
                self.placement_selected = if self.placement_selected == 0 {
                    PLACEMENT_COUNT - 1
                } else {
                    self.placement_selected - 1
                };
                Command::Nothing
            },
            Key::Char('l') | Key::Right | Key::Char('j') | Key::Down => {
                self.placement_selected = (self.placement_selected + 1) % PLACEMENT_COUNT;
                Command::Nothing
            },
            Key::Enter => {
                let cmd = match self.selected_id() {
                    Some(id) => Command::Enable {
                        id,
                        placement: text(placement(self.placement_selected)),
                    },
                    None => Command::Nothing,
                };
                self.mode = Mode::Normal;
                cmd
            },
            _ => Command::Nothing,
        }
    }

    /// What landing on the selected registry entry asks for.
    pub fn describe_selected(&self) -> (cmd: Command)
        ensures
            effect(cmd) == landing_effect(*self),
    {
        match self.selected_source() {
            Some(s) => {
                if s.catalog.description.as_str().unicode_len() == 0 && self.descriptions.get(
                    s.repo.as_str(),
                ).is_none() {
                    match description_url(s.repo.as_str()) {
                        Some(url) => Command::FetchDescription { repo: s.repo.clone(), url },
                        None => Command::Nothing,
                    }
                } else {
                    Command::Nothing
                }
            },
            None => Command::Nothing,
        }
    }

    /// Handles a key on the discovery screen.
    pub fn handle_discovery(&mut self, key: Key) -> (cmd: Command)
        requires
            (key == Key::Char('j') || key == Key::Down) && old(self).discovery_visible@.len() > 0
                ==> old(self).discovery_selected < usize::MAX,
            key == Key::Char('h') || key == Key::Left || key == Key::Char('l') || key == Key::Right
                ==> old(self).discovery_categories@.len() < usize::MAX,
            key == Key::Char('l') || key == Key::Right ==> old(self).discovery_tab < usize::MAX,
        ensures
            discovery_post(*old(self), *final(self), key, effect(cmd)),
    {
        match key {
            Key::Esc | Key::Char('q') => {
                self.mode = Mode::Normal;
                Command::Nothing
            },
            Key::Char('j') | Key::Down => {
                self.discovery_next();
                self.describe_selected()
            },
            Key::Char('k') | Key::Up => {
                self.discovery_previous();
                self.describe_selected()
            },
            Key::Char('l') | Key::Right => {
                self.discovery_next_tab();
                self.describe_selected()
            },
            Key::Char('h') | Key::Left => {
                self.discovery_previous_tab();
                self.describe_selected()
            },
            Key::Char('r') => {
                self.status = Some(text("refreshing registry..."));
                Command::LoadDiscovery { force_refresh: true }
            },
            Key::Enter => match self.selected_source() {
                Some(s) => Command::Install {
                    repo: s.repo.clone(),
                    name: display_name(&s.catalog),
                    id: s.catalog.id.clone(),
                },
                None => Command::Nothing,
            },
            _ => Command::Nothing,
        }
    }

    /// Handles a key on the profile screen.
    pub fn handle_profile(&mut self, key: Key) -> (cmd: Command)
        ensures
            profile_post(*old(self), *final(self), key, effect(cmd)),
    {
        match key {
            Key::Char('e') => {
                self.input_buffer = self.profile_path.clone();
                self.mode = Mode::ExportPath;
            },
            Key::Char('i') => {
                self.input_buffer = self.profile_path.clone();
                self.mode = Mode::ImportPath;
            },
            Key::Esc | Key::Char('q') => {
                self.mode = Mode::Normal;
            },
            _ => {},
        }
        Command::Nothing
    }

    /// Handles a key while the path of a profile to export to (`export`)
    /// or import from is typed.
    pub fn handle_profile_path(&mut self, key: Key, export: bool) -> (cmd: Command)
        ensures
            path_post(*old(self), *final(self), key, effect(cmd), export),
    {
        match key {
            Key::Esc => {
                self.input_buffer = String::new();
                self.mode = Mode::Profile;
                Command::Nothing
            },
            Key::Enter => {
                let path = trim(self.input_buffer.as_str());
                self.input_buffer = String::new();
                self.mode = Mode::Normal;
                if path.as_str().unicode_len() > 0 {
                    self.profile_path = path.clone();
                    if export {
                        Command::ExportProfile(path)
                    } else {
                        Command::ImportProfile(path)
                    }
                } else {
                    Command::Nothing
                }
            },
            Key::Backspace => {
                pop_char(&mut self.input_buffer);
                Command::Nothing
            },
            Key::Char(c) => {
                push_char(&mut self.input_buffer, c);
                Command::Nothing
            },
            _ => Command::Nothing,
        }
    }

    /// Handles a key on whichever screen is shown.
    pub fn handle_key(&mut self, key: Key) -> (cmd: Command)
        requires
            key_allowed(*old(self), key),
        ensures
            key_post(*old(self), *final(self), key, effect(cmd)),
    {
        match self.mode {
            Mode::Normal => self.handle_normal(key),
            Mode::Filter => {
                self.handle_filter(key);
                Command::Nothing
            },
            Mode::AddUrl => self.handle_add_url(key),
            Mode::ConfirmRemove => self.handle_confirm_remove(key),
            Mode::Settings => self.handle_settings(key),
            Mode::Placement => self.handle_placement(key),
            Mode::Discovery => self.handle_discovery(key),
            Mode::Profile => self.handle_profile(key),
            Mode::ExportPath => self.handle_profile_path(key, true),
            Mode::ImportPath => self.handle_profile_path(key, false),
        }
    }

    /// Records how an action went in the status line.
    pub fn report(&mut self, cmd: &Command, outcome: Result<(), String>)
        ensures
            match reported(effect(*cmd), outcome) {
                Some(t) => final(self).status matches Some(s) && s@ == t && *final(self) == (App {
                    status: final(self).status,
                    ..*old(self)
                }),
                None => *final(self) == *old(self),
            },
    {
        let done = match cmd {
            Command::Disable(id) => Some(text("disabled ").concat(id.as_str())),
            Command::Update(Some(id)) => Some(text("updated ").concat(id.as_str())),
            Command::Update(None) => Some(text("updated all plugins")),
            Command::Add(url) => Some(text("added ").concat(url.as_str())),
            Command::Remove(id) => Some(text("removed ").concat(id.as_str())),
            Command::Enable { id, placement } => Some(
                text("enabled ").concat(id.as_str()).concat(" at ").concat(placement.as_str()),
            ),
            Command::Install { repo: _, name, id: _ } => Some(text("added ").concat(name.as_str())),
            _ => None,
        };
        match done {
            Some(t) => {
                let line = match outcome {
                    Ok(_) => t,
                    Err(m) => text("error: ").concat(m.as_str()),
                };
                self.status = Some(line);
            },
            None => {},
        }
    }

    /// Stages a setting value and says so in the status line.
    pub fn stage_setting(&mut self, plugin_id: &str, key: &str, value: String)
        ensures
            final(self).local_settings.values@ == stored(
                old(self).local_settings.values@,
                plugin_id@,
                key@,
                value@,
            ),
            final(self).status matches Some(s) && s@ == "staged "@ + key@ + "="@ + value@
                + " for "@ + plugin_id@,
            *final(self) == (App {
                local_settings: final(self).local_settings,
                status: final(self).status,
                ..*old(self)
            }),
    {
        let line = text("staged ").concat(key).concat("=").concat(value.as_str()).concat(
            " for ",
        ).concat(plugin_id);
        self.local_settings.set(plugin_id, key, value);
        self.status = Some(line);
    }

    /// Says in the status line how an export to `path` went: how many
    /// plugins it wrote, or the error.
    pub fn report_export(&mut self, path: &str, outcome: Result<usize, String>)
        ensures
            final(self).status matches Some(s) && s@ == export_text(path@, outcome),
            *final(self) == (App { status: final(self).status, ..*old(self) }),
    {
        let line = match outcome {
            Ok(n) => decimal_text(n).concat(" plugins exported to ").concat(path),
            Err(m) => text("error: ").concat(m.as_str()),
        };
        self.status = Some(line);
    }

    /// Says in the status line how an import went: its counts, or the error.
    pub fn report_import(&mut self, outcome: Result<&ImportSummary, String>)
        ensures
            final(self).status matches Some(s) && s@ == import_text(
                match outcome {
                    Ok(summary) => Ok(*summary),
                    Err(m) => Err(m),
                },
            ),
            *final(self) == (App { status: final(self).status, ..*old(self) }),
    {
        let line = match outcome {
            Ok(summary) => text("profile imported: ").concat(
                decimal_text(summary.installed).as_str(),
            ).concat(" installed, ").concat(decimal_text(summary.enabled).as_str()).concat(
                " enabled, ",
            ).concat(decimal_text(summary.disabled).as_str()).concat(" disabled, ").concat(
                decimal_text(summary.settings_applied).as_str(),
            ).concat(" settings, ").concat(decimal_text(summary.errors.len()).as_str()).concat(
                " errors",
            ),
            Err(m) => text("error: ").concat(m.as_str()),
        };
        self.status = Some(line);
    }

    /// Says in the status line how many registry plugins are available.
    pub fn announce_discovery(&mut self)
        ensures
            final(self).status matches Some(s) && s@ == decimal(
                old(self).discovery_sources@.len(),
            ) + " plugins available"@,
            *final(self) == (App { status: final(self).status, ..*old(self) }),
    {
        let n = decimal_text(self.discovery_sources.len());
        self.status = Some(n.concat(" plugins available"));
    }
}

} // verus!
