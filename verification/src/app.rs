//! The application state: the installed plugins, the filtered view of them,
//! the selection, the screen mode, and the discovery list.
use vstd::prelude::*;
use crate::discovery::{Source, category_of};
use crate::models::Plugin;
use crate::settings::{FieldValues, LocalSettings};
use crate::text::{
    ascii_lower, ascii_lower_char, contains_text, contains_word, has_substring, is_ascii, lowercase,
    occurs_at, same_text, texts, to_lower,
};

verus! {

/// The number of bar placements.
pub const PLACEMENT_COUNT: usize = 3;

/// The name of a bar placement.
pub open spec fn placement_text(i: int) -> Seq<char> {
    if i == 0 {
        "left"@
    } else if i == 1 {
        "center"@
    } else {
        "right"@
    }
}

/// The bar placement with index `i`: left, center or right.
pub fn placement(i: usize) -> (p: &'static str)
    requires
        i < PLACEMENT_COUNT,
    ensures
        p@ == placement_text(i as int),
{
    if i == 0 {
        "left"
    } else if i == 1 {
        "center"
    } else {
        "right"
    }
}

/// An installed plugin and whether it is enabled.
pub struct PluginEntry {
    pub plugin: Plugin,
    pub enabled: bool,
}

/// The screen the application shows.
#[derive(PartialEq, Eq, Structural, Clone, Copy, Debug)]
pub enum Mode {
    Normal,
    Filter,
    AddUrl,
    Settings,
    ConfirmRemove,
    Placement,
    Discovery,
    Profile,
    ExportPath,
    ImportPath,
}

/// All application state.
pub struct App {
    pub plugins: Vec<PluginEntry>,
    pub filtered: Vec<usize>,
    pub selected: usize,
    pub should_quit: bool,
    pub mode: Mode,
    pub filter_text: String,
    pub input_buffer: String,
    pub status: Option<String>,
    pub settings_selected: usize,
    pub settings_editing: bool,
    pub settings_edit_buffer: String,
    pub local_settings: LocalSettings,
    pub placement_selected: usize,
    pub discovery_sources: Vec<Source>,
    pub discovery_selected: usize,
    /// The positions in `discovery_sources` shown under the current tab.
    pub discovery_visible: Vec<usize>,
    /// The category tabs after the first one, which shows every entry.
    pub discovery_categories: Vec<String>,
    pub discovery_tab: usize,
    /// Descriptions fetched this session, by repository; empty when none was found.
    pub descriptions: FieldValues,
    /// The profile file last exported or imported.
    pub profile_path: String,
}

/// Whether a plugin passes the filter `needle` (already lowercased): an
/// empty needle passes everything; otherwise the needle must occur in the
/// lowercased name, id or description.
pub open spec fn plugin_matches(needle: Seq<char>, p: Plugin) -> bool {
    needle.len() == 0 || has_substring(lowercase(p.name@), needle) || has_substring(
        lowercase(p.id@),
        needle,
    ) || has_substring(lowercase(p.description@), needle)
}

/// The indices of the entries that pass the filter, in order.
pub open spec fn matching(needle: Seq<char>, entries: Seq<PluginEntry>) -> Seq<usize>
    decreases entries.len(),
{
    if entries.len() == 0 {
        Seq::empty()
    } else {
        let before = matching(needle, entries.drop_last());
        if plugin_matches(needle, entries.last().plugin) {
            before.push((entries.len() - 1) as usize)
        } else {
            before
        }
    }
}

/// The indices `0..n`.
pub open spec fn all_indices(n: nat) -> Seq<usize> {
    Seq::new(n, |i: int| i as usize)
}

/// The list `0..n` has `n` items, the `i`-th being `i` (for every `i` a `usize` holds).
pub proof fn lemma_all_indices_len(n: nat)
    ensures
        all_indices(n).len() == n,
        forall|i: int| 0 <= i < n && i <= usize::MAX ==> #[trigger] all_indices(n)[i] == i,
{
}

/// With an empty filter, every plugin passes, in order.
pub proof fn lemma_matching_empty(needle: Seq<char>, entries: Seq<PluginEntry>)
    requires
        needle.len() == 0,
    ensures
        matching(needle, entries) == all_indices(entries.len()),
    decreases entries.len(),
{
    if entries.len() > 0 {
        lemma_matching_empty(needle, entries.drop_last());
        assert(matching(needle, entries) =~= all_indices(entries.len()));
    } else {
        assert(matching(needle, entries) =~= all_indices(entries.len()));
    }
}

/// The ids of the installed plugins.
pub open spec fn installed_ids(entries: Seq<PluginEntry>) -> Seq<Seq<char>> {
    entries.map_values(|e: PluginEntry| e.plugin.id@)
}

/// The registry entries whose plugin is not among the installed ids, in order.
pub open spec fn not_installed(installed: Seq<Seq<char>>, sources: Seq<Source>) -> Seq<Source>
    decreases sources.len(),
{
    if sources.len() == 0 {
        Seq::empty()
    } else {
        let before = not_installed(installed, sources.drop_last());
        if installed.contains(sources.last().catalog.id@) {
            before
        } else {
            before.push(sources.last())
        }
    }
}

/// The catalog with each plugin marked enabled unless its id is listed as disabled.
pub open spec fn with_state(catalog: Seq<Plugin>, disabled: Seq<Seq<char>>) -> Seq<PluginEntry> {
    catalog.map_values(
        |p: Plugin| PluginEntry { plugin: p, enabled: !disabled.contains(p.id@) },
    )
}

/// The selection after a list shrinks to `len` items: kept when still
/// inside, otherwise moved to the last item (or 0 for an empty list).
pub open spec fn clamped(selected: usize, len: nat) -> usize {
    if selected >= len {
        if len == 0 {
            0
        } else {
            (len - 1) as usize
        }
    } else {
        selected
    }
}

/// The index after moving down a list of `len` items, wrapping to the top.
pub open spec fn wrap_down(i: usize, len: nat) -> usize {
    if len == 0 {
        i
    } else {
        ((i + 1) % (len as int)) as usize
    }
}

/// The index after moving up a list of `len` items, wrapping to the bottom.
pub open spec fn wrap_up(i: usize, len: nat) -> usize {
    if len == 0 {
        i
    } else if i == 0 {
        (len - 1) as usize
    } else {
        (i - 1) as usize
    }
}

/// The categories of the registry entries, each once, in the order they
/// first appear; entries without a category add none.
pub open spec fn categories(sources: Seq<Source>) -> Seq<Seq<char>>
    decreases sources.len(),
{
    if sources.len() == 0 {
        Seq::empty()
    } else {
        let before = categories(sources.drop_last());
        let c = category_of(sources.last());
        if c.len() == 0 || before.contains(c) {
            before
        } else {
            before.push(c)
        }
    }
}

/// Whether an entry is shown under tab `tab`: the first tab shows every
/// entry, tab `k` the entries of the `k`-th category.
pub open spec fn shown_in_tab(s: Source, cats: Seq<Seq<char>>, tab: nat) -> bool {
    tab == 0 || (tab <= cats.len() && category_of(s) == cats[tab - 1])
}

/// The positions of the entries shown under tab `tab`, in order.
pub open spec fn in_tab(sources: Seq<Source>, cats: Seq<Seq<char>>, tab: nat) -> Seq<usize>
    decreases sources.len(),
{
    if sources.len() == 0 {
        Seq::empty()
    } else {
        let before = in_tab(sources.drop_last(), cats, tab);
        if shown_in_tab(sources.last(), cats, tab) {
            before.push((sources.len() - 1) as usize)
        } else {
            before
        }
    }
}

/// `post` is `pre` switched to tab `tab`, its entries shown from the top.
pub open spec fn tab_shown(pre: App, post: App, tab: usize) -> bool {
    &&& post.discovery_visible@ == in_tab(
        pre.discovery_sources@,
        texts(pre.discovery_categories@),
        tab as nat,
    )
    &&& post == (App {
        discovery_visible: post.discovery_visible,
        discovery_tab: tab,
        discovery_selected: 0,
        ..pre
    })
}

/// `post` is `pre` switched to the next tab, wrapping to the first.
pub open spec fn next_tab_shown(pre: App, post: App) -> bool {
    tab_shown(pre, post, wrap_down(pre.discovery_tab, pre.discovery_categories@.len() + 1))
}

/// `post` is `pre` switched to the previous tab, wrapping to the last.
pub open spec fn previous_tab_shown(pre: App, post: App) -> bool {
    tab_shown(pre, post, wrap_up(pre.discovery_tab, pre.discovery_categories@.len() + 1))
}

/// The description shown for a registry entry: the registry's own when it
/// has one, else the one fetched for its repository.
pub open spec fn shown_description(fetched: Map<Seq<char>, Seq<char>>, s: Source) -> Seq<char> {
    if s.catalog.description@.len() > 0 {
        s.catalog.description@
    } else {
        fetched[s.repo@]
    }
}

/// What an install from the registry leads to: when it succeeded and the
/// plugin is installed, every plugin shown, the first plugin with that id
/// selected, and the placement screen open at the center; otherwise no change.
pub open spec fn placed_after_install(pre: App, post: App, id: Seq<char>, succeeded: bool) -> bool {
    if succeeded && installed_ids(pre.plugins@).contains(id) {
        &&& post.filter_text@.len() == 0
        &&& post.filtered@ == all_indices(pre.plugins@.len())
        &&& post.selected < pre.plugins@.len()
        &&& pre.plugins@[post.selected as int].plugin.id@ == id
        &&& forall|k: int| 0 <= k < post.selected ==> pre.plugins@[k].plugin.id@ != id
        &&& post == (App {
            filter_text: post.filter_text,
            filtered: post.filtered,
            selected: post.selected,
            mode: Mode::Placement,
            placement_selected: 1,
            ..pre
        })
    } else {
        post == pre
    }
}

/// Every index under a tab is a position of the list.
proof fn lemma_in_tab_below(sources: Seq<Source>, cats: Seq<Seq<char>>, tab: nat)
    requires
        sources.len() <= usize::MAX,
    ensures
        forall|k: int|
            0 <= k < in_tab(sources, cats, tab).len() ==> (#[trigger] in_tab(sources, cats, tab)[k] as int)
                < sources.len(),
    decreases sources.len(),
{
    if sources.len() > 0 {
        let before = in_tab(sources.drop_last(), cats, tab);
        lemma_in_tab_below(sources.drop_last(), cats, tab);
        let last = (sources.len() - 1) as usize;
        assert(last as int == sources.len() - 1);
        assert forall|k: int| 0 <= k < before.push(last).len() implies (
        #[trigger] before.push(last)[k] as int) < sources.len() by {
            if k < before.len() {
                assert(before.push(last)[k] == before[k]);
            }
        }
    }
}

/// A tab shows an entry exactly when it is the first tab, which shows
/// every entry, or the entry is filed under the tab's category.
pub proof fn law_tab_shows_its_category(
    sources: Seq<Source>,
    cats: Seq<Seq<char>>,
    tab: nat,
    i: int,
)
    requires
        0 <= i < sources.len(),
        sources.len() <= usize::MAX,
    ensures
        in_tab(sources, cats, tab).contains(i as usize) <==> (tab == 0 || (1 <= tab <= cats.len()
            && category_of(sources[i]) == cats[tab - 1])),
    decreases sources.len(),
{
    let rest = sources.drop_last();
    let last = (sources.len() - 1) as usize;
    let before = in_tab(rest, cats, tab);
    lemma_in_tab_below(rest, cats, tab);
    assert(last as int == sources.len() - 1);
    if i < sources.len() - 1 {
        law_tab_shows_its_category(rest, cats, tab, i);
        assert(rest[i] == sources[i]);
        if shown_in_tab(sources.last(), cats, tab) {
            assert(before.push(last).contains(i as usize) == before.contains(i as usize)) by {
                if before.push(last).contains(i as usize) {
                    let k = choose|k: int| 0 <= k < before.push(last).len() && before.push(last)[k] == i as usize;
                    if k < before.len() {
                        assert(before[k] == i as usize);
                    }
                }
                if before.contains(i as usize) {
                    let k = choose|k: int| 0 <= k < before.len() && before[k] == i as usize;
                    assert(before.push(last)[k] == i as usize);
                }
            }
        }
    } else {
        assert(!before.contains(last));
        if shown_in_tab(sources.last(), cats, tab) {
            assert(before.push(last)[before.len() as int] == last);
        }
    }
}

/// The tabs after the first one name each category of the entries exactly
/// once, and nothing else: a text is a tab exactly when some entry is filed
/// under it, and no tab repeats.
pub proof fn law_one_tab_per_category(sources: Seq<Source>)
    ensures
        forall|c: Seq<char>|
            categories(sources).contains(c) <==> (c.len() > 0 && exists|i: int|
                0 <= i < sources.len() && #[trigger] category_of(sources[i]) == c),
        forall|a: int, b: int|
            0 <= a < b < categories(sources).len() ==> categories(sources)[a] != categories(
                sources,
            )[b],
    decreases sources.len(),
{
    if sources.len() > 0 {
        let rest = sources.drop_last();
        law_one_tab_per_category(rest);
        let before = categories(rest);
        let c0 = category_of(sources.last());
        assert forall|c: Seq<char>|
            categories(sources).contains(c) <==> (c.len() > 0 && exists|i: int|
                0 <= i < sources.len() && #[trigger] category_of(sources[i]) == c) by {
            if categories(sources).contains(c) {
                if before.contains(c) {
                    let i = choose|i: int| 0 <= i < rest.len() && #[trigger] category_of(rest[i]) == c;
                    assert(category_of(sources[i]) == c);
                } else {
                    let k = choose|k: int| 0 <= k < categories(sources).len() && categories(sources)[k] == c;
                    assert(categories(sources) == before.push(c0));
                    assert(k == before.len());
                    assert(category_of(sources[sources.len() - 1]) == c);
                }
            }
            if c.len() > 0 && exists|i: int| 0 <= i < sources.len() && #[trigger] category_of(sources[i]) == c {
                let i = choose|i: int| 0 <= i < sources.len() && #[trigger] category_of(sources[i]) == c;
                if i < sources.len() - 1 {
                    assert(category_of(rest[i]) == c);
                    assert(before.contains(c));
                    if !(c0.len() == 0 || before.contains(c0)) {
                        let k = choose|k: int| 0 <= k < before.len() && before[k] == c;
                        assert(before.push(c0)[k] == c);
                    }
                } else {
                    if !(c0.len() == 0 || before.contains(c0)) {
                        assert(before.push(c0)[before.len() as int] == c);
                    }
                }
            }
        }
        if !(c0.len() == 0 || before.contains(c0)) {
            assert forall|a: int, b: int|
                0 <= a < b < before.push(c0).len() implies before.push(c0)[a] != before.push(c0)[b] by {
                if b == before.len() {
                    assert(before.push(c0)[a] == before[a]);
                } else {
                    assert(before.push(c0)[a] == before[a]);
                    assert(before.push(c0)[b] == before[b]);
                }
            }
        }
    }
}

/// The discover list holds exactly the registry entries whose plugin is not
/// installed: none of its entries is installed, and every entry that is not
/// installed is in it.
pub proof fn law_discovery_hides_installed(installed: Seq<Seq<char>>, sources: Seq<Source>)
    ensures
        forall|k: int|
            0 <= k < not_installed(installed, sources).len() ==> !installed.contains(
                #[trigger] not_installed(installed, sources)[k].catalog.id@,
            ) && sources.contains(not_installed(installed, sources)[k]),
        forall|i: int|
            0 <= i < sources.len() && !installed.contains(#[trigger] sources[i].catalog.id@)
                ==> not_installed(installed, sources).contains(sources[i]),
    decreases sources.len(),
{
    if sources.len() > 0 {
        let rest = sources.drop_last();
        law_discovery_hides_installed(installed, rest);
        let before = not_installed(installed, rest);
        let x = sources.last();
        assert forall|k: int| 0 <= k < not_installed(installed, sources).len() implies !installed.contains(
            #[trigger] not_installed(installed, sources)[k].catalog.id@,
        ) && sources.contains(not_installed(installed, sources)[k]) by {
            let r = not_installed(installed, sources);
            if k < before.len() {
                assert(r[k] == before[k]);
                assert(0 <= k < not_installed(installed, rest).len());
                assert(!installed.contains(not_installed(installed, rest)[k].catalog.id@));
                assert(rest.contains(before[k]));
                let j = choose|j: int| 0 <= j < rest.len() && rest[j] == before[k];
                assert(sources[j] == rest[j]);
            } else {
                assert(r[k] == x);
                assert(sources[sources.len() - 1] == x);
            }
        }
        assert forall|i: int|
            0 <= i < sources.len() && !installed.contains(#[trigger] sources[i].catalog.id@)
                implies not_installed(installed, sources).contains(sources[i]) by {
            if i < sources.len() - 1 {
                assert(rest[i] == sources[i]);
                assert(before.contains(sources[i]));
                if !installed.contains(x.catalog.id@) {
                    let k = choose|k: int| 0 <= k < before.len() && before[k] == sources[i];
                    assert(before.push(x)[k] == sources[i]);
                }
            } else {
                assert(before.push(x)[before.len() as int] == x);
            }
        }
    }
}

/// Each loaded plugin keeps its catalog entry and is enabled exactly when
/// its id is not listed as disabled.
pub proof fn law_disabled_ids_load_disabled(catalog: Seq<Plugin>, disabled: Seq<Seq<char>>, i: int)
    requires
        0 <= i < catalog.len(),
    ensures
        with_state(catalog, disabled).len() == catalog.len(),
        with_state(catalog, disabled)[i].plugin == catalog[i],
        with_state(catalog, disabled)[i].enabled <==> !disabled.contains(catalog[i].id@),
{
}

/// The indices `0..n`.
fn index_list(n: usize) -> (v: Vec<usize>)
    ensures
        v@ == all_indices(n as nat),
{
    let mut v: Vec<usize> = Vec::new();
    let mut i: usize = 0;
    while i < n
        invariant
            i <= n,
            v@ == all_indices(i as nat),
        decreases n - i,
    {
        v.push(i);
        i += 1;
        assert(v@ =~= all_indices(i as nat));
    }
    v
}

/// The categories of the entries, each once, in order of first appearance.
fn category_list(sources: &Vec<Source>) -> (cats: Vec<String>)
    ensures
        texts(cats@) == categories(sources@),
{
    let mut cats: Vec<String> = Vec::new();
    let mut i: usize = 0;
    while i < sources.len()
        invariant
            i <= sources.len(),
            texts(cats@) == categories(sources@.subrange(0, i as int)),
        decreases sources.len() - i,
    {
        let ghost prefix = sources@.subrange(0, i + 1);
        assert(prefix.drop_last() =~= sources@.subrange(0, i as int));
        assert(prefix.last() == sources@[i as int]);
        let ghost before = texts(cats@);
        match &sources[i].catalog.category {
            Some(c) => {
                assert(category_of(sources@[i as int]) == c@);
                if c.as_str().unicode_len() > 0 && !contains_word(&cats, c.as_str()) {
                    cats.push(c.clone());
                    assert(texts(cats@) =~= before.push(c@));
                }
            },
            None => {
                assert(category_of(sources@[i as int]).len() == 0);
            },
        }
        assert(texts(cats@) == categories(prefix));
        i += 1;
    }
    assert(sources@.subrange(0, i as int) =~= sources@);
    cats
}

/// The positions of the entries shown under tab `tab`.
fn tab_indices(sources: &Vec<Source>, cats: &Vec<String>, tab: usize) -> (v: Vec<usize>)
    ensures
        v@ == in_tab(sources@, texts(cats@), tab as nat),
{
    let mut v: Vec<usize> = Vec::new();
    let mut i: usize = 0;
    while i < sources.len()
        invariant
            i <= sources.len(),
            v@ == in_tab(sources@.subrange(0, i as int), texts(cats@), tab as nat),
        decreases sources.len() - i,
    {
        let ghost prefix = sources@.subrange(0, i + 1);
        assert(prefix.drop_last() =~= sources@.subrange(0, i as int));
        assert(prefix.last() == sources@[i as int]);
        let shown = if tab == 0 {
            true
        } else if tab <= cats.len() {
            let wanted = cats[tab - 1].as_str();
            assert(texts(cats@)[tab - 1] == wanted@);
            match &sources[i].catalog.category {
                Some(c) => same_text(c.as_str(), wanted),
                None => {
                    assert(wanted@.len() == 0 ==> wanted@ =~= Seq::<char>::empty());
                    wanted.unicode_len() == 0
                },
            }
        } else {
            false
        };
        assert(shown == shown_in_tab(sources@[i as int], texts(cats@), tab as nat));
        if shown {
            v.push(i);
        }
        i += 1;
    }
    assert(sources@.subrange(0, i as int) =~= sources@);
    v
}

/// The filtered indices are exactly the positions of the entries that pass.
proof fn lemma_matching_members(needle: Seq<char>, entries: Seq<PluginEntry>, i: int)
    requires
        0 <= i < entries.len(),
        entries.len() <= usize::MAX,
    ensures
        matching(needle, entries).contains(i as usize) == plugin_matches(
            needle,
            entries[i].plugin,
        ),
    decreases entries.len(),
{
    let rest = entries.drop_last();
    let last = (entries.len() - 1) as usize;
    lemma_matching_below(needle, rest);
    if i < entries.len() - 1 {
        lemma_matching_members(needle, rest, i);
        assert(rest[i] == entries[i]);
        if plugin_matches(needle, entries.last().plugin) {
            let before = matching(needle, rest);
            assert(before.push(last).contains(i as usize) == before.contains(i as usize)) by {
                if before.push(last).contains(i as usize) {
                    let k = choose|k: int| 0 <= k < before.push(last).len() && before.push(last)[k] == i as usize;
                    if k == before.len() {
                        assert(i as usize == last);
                    } else {
                        assert(before[k] == i as usize);
                    }
                }
                if before.contains(i as usize) {
                    let k = choose|k: int| 0 <= k < before.len() && before[k] == i as usize;
                    assert(before.push(last)[k] == i as usize);
                }
            }
        }
    } else {
        let before = matching(needle, rest);
        assert(!before.contains(last));
        if plugin_matches(needle, entries.last().plugin) {
            assert(before.push(last)[before.len() as int] == last);
        }
    }
}

/// Every filtered index is a position of the list.
proof fn lemma_matching_below(needle: Seq<char>, entries: Seq<PluginEntry>)
    requires
        entries.len() <= usize::MAX,
    ensures
        forall|k: int|
            0 <= k < matching(needle, entries).len() ==> (#[trigger] matching(needle, entries)[k] as int)
                < entries.len(),
    decreases entries.len(),
{
    if entries.len() > 0 {
        let before = matching(needle, entries.drop_last());
        lemma_matching_below(needle, entries.drop_last());
        let last = (entries.len() - 1) as usize;
        assert(last as int == entries.len() - 1);
        assert forall|k: int| 0 <= k < before.push(last).len() implies (
        #[trigger] before.push(last)[k] as int) < entries.len() by {
            if k < before.len() {
                assert(before.push(last)[k] == before[k]);
            }
        }
    }
}

/// A plugin is in the filtered list exactly when the filter (already
/// lowercased) is empty or occurs in its lowercased name, in its lowercased
/// id, or in its lowercased description.
pub proof fn law_filter_searches_name_id_and_description(
    needle: Seq<char>,
    entries: Seq<PluginEntry>,
    i: int,
)
    requires
        0 <= i < entries.len(),
        entries.len() <= usize::MAX,
    ensures
        matching(needle, entries).contains(i as usize) <==> (needle.len() == 0 || has_substring(
            lowercase(entries[i].plugin.name@),
            needle,
        ) || has_substring(lowercase(entries[i].plugin.id@), needle) || has_substring(
            lowercase(entries[i].plugin.description@),
            needle,
        )),
{
    lemma_matching_members(needle, entries, i);
}

/// A text that occurs in `hay` with one more character after it occurs
/// there without that character too.
proof fn lemma_shorter_needle(hay: Seq<char>, needle: Seq<char>, c: char)
    requires
        has_substring(hay, needle.push(c)),
    ensures
        has_substring(hay, needle),
{
    let i = choose|i: int| occurs_at(hay, needle.push(c), i);
    assert(hay.subrange(i, i + needle.len()) =~= needle.push(c).subrange(0, needle.len() as int));
    assert(needle.push(c).subrange(0, needle.len() as int) =~= needle);
    assert(occurs_at(hay, needle, i));
}

/// A plugin that passes a filter passes the filter without its last character.
proof fn lemma_shorter_filter_passes(needle: Seq<char>, c: char, p: Plugin)
    requires
        plugin_matches(needle.push(c), p),
    ensures
        plugin_matches(needle, p),
{
    if needle.len() > 0 {
        if has_substring(lowercase(p.name@), needle.push(c)) {
            lemma_shorter_needle(lowercase(p.name@), needle, c);
        } else if has_substring(lowercase(p.id@), needle.push(c)) {
            lemma_shorter_needle(lowercase(p.id@), needle, c);
        } else {
            lemma_shorter_needle(lowercase(p.description@), needle, c);
        }
    }
}

proof fn lemma_longer_needle_narrows(entries: Seq<PluginEntry>, needle: Seq<char>, c: char, k: int)
    requires
        0 <= k <= entries.len(),
        entries.len() <= usize::MAX,
    ensures
        matching(needle.push(c), entries.subrange(0, k)) == matching(
            needle,
            entries.subrange(0, k),
        ).filter(|i: usize| plugin_matches(needle.push(c), entries[i as int].plugin)),
    decreases k,
{
    reveal(Seq::filter);
    let longer = needle.push(c);
    let keep = |i: usize| plugin_matches(longer, entries[i as int].plugin);
    let part = entries.subrange(0, k);
    if k == 0 {
        assert(matching(needle, part) =~= Seq::<usize>::empty());
    } else {
        lemma_longer_needle_narrows(entries, needle, c, k - 1);
        assert(part.drop_last() =~= entries.subrange(0, k - 1));
        assert(part.last() == entries[k - 1]);
        let before = matching(needle, entries.subrange(0, k - 1));
        let last = (k - 1) as usize;
        assert(last as int == k - 1);
        if plugin_matches(needle, entries[k - 1].plugin) {
            assert(before.push(last).drop_last() =~= before);
        } else if plugin_matches(longer, entries[k - 1].plugin) {
            lemma_shorter_filter_passes(needle, c, entries[k - 1].plugin);
        }
    }
}

/// Typing one more character into an ASCII filter never brings in a
/// plugin: the plugins that pass the longer filter are, in the same order,
/// those of the shorter filter's list that also pass the longer one.
pub proof fn law_typing_narrows_filter(plugins: Seq<PluginEntry>, text: Seq<char>, c: char)
    requires
        is_ascii(text.push(c)),
        plugins.len() <= usize::MAX,
    ensures
        matching(ascii_lower(text.push(c)), plugins) == matching(ascii_lower(text), plugins).filter(
            |i: usize| plugin_matches(ascii_lower(text.push(c)), plugins[i as int].plugin),
        ),
{
    assert(ascii_lower(text.push(c)) =~= ascii_lower(text).push(ascii_lower_char(c)));
    lemma_longer_needle_narrows(plugins, ascii_lower(text), ascii_lower_char(c), plugins.len() as int);
    assert(plugins.subrange(0, plugins.len() as int) =~= plugins);
}

/// Marks each plugin of the catalog enabled unless its id is in `disabled`.
pub fn load_plugins(catalog: Vec<Plugin>, disabled: Vec<String>) -> (entries: Vec<PluginEntry>)
    ensures
        entries@ == with_state(catalog@, texts(disabled@)),
{
    let ghost all = catalog@;
    let mut rest = catalog;
    let mut entries: Vec<PluginEntry> = Vec::new();
    while rest.len() > 0
        invariant
            entries@.len() + rest@.len() == all.len(),
            rest@ == all.subrange(entries@.len() as int, all.len() as int),
            entries@ == with_state(all.subrange(0, entries@.len() as int), texts(disabled@)),
        decreases rest@.len(),
    {
        let ghost k: int = entries@.len() as int;
        let plugin = rest.remove(0);
        let enabled = !contains_word(&disabled, plugin.id.as_str());
        entries.push(PluginEntry { plugin, enabled });
        assert(rest@ =~= all.subrange(k + 1, all.len() as int));
        assert(entries@ =~= with_state(all.subrange(0, k + 1), texts(disabled@)));
    }
    assert(all.subrange(0, all.len() as int) =~= all);
    entries
}

fn entry_matches(needle: &String, p: &Plugin) -> (b: bool)
    ensures
        b == plugin_matches(needle@, *p),
{
    if needle.as_str().unicode_len() == 0 {
        return true;
    }
    let name = to_lower(p.name.as_str());
    if contains_text(name.as_str(), needle.as_str()) {
        return true;
    }
    let id = to_lower(p.id.as_str());
    if contains_text(id.as_str(), needle.as_str()) {
        return true;
    }
    let description = to_lower(p.description.as_str());
    contains_text(description.as_str(), needle.as_str())
}

fn up(i: usize, len: usize) -> (r: usize)
    ensures
        r == wrap_up(i, len as nat),
{
    if len == 0 {
        i
    } else if i == 0 {
        len - 1
    } else {
        i - 1
    }
}

fn down(i: usize, len: usize) -> (r: usize)
    requires
        len > 0 ==> i < usize::MAX,
    ensures
        r == wrap_down(i, len as nat),
{
    if len == 0 {
        i
    } else {
        (i + 1) % len
    }
}

/// Moving down and then up (or up and then down) a non-empty list returns
/// to the same item, and both moves keep a valid index inside the list.
pub proof fn law_moves_undo_each_other(i: usize, len: nat)
    requires
        0 < len <= usize::MAX,
        i < len,
    ensures
        wrap_up(wrap_down(i, len), len) == i,
        wrap_down(wrap_up(i, len), len) == i,
        wrap_down(i, len) < len,
        wrap_up(i, len) < len,
{
    if i + 1 < len {
        vstd::arithmetic::div_mod::lemma_small_mod((i + 1) as nat, len);
    } else {
        vstd::arithmetic::div_mod::lemma_mod_self_0(len as int);
    }
    if i == 0 {
        vstd::arithmetic::div_mod::lemma_mod_self_0(len as int);
    } else {
        vstd::arithmetic::div_mod::lemma_small_mod(i as nat, len);
    }
}

/// After the list changes, the kept selection points inside it, unless it is empty.
pub proof fn law_clamped_selection_in_range(selected: usize, len: nat)
    requires
        len <= usize::MAX,
    ensures
        len > 0 ==> clamped(selected, len) < len,
        len == 0 ==> clamped(selected, len) == 0,
{
}

impl App {
    /// The state on start-up: every plugin shown, nothing selected beyond the
    /// first entry, the main screen, nothing typed.
    pub fn new(plugins: Vec<PluginEntry>, local_settings: LocalSettings) -> (app: Self)
        ensures
            app.plugins == plugins,
            app.filtered@ == all_indices(plugins@.len()),
            app.selected == 0,
            !app.should_quit,
            app.mode == Mode::Normal,
            app.filter_text@ == Seq::<char>::empty(),
            app.input_buffer@ == Seq::<char>::empty(),
            app.status is None,
            app.settings_selected == 0,
            !app.settings_editing,
            app.settings_edit_buffer@ == Seq::<char>::empty(),
            app.local_settings == local_settings,
            app.placement_selected == 0,
            app.discovery_sources@.len() == 0,
            app.discovery_selected == 0,
            app.discovery_visible@.len() == 0,
            app.discovery_categories@.len() == 0,
            app.discovery_tab == 0,
            app.descriptions@ == Map::<Seq<char>, Seq<char>>::empty(),
            app.profile_path@ == Seq::<char>::empty(),
    {
        let filtered = index_list(plugins.len());
        App {
            plugins,
            filtered,
            selected: 0,
            should_quit: false,
            mode: Mode::Normal,
            filter_text: String::new(),
            input_buffer: String::new(),
            status: None,
            settings_selected: 0,
            settings_editing: false,
            settings_edit_buffer: String::new(),
            local_settings,
            placement_selected: 0,
            discovery_sources: Vec::new(),
            discovery_selected: 0,
            discovery_visible: Vec::new(),
            discovery_categories: Vec::new(),
            discovery_tab: 0,
            descriptions: FieldValues::new(),
            profile_path: String::new(),
        }
    }

    /// Replaces the plugin list with a freshly loaded one and filters it again.
    pub fn refresh(&mut self, plugins: Vec<PluginEntry>)
        ensures
            final(self).plugins == plugins,
            final(self).filtered@ == matching(lowercase(old(self).filter_text@), plugins@),
            final(self).selected == clamped(old(self).selected, final(self).filtered@.len()),
            *final(self) == (App {
                plugins: final(self).plugins,
                filtered: final(self).filtered,
                selected: final(self).selected,
                ..*old(self)
            }),
    {
        self.plugins = plugins;
        self.apply_filter();
    }

    /// Recomputes which plugins pass the filter text, keeping the selection
    /// inside the new list.
    pub fn apply_filter(&mut self)
        ensures
            final(self).filtered@ == matching(lowercase(old(self).filter_text@), old(self).plugins@),
            old(self).filter_text@.len() == 0 ==> final(self).filtered@ == all_indices(
                old(self).plugins@.len(),
            ),
            is_ascii(old(self).filter_text@) ==> final(self).filtered@ == matching(
                ascii_lower(old(self).filter_text@),
                old(self).plugins@,
            ),
            final(self).selected == clamped(old(self).selected, final(self).filtered@.len()),
            *final(self) == (App {
                filtered: final(self).filtered,
                selected: final(self).selected,
                ..*old(self)
            }),
    {
        let needle = to_lower(self.filter_text.as_str());
        let mut filtered: Vec<usize> = Vec::new();
        let mut i: usize = 0;
        while i < self.plugins.len()
            invariant
                i <= self.plugins.len(),
                filtered@ == matching(needle@, self.plugins@.subrange(0, i as int)),
            decreases self.plugins.len() - i,
        {
            let ghost prefix = self.plugins@.subrange(0, i + 1);
            assert(prefix.drop_last() =~= self.plugins@.subrange(0, i as int));
            if entry_matches(&needle, &self.plugins[i].plugin) {
                filtered.push(i);
            }
            i += 1;
        }
        assert(self.plugins@.subrange(0, i as int) =~= self.plugins@);
        proof {
            if self.filter_text@.len() == 0 {
                lemma_matching_empty(needle@, self.plugins@);
            }
        }
        self.filtered = filtered;
        if self.selected >= self.filtered.len() {
            self.selected = if self.filtered.len() == 0 {
                0
            } else {
                self.filtered.len() - 1
            };
        }
    }

    /// Moves the selection down one plugin, wrapping to the top.
    pub fn next(&mut self)
        requires
            old(self).filtered@.len() > 0 ==> old(self).selected < usize::MAX,
        ensures
            *final(self) == (App {
                selected: wrap_down(old(self).selected, old(self).filtered@.len()),
                ..*old(self)
            }),
    {
        self.selected = down(self.selected, self.filtered.len());
    }

    /// Moves the selection up one plugin, wrapping to the bottom.
    pub fn previous(&mut self)
        ensures
            *final(self) == (App {
                selected: wrap_up(old(self).selected, old(self).filtered@.len()),
                ..*old(self)
            }),
    {
        self.selected = up(self.selected, self.filtered.len());
    }

    /// Whether the selection points at a plugin.
    pub open spec fn has_selection(&self) -> bool {
        self.selected < self.filtered@.len() && self.filtered@[self.selected as int]
            < self.plugins@.len()
    }

    /// The selected plugin.
    pub open spec fn selection(&self) -> PluginEntry {
        self.plugins@[self.filtered@[self.selected as int] as int]
    }

    /// The selected plugin, if the selection points at one.
    pub fn selected_entry(&self) -> (r: Option<&PluginEntry>)
        ensures
            r is Some == self.has_selection(),
            r matches Some(e) ==> *e == self.selection(),
    {
        if self.selected < self.filtered.len() {
            let i = self.filtered[self.selected];
            if i < self.plugins.len() {
                return Some(&self.plugins[i]);
            }
        }
        None
    }

    /// The id of the selected plugin, if the selection points at one.
    pub fn selected_id(&self) -> (r: Option<String>)
        ensures
            r is Some == self.has_selection(),
            r matches Some(id) ==> id@ == self.selection().plugin.id@,
    {
        match self.selected_entry() {
            Some(e) => Some(e.plugin.id.clone()),
            None => None,
        }
    }

    /// Shows the registry entries that are not installed yet, from the top,
    /// under the first tab (every entry), with one tab per category.
    pub fn load_discovery(&mut self, all: Vec<Source>)
        ensures
            final(self).discovery_sources@ == not_installed(installed_ids(old(self).plugins@), all@),
            texts(final(self).discovery_categories@) == categories(final(self).discovery_sources@),
            final(self).discovery_visible@ == all_indices(final(self).discovery_sources@.len()),
            *final(self) == (App {
                discovery_sources: final(self).discovery_sources,
                discovery_selected: 0,
                discovery_visible: final(self).discovery_visible,
                discovery_categories: final(self).discovery_categories,
                discovery_tab: 0,
                ..*old(self)
            }),
    {
        let ghost ids = installed_ids(self.plugins@);
        let ghost whole = all@;
        let total = all.len();
        let mut rest = all;
        let mut kept: Vec<Source> = Vec::new();
        let mut taken: usize = 0;
        while rest.len() > 0
            invariant
                taken + rest@.len() == whole.len(),
                whole.len() == total,
                rest@ == whole.subrange(taken as int, whole.len() as int),
                kept@ == not_installed(ids, whole.subrange(0, taken as int)),
                ids == installed_ids(self.plugins@),
            decreases rest@.len(),
        {
            let s = rest.remove(0);
            let installed = self.is_installed(s.catalog.id.as_str());
            assert(whole.subrange(0, taken + 1).drop_last() =~= whole.subrange(0, taken as int));
            assert(whole.subrange(0, taken + 1).last() == s);
            if !installed {
                kept.push(s);
            }
            taken = taken + 1;
            assert(rest@ =~= whole.subrange(taken as int, whole.len() as int));
        }
        assert(whole.subrange(0, taken as int) =~= whole);
        let cats = category_list(&kept);
        let visible = index_list(kept.len());
        self.discovery_sources = kept;
        self.discovery_categories = cats;
        self.discovery_visible = visible;
        self.discovery_tab = 0;
        self.discovery_selected = 0;
    }

    fn is_installed(&self, id: &str) -> (b: bool)
        ensures
            b == installed_ids(self.plugins@).contains(id@),
    {
        let mut i: usize = 0;
        while i < self.plugins.len()
            invariant
                i <= self.plugins.len(),
                forall|j: int| 0 <= j < i ==> self.plugins@[j].plugin.id@ != id@,
            decreases self.plugins.len() - i,
        {
            if crate::text::same_text(self.plugins[i].plugin.id.as_str(), id) {
                assert(installed_ids(self.plugins@)[i as int] == id@);
                return true;
            }
            i += 1;
        }
        assert forall|j: int| 0 <= j < installed_ids(self.plugins@).len() implies installed_ids(
            self.plugins@,
        )[j] != id@ by {}
        false
    }

    /// Moves the discovery selection down the shown entries, wrapping to the top.
    pub fn discovery_next(&mut self)
        requires
            old(self).discovery_visible@.len() > 0 ==> old(self).discovery_selected < usize::MAX,
        ensures
            *final(self) == (App {
                discovery_selected: wrap_down(
                    old(self).discovery_selected,
                    old(self).discovery_visible@.len(),
                ),
                ..*old(self)
            }),
    {
        self.discovery_selected = down(self.discovery_selected, self.discovery_visible.len());
    }

    /// Moves the discovery selection up the shown entries, wrapping to the bottom.
    pub fn discovery_previous(&mut self)
        ensures
            *final(self) == (App {
                discovery_selected: wrap_up(
                    old(self).discovery_selected,
                    old(self).discovery_visible@.len(),
                ),
                ..*old(self)
            }),
    {
        self.discovery_selected = up(self.discovery_selected, self.discovery_visible.len());
    }

    /// Shows the entries of tab `tab`, from the top.
    fn show_tab(&mut self, tab: usize)
        ensures
            final(self).discovery_visible@ == in_tab(
                old(self).discovery_sources@,
                texts(old(self).discovery_categories@),
                tab as nat,
            ),
            *final(self) == (App {
                discovery_visible: final(self).discovery_visible,
                discovery_tab: tab,
                discovery_selected: 0,
                ..*old(self)
            }),
    {
        let visible = tab_indices(&self.discovery_sources, &self.discovery_categories, tab);
        self.discovery_visible = visible;
        self.discovery_tab = tab;
        self.discovery_selected = 0;
    }

    /// Switches to the next category tab, wrapping to the first, and shows
    /// its entries from the top.
    pub fn discovery_next_tab(&mut self)
        requires
            old(self).discovery_categories@.len() < usize::MAX,
            old(self).discovery_tab < usize::MAX,
        ensures
            next_tab_shown(*old(self), *final(self)),
    {
        let n = self.discovery_categories.len() + 1;
        self.show_tab(down(self.discovery_tab, n));
    }

    /// Switches to the previous category tab, wrapping to the last, and
    /// shows its entries from the top.
    pub fn discovery_previous_tab(&mut self)
        requires
            old(self).discovery_categories@.len() < usize::MAX,
        ensures
            previous_tab_shown(*old(self), *final(self)),
    {
        let n = self.discovery_categories.len() + 1;
        self.show_tab(up(self.discovery_tab, n));
    }

    /// Whether the discovery selection points at a registry entry.
    pub open spec fn has_discovery_selection(&self) -> bool {
        self.discovery_selected < self.discovery_visible@.len()
            && self.discovery_visible@[self.discovery_selected as int] < self.discovery_sources@.len()
    }

    /// The selected registry entry.
    pub open spec fn discovery_selection(&self) -> Source {
        self.discovery_sources@[self.discovery_visible@[self.discovery_selected as int] as int]
    }

    /// The selected registry entry, if the selection points at one.
    pub fn selected_source(&self) -> (r: Option<&Source>)
        ensures
            r is Some == self.has_discovery_selection(),
            r matches Some(s) ==> *s == self.discovery_selection(),
    {
        if self.discovery_selected < self.discovery_visible.len() {
            let i = self.discovery_visible[self.discovery_selected];
            if i < self.discovery_sources.len() {
                return Some(&self.discovery_sources[i]);
            }
        }
        None
    }

    /// Records the description fetched for a repository (empty when none
    /// was found), so that it is not fetched again this session.
    pub fn store_description(&mut self, repo: &str, fetched: Option<String>)
        ensures
            final(self).descriptions@ == old(self).descriptions@.insert(
                repo@,
                match fetched {
                    Some(d) => d@,
                    None => Seq::empty(),
                },
            ),
            *final(self) == (App { descriptions: final(self).descriptions, ..*old(self) }),
    {
        let text = match fetched {
            Some(d) => d,
            None => String::new(),
        };
        self.descriptions.insert(repo.to_string(), text);
    }

    /// The description shown for a registry entry: the registry's own, else
    /// the one fetched for its repository; `None` when there is neither yet.
    pub fn description_of(&self, s: &Source) -> (r: Option<String>)
        ensures
            r matches Some(d) ==> d@ == shown_description(self.descriptions@, *s),
            r is None == (s.catalog.description@.len() == 0 && !self.descriptions@.contains_key(
                s.repo@,
            )),
    {
        if s.catalog.description.as_str().unicode_len() > 0 {
            Some(s.catalog.description.clone())
        } else {
            match self.descriptions.get(s.repo.as_str()) {
                Some(d) => Some(d.clone()),
                None => None,
            }
        }
    }

    /// After an install from the registry: when it succeeded and the plugin
    /// `id` is now installed, every plugin is shown, that plugin is selected,
    /// and the placement screen opens at the center; the answer is then
    /// `false`. Otherwise nothing changes and the answer is `true`: the
    /// registry list is to be loaded again.
    pub fn finish_install(&mut self, id: &str, succeeded: bool) -> (reload: bool)
        ensures
            placed_after_install(*old(self), *final(self), id@, succeeded),
            reload == !(succeeded && installed_ids(old(self).plugins@).contains(id@)),
    {
        if !succeeded {
            return true;
        }
        let j = match self.position_of(id) {
            Some(j) => j,
            None => {
                return true;
            },
        };
        assert(installed_ids(self.plugins@)[j as int] == id@);
        self.filter_text = String::new();
        self.filtered = index_list(self.plugins.len());
        self.selected = j;
        self.mode = Mode::Placement;
        self.placement_selected = 1;
        false
    }

    fn position_of(&self, id: &str) -> (r: Option<usize>)
        ensures
            r matches Some(j) ==> j < self.plugins@.len() && self.plugins@[j as int].plugin.id@
                == id@ && forall|k: int| 0 <= k < j ==> self.plugins@[k].plugin.id@ != id@,
            r is None ==> !installed_ids(self.plugins@).contains(id@),
    {
        let mut j: usize = 0;
        while j < self.plugins.len()
            invariant
                j <= self.plugins.len(),
                forall|k: int| 0 <= k < j ==> self.plugins@[k].plugin.id@ != id@,
            decreases self.plugins.len() - j,
        {
            if same_text(self.plugins[j].plugin.id.as_str(), id) {
                return Some(j);
            }
            j += 1;
        }
        assert forall|k: int| 0 <= k < installed_ids(self.plugins@).len() implies installed_ids(
            self.plugins@,
        )[k] != id@ by {}
        None
    }

    /// The ids of the installed plugins.
    pub fn installed_id_list(&self) -> (r: Vec<String>)
        ensures
            texts(r@) == installed_ids(self.plugins@),
    {
        let mut r: Vec<String> = Vec::new();
        let mut i: usize = 0;
        while i < self.plugins.len()
            invariant
                i <= self.plugins.len(),
                texts(r@) == installed_ids(self.plugins@.subrange(0, i as int)),
            decreases self.plugins.len() - i,
        {
            let ghost before = texts(r@);
            r.push(self.plugins[i].plugin.id.clone());
            i += 1;
            assert(texts(r@) =~= before.push(self.plugins@[i - 1].plugin.id@));
            assert(installed_ids(self.plugins@.subrange(0, i as int)) =~= installed_ids(
                self.plugins@.subrange(0, i - 1),
            ).push(self.plugins@[i - 1].plugin.id@));
        }
        assert(self.plugins@.subrange(0, i as int) =~= self.plugins@);
        r
    }
}

} // verus!
