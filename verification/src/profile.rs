//! Profiles: a whole setup (installed plugins, their enabled state, their
//! git remotes and the staged settings) captured in one value, and the
//! import that replays one against the current system.
use vstd::prelude::*;
use crate::app::PluginEntry;
use crate::settings::{LocalSettings, SettingsTable, law_merge_lookup, lookup, merged};
use crate::text::{contains_word, texts};

verus! {

/// One plugin of a profile.
pub struct ProfileEntry {
    pub id: String,
    pub name: String,
    pub repo: Option<String>,
    pub enabled: bool,
}

/// A captured setup.
pub struct Profile {
    pub version: u32,
    pub plugins: Vec<ProfileEntry>,
    pub settings: SettingsTable,
}

/// What an import did.
pub struct ImportSummary {
    pub installed: usize,
    pub enabled: usize,
    pub disabled: usize,
    pub settings_applied: usize,
    pub errors: Vec<String>,
}

/// A profile entry as the import sees it.
pub struct EntryView {
    pub id: Seq<char>,
    pub repo: Option<Seq<char>>,
    pub enabled: bool,
}

/// The view of a profile entry.
pub open spec fn entry_view(e: ProfileEntry) -> EntryView {
    EntryView {
        id: e.id@,
        repo: match e.repo {
            Some(r) => Some(r@),
            None => None,
        },
        enabled: e.enabled,
    }
}

/// Where an import stands.
#[derive(PartialEq, Eq, Structural, Clone, Copy)]
pub enum ImportPhase {
    /// Looking for the next entry to act on.
    Scanning,
    /// Waiting for the install of the current entry.
    Installing,
    /// Waiting for the enable or disable of the current entry.
    Toggling,
    /// Waiting for the profile's settings to be merged and saved.
    Merging,
    /// Done.
    Finished,
}

/// What the caller does next for an import.
pub enum ImportAction {
    /// Install the plugin from this repository (`omarchy plugin add <repo> --yes`).
    Install(String),
    /// Enable this plugin (no placement).
    Enable(String),
    /// Disable this plugin.
    Disable(String),
    /// Call `merge_settings` on the local settings, then save them.
    MergeSettings,
    /// Nothing is left to do.
    Done,
}

/// How the last action went.
pub enum Outcome {
    Succeeded,
    Failed(String),
}

/// An import action as texts.
pub enum Planned {
    Install(Seq<char>),
    Enable(Seq<char>),
    Disable(Seq<char>),
    MergeSettings,
    Done,
}

/// The view of an import action.
pub open spec fn planned(a: ImportAction) -> Planned {
    match a {
        ImportAction::Install(r) => Planned::Install(r@),
        ImportAction::Enable(i) => Planned::Enable(i@),
        ImportAction::Disable(i) => Planned::Disable(i@),
        ImportAction::MergeSettings => Planned::MergeSettings,
        ImportAction::Done => Planned::Done,
    }
}

/// The counters of an import, as numbers and texts.
pub struct ImportModel {
    pub cursor: nat,
    pub phase: ImportPhase,
    pub installed: nat,
    pub enabled: nat,
    pub disabled: nat,
    pub errors: Seq<Seq<char>>,
}

impl ImportModel {
    /// Every entry before the cursor is counted exactly once: as enabled,
    /// as disabled, or as an error; installs happened only for those
    /// entries, and for the current one while it is being toggled.
    pub open spec fn accounted(self, total: nat) -> bool {
        &&& self.cursor <= total
        &&& self.enabled + self.disabled + self.errors.len() == self.cursor
        &&& self.installed <= self.cursor + if self.phase == ImportPhase::Toggling {
            1int
        } else {
            0int
        }
        &&& (self.phase == ImportPhase::Installing || self.phase == ImportPhase::Toggling)
            ==> self.cursor < total
        &&& (self.phase == ImportPhase::Merging || self.phase == ImportPhase::Finished)
            ==> self.cursor == total
    }
}

/// The action that matches an entry's saved state.
pub open spec fn toggle_of(e: EntryView) -> Planned {
    if e.enabled {
        Planned::Enable(e.id)
    } else {
        Planned::Disable(e.id)
    }
}

/// The error for an entry that is missing and has no repository.
pub open spec fn missing_error(id: Seq<char>) -> Seq<char> {
    id + ": not present and no repo to install from"@
}

/// The error for an entry whose install failed.
pub open spec fn install_error(id: Seq<char>, why: Seq<char>) -> Seq<char> {
    id + ": install failed: "@ + why
}

/// The error for an entry whose enable or disable failed.
pub open spec fn toggle_error(id: Seq<char>, why: Seq<char>) -> Seq<char> {
    id + ": "@ + why
}

/// From the cursor on, the first entry to act on: an installed one is
/// toggled, a missing one with a repository is installed, a missing one
/// without is recorded as an error and passed over. After the last entry,
/// the settings are merged when the profile has any.
pub open spec fn scan(
    entries: Seq<EntryView>,
    present: Seq<Seq<char>>,
    has_settings: bool,
    m: ImportModel,
) -> (ImportModel, Planned)
    decreases entries.len() - m.cursor,
{
    if m.cursor >= entries.len() {
        if has_settings {
            (ImportModel { phase: ImportPhase::Merging, ..m }, Planned::MergeSettings)
        } else {
            (ImportModel { phase: ImportPhase::Finished, ..m }, Planned::Done)
        }
    } else {
        let e = entries[m.cursor as int];
        if present.contains(e.id) {
            (ImportModel { phase: ImportPhase::Toggling, ..m }, toggle_of(e))
        } else if e.repo is Some {
            (ImportModel { phase: ImportPhase::Installing, ..m }, Planned::Install(e.repo->0))
        } else {
            scan(
                entries,
                present,
                has_settings,
                ImportModel { cursor: m.cursor + 1, errors: m.errors.push(missing_error(e.id)), ..m },
            )
        }
    }
}

/// One step of an import, given how the last action went.
pub open spec fn import_step(
    entries: Seq<EntryView>,
    present: Seq<Seq<char>>,
    has_settings: bool,
    m: ImportModel,
    outcome: Outcome,
) -> (ImportModel, Planned) {
    match m.phase {
        ImportPhase::Scanning => scan(entries, present, has_settings, m),
        ImportPhase::Installing => {
            let e = entries[m.cursor as int];
            match outcome {
                Outcome::Succeeded => (
                    ImportModel { installed: m.installed + 1, phase: ImportPhase::Toggling, ..m },
                    toggle_of(e),
                ),
                Outcome::Failed(why) => scan(
                    entries,
                    present,
                    has_settings,
                    ImportModel {
                        cursor: m.cursor + 1,
                        errors: m.errors.push(install_error(e.id, why@)),
                        ..m
                    },
                ),
            }
        },
        ImportPhase::Toggling => {
            let e = entries[m.cursor as int];
            let counted = match outcome {
                Outcome::Succeeded => if e.enabled {
                    ImportModel { enabled: m.enabled + 1, ..m }
                } else {
                    ImportModel { disabled: m.disabled + 1, ..m }
                },
                Outcome::Failed(why) => ImportModel {
                    errors: m.errors.push(toggle_error(e.id, why@)),
                    ..m
                },
            };
            scan(entries, present, has_settings, ImportModel { cursor: m.cursor + 1, ..counted })
        },
        ImportPhase::Merging => (ImportModel { phase: ImportPhase::Finished, ..m }, Planned::Done),
        ImportPhase::Finished => (m, Planned::Done),
    }
}

/// Scanning keeps every entry accounted for.
proof fn lemma_scan_accounted(
    entries: Seq<EntryView>,
    present: Seq<Seq<char>>,
    has_settings: bool,
    m: ImportModel,
)
    requires
        m.cursor <= entries.len(),
        m.enabled + m.disabled + m.errors.len() == m.cursor,
        m.installed <= m.cursor,
    ensures
        scan(entries, present, has_settings, m).0.accounted(entries.len()),
        scan(entries, present, has_settings, m).0.installed == m.installed,
        scan(entries, present, has_settings, m).0.enabled == m.enabled,
        scan(entries, present, has_settings, m).0.disabled == m.disabled,
        scan(entries, present, has_settings, m).0.cursor >= m.cursor,
        scan(entries, present, has_settings, m).1 is Done ==> scan(
            entries,
            present,
            has_settings,
            m,
        ).0.phase == ImportPhase::Finished,
    decreases entries.len() - m.cursor,
{
    if m.cursor < entries.len() {
        let e = entries[m.cursor as int];
        if !present.contains(e.id) && e.repo is None {
            lemma_scan_accounted(
                entries,
                present,
                has_settings,
                ImportModel { cursor: m.cursor + 1, errors: m.errors.push(missing_error(e.id)), ..m },
            );
        }
    }
}

/// Every step of an import keeps every entry accounted for exactly once;
/// in particular, once the import is done, the enabled, disabled and error
/// counts add up to the number of entries in the profile.
pub proof fn law_import_accounts_every_entry(
    entries: Seq<EntryView>,
    present: Seq<Seq<char>>,
    has_settings: bool,
    m: ImportModel,
    outcome: Outcome,
)
    requires
        m.accounted(entries.len()),
    ensures
        import_step(entries, present, has_settings, m, outcome).0.accounted(entries.len()),
        import_step(entries, present, has_settings, m, outcome).1 is Done ==> import_step(
            entries,
            present,
            has_settings,
            m,
            outcome,
        ).0.enabled + import_step(entries, present, has_settings, m, outcome).0.disabled
            + import_step(entries, present, has_settings, m, outcome).0.errors.len()
            == entries.len(),
{
    match m.phase {
        ImportPhase::Scanning => {
            lemma_scan_accounted(entries, present, has_settings, m);
        },
        ImportPhase::Installing => {
            let e = entries[m.cursor as int];
            match outcome {
                Outcome::Succeeded => {},
                Outcome::Failed(why) => {
                    lemma_scan_accounted(
                        entries,
                        present,
                        has_settings,
                        ImportModel {
                            cursor: m.cursor + 1,
                            errors: m.errors.push(install_error(e.id, why@)),
                            ..m
                        },
                    );
                },
            }
        },
        ImportPhase::Toggling => {
            let e = entries[m.cursor as int];
            let counted = match outcome {
                Outcome::Succeeded => if e.enabled {
                    ImportModel { enabled: m.enabled + 1, ..m }
                } else {
                    ImportModel { disabled: m.disabled + 1, ..m }
                },
                Outcome::Failed(why) => ImportModel {
                    errors: m.errors.push(toggle_error(e.id, why@)),
                    ..m
                },
            };
            lemma_scan_accounted(
                entries,
                present,
                has_settings,
                ImportModel { cursor: m.cursor + 1, ..counted },
            );
        },
        _ => {},
    }
}

/// An import in progress: the caller asks for the next action, performs
/// it, and reports how it went.
pub struct ImportRun {
    profile: Profile,
    present: Vec<String>,
    cursor: usize,
    phase: ImportPhase,
    summary: ImportSummary,
}

impl ImportRun {
    /// The profile's entries.
    pub closed spec fn entries(&self) -> Seq<EntryView> {
        self.profile.plugins@.map_values(|e: ProfileEntry| entry_view(e))
    }

    /// The ids installed when the import began.
    pub closed spec fn present(&self) -> Seq<Seq<char>> {
        texts(self.present@)
    }

    /// Whether the profile carries settings.
    pub open spec fn has_settings(&self) -> bool {
        self.settings() != Map::<Seq<char>, Map<Seq<char>, Seq<char>>>::empty()
    }

    /// The profile's settings.
    pub closed spec fn settings(&self) -> Map<Seq<char>, Map<Seq<char>, Seq<char>>> {
        self.profile.settings@
    }

    /// The number of (plugin, key) pairs in the profile's settings.
    pub closed spec fn settings_pairs(&self) -> nat {
        self.profile.settings.pair_count()
    }

    /// The counters so far.
    pub closed spec fn model(&self) -> ImportModel {
        ImportModel {
            cursor: self.cursor as nat,
            phase: self.phase,
            installed: self.summary.installed as nat,
            enabled: self.summary.enabled as nat,
            disabled: self.summary.disabled as nat,
            errors: texts(self.summary.errors@),
        }
    }

    /// The number of settings merged so far.
    pub closed spec fn applied(&self) -> nat {
        self.summary.settings_applied as nat
    }

    /// The run is in a state that its own steps reach.
    pub closed spec fn wf(&self) -> bool {
        self.model().accounted(self.entries().len())
    }

    /// An import of `profile` on a system where `currently_installed` are installed.
    pub fn new(profile: Profile, currently_installed: Vec<String>) -> (r: Self)
        ensures
            r.wf(),
            r.entries() == profile.plugins@.map_values(|e: ProfileEntry| entry_view(e)),
            r.present() == texts(currently_installed@),
            r.settings() == profile.settings@,
            r.settings_pairs() == profile.settings.pair_count(),
            r.model() == (ImportModel {
                cursor: 0,
                phase: ImportPhase::Scanning,
                installed: 0,
                enabled: 0,
                disabled: 0,
                errors: Seq::empty(),
            }),
            r.applied() == 0,
    {
        let r = ImportRun {
            profile,
            present: currently_installed,
            cursor: 0,
            phase: ImportPhase::Scanning,
            summary: ImportSummary {
                installed: 0,
                enabled: 0,
                disabled: 0,
                settings_applied: 0,
                errors: Vec::new(),
            },
        };
        assert(texts(r.summary.errors@) =~= Seq::<Seq<char>>::empty());
        r
    }

    fn toggle(&self) -> (a: ImportAction)
        requires
            self.cursor < self.profile.plugins.len(),
        ensures
            planned(a) == toggle_of(self.entries()[self.cursor as int]),
    {
        let e = &self.profile.plugins[self.cursor];
        if e.enabled {
            ImportAction::Enable(e.id.clone())
        } else {
            ImportAction::Disable(e.id.clone())
        }
    }

    fn scan(&mut self) -> (a: ImportAction)
        requires
            old(self).cursor <= old(self).profile.plugins.len(),
            old(self).summary.enabled + old(self).summary.disabled + old(self).summary.errors.len()
                == old(self).cursor,
        ensures
            (final(self).model(), planned(a)) == scan(
                old(self).entries(),
                old(self).present(),
                old(self).has_settings(),
                old(self).model(),
            ),
            final(self).profile == old(self).profile,
            final(self).present == old(self).present,
            final(self).summary.settings_applied == old(self).summary.settings_applied,
    {
        let ghost target = scan(self.entries(), self.present(), self.has_settings(), self.model());
        while self.cursor < self.profile.plugins.len()
            invariant
                self.cursor <= self.profile.plugins.len(),
                self.summary.enabled + self.summary.disabled + self.summary.errors.len()
                    == self.cursor,
                self.profile == old(self).profile,
                self.present == old(self).present,
                self.summary.settings_applied == old(self).summary.settings_applied,
                scan(self.entries(), self.present(), self.has_settings(), self.model()) == target,
                target == scan(
                    old(self).entries(),
                    old(self).present(),
                    old(self).has_settings(),
                    old(self).model(),
                ),
            decreases self.profile.plugins.len() - self.cursor,
        {
            let ghost m = self.model();
            let i = self.cursor;
            assert(self.entries()[i as int] == entry_view(self.profile.plugins@[i as int]));
            if contains_word(&self.present, self.profile.plugins[i].id.as_str()) {
                self.phase = ImportPhase::Toggling;
                let a = self.toggle();
                assert(self.model() == (ImportModel { phase: ImportPhase::Toggling, ..m }));
                return a;
            }
            match &self.profile.plugins[i].repo {
                Some(r) => {
                    let a = ImportAction::Install(r.clone());
                    self.phase = ImportPhase::Installing;
                    assert(self.model() == (ImportModel { phase: ImportPhase::Installing, ..m }));
                    return a;
                },
                None => {},
            }
            let msg = self.profile.plugins[i].id.clone().concat(
                ": not present and no repo to install from",
            );
            self.summary.errors.push(msg);
            self.cursor = i + 1;
            assert(texts(self.summary.errors@) =~= m.errors.push(
                missing_error(self.entries()[i as int].id),
            ));
        }
        if self.profile.settings.is_empty() {
            self.phase = ImportPhase::Finished;
            ImportAction::Done
        } else {
            self.phase = ImportPhase::Merging;
            ImportAction::MergeSettings
        }
    }

    /// The next action, given how the previous one went (the outcome is
    /// ignored when the run is scanning, merging or finished).
    pub fn step(&mut self, outcome: Outcome) -> (a: ImportAction)
        requires
            old(self).wf(),
        ensures
            final(self).wf(),
            (final(self).model(), planned(a)) == import_step(
                old(self).entries(),
                old(self).present(),
                old(self).has_settings(),
                old(self).model(),
                outcome,
            ),
            final(self).entries() == old(self).entries(),
            final(self).present() == old(self).present(),
            final(self).settings() == old(self).settings(),
            final(self).settings_pairs() == old(self).settings_pairs(),
            final(self).applied() == old(self).applied(),
    {
        proof {
            law_import_accounts_every_entry(
                self.entries(),
                self.present(),
                self.has_settings(),
                self.model(),
                outcome,
            );
        }
        let ghost m = self.model();
        let total = self.profile.plugins.len();
        assert(self.entries().len() == total);
        assert(m.accounted(self.entries().len()));
        match self.phase {
            ImportPhase::Scanning => self.scan(),
            ImportPhase::Installing => {
                match outcome {
                    Outcome::Succeeded => {
                        self.summary.installed = self.summary.installed + 1;
                        self.phase = ImportPhase::Toggling;
                        self.toggle()
                    },
                    Outcome::Failed(why) => {
                        let i = self.cursor;
                        let msg = self.profile.plugins[i].id.clone().concat(
                            ": install failed: ",
                        ).concat(why.as_str());
                        self.summary.errors.push(msg);
                        self.cursor = i + 1;
                        assert(texts(self.summary.errors@) =~= m.errors.push(
                            install_error(self.entries()[i as int].id, why@),
                        ));
                        self.scan()
                    },
                }
            },
            ImportPhase::Toggling => {
                let i = self.cursor;
                match outcome {
                    Outcome::Succeeded => {
                        if self.profile.plugins[i].enabled {
                            self.summary.enabled = self.summary.enabled + 1;
                        } else {
                            self.summary.disabled = self.summary.disabled + 1;
                        }
                    },
                    Outcome::Failed(why) => {
                        let msg = self.profile.plugins[i].id.clone().concat(": ").concat(
                            why.as_str(),
                        );
                        self.summary.errors.push(msg);
                        assert(texts(self.summary.errors@) =~= m.errors.push(
                            toggle_error(self.entries()[i as int].id, why@),
                        ));
                    },
                }
                self.cursor = i + 1;
                self.scan()
            },
            ImportPhase::Merging => {
                self.phase = ImportPhase::Finished;
                ImportAction::Done
            },
            ImportPhase::Finished => ImportAction::Done,
        }
    }

    /// Stores every (plugin, key) pair of the profile's settings into
    /// `local`, and counts them in the summary.
    pub fn merge_settings(&mut self, local: &mut LocalSettings)
        requires
            old(self).settings_pairs() <= usize::MAX,
        ensures
            final(local).values@ == merged(old(local).values@, old(self).settings()),
            final(self).applied() == old(self).settings_pairs(),
            final(self).model() == old(self).model(),
            final(self).wf() == old(self).wf(),
            final(self).entries() == old(self).entries(),
            final(self).present() == old(self).present(),
            final(self).settings() == old(self).settings(),
            final(self).settings_pairs() == old(self).settings_pairs(),
    {
        let n = local.values.merge(&self.profile.settings);
        self.summary.settings_applied = n;
    }

    /// What the import has done so far.
    pub fn summary(&self) -> (s: &ImportSummary)
        ensures
            s.installed == self.model().installed,
            s.enabled == self.model().enabled,
            s.disabled == self.model().disabled,
            texts(s.errors@) == self.model().errors,
            s.settings_applied == self.applied(),
    {
        &self.summary
    }
}

/// The view of an optional text.
pub open spec fn opt_text(o: Option<String>) -> Option<Seq<char>> {
    match o {
        Some(s) => Some(s@),
        None => None,
    }
}

/// The entries that an export writes for the installed plugins, each with
/// the git remote found for it.
pub open spec fn exported_entries(plugins: Seq<PluginEntry>, repos: Seq<Option<String>>) -> Seq<
    EntryView,
> {
    Seq::new(
        plugins.len(),
        |i: int|
            EntryView {
                id: plugins[i].plugin.id@,
                repo: opt_text(repos[i]),
                enabled: plugins[i].enabled,
            },
    )
}

/// The profile of the current setup: every installed plugin with its id,
/// name, git remote (`repos[i]` belongs to `plugins[i]`) and enabled state,
/// and a copy of the staged settings; format version 1.
pub fn build_profile(
    plugins: &Vec<PluginEntry>,
    repos: Vec<Option<String>>,
    local: &LocalSettings,
) -> (p: Profile)
    requires
        repos@.len() == plugins@.len(),
    ensures
        p.version == 1,
        p.plugins@.map_values(|e: ProfileEntry| entry_view(e)) == exported_entries(
            plugins@,
            repos@,
        ),
        forall|i: int| 0 <= i < p.plugins@.len() ==> #[trigger] p.plugins@[i].name@ == plugins@[i].plugin.name@,
        p.plugins@.len() == plugins@.len(),
        forall|i: int|
            0 <= i < p.plugins@.len() ==> #[trigger] opt_text(p.plugins@[i].repo) == opt_text(
                repos@[i],
            ) && p.plugins@[i].id@ == plugins@[i].plugin.id@ && p.plugins@[i].enabled
                == plugins@[i].enabled,
        p.settings@ == local.values@,
        p.settings.pair_count() == local.values.pair_count(),
{
    let ghost all_repos = repos@;
    let mut rest = repos;
    let mut entries: Vec<ProfileEntry> = Vec::new();
    let mut i: usize = 0;
    while i < plugins.len()
        invariant
            i <= plugins.len(),
            entries@.len() == i,
            rest@ == all_repos.subrange(i as int, all_repos.len() as int),
            all_repos.len() == plugins@.len(),
            forall|j: int|
                0 <= j < i ==> #[trigger] entry_view(entries@[j]) == exported_entries(
                    plugins@,
                    all_repos,
                )[j] && entries@[j].name@ == plugins@[j].plugin.name@,
        decreases plugins.len() - i,
    {
        let repo = rest.remove(0);
        let e = &plugins[i];
        entries.push(
            ProfileEntry {
                id: e.plugin.id.clone(),
                name: e.plugin.name.clone(),
                repo,
                enabled: e.enabled,
            },
        );
        i += 1;
        assert(rest@ =~= all_repos.subrange(i as int, all_repos.len() as int));
    }
    assert(entries@.map_values(|e: ProfileEntry| entry_view(e)) =~= exported_entries(
        plugins@,
        all_repos,
    ));
    assert forall|j: int| 0 <= j < entries@.len() implies #[trigger] entries@[j].name@
        == plugins@[j].plugin.name@ by {
        assert(entry_view(entries@[j]) == exported_entries(plugins@, all_repos)[j]);
    }
    assert forall|j: int| 0 <= j < entries@.len() implies #[trigger] opt_text(entries@[j].repo)
        == opt_text(all_repos[j]) && entries@[j].id@ == plugins@[j].plugin.id@
        && entries@[j].enabled == plugins@[j].enabled by {
        assert(entry_view(entries@[j]) == exported_entries(plugins@, all_repos)[j]);
    }
    Profile { version: 1, plugins: entries, settings: local.values.copy() }
}

/// Importing an exported profile on a system where the plugin is installed
/// enables it if it was enabled and disables it if it was disabled.
pub proof fn law_import_matches_exported_state(
    plugins: Seq<PluginEntry>,
    repos: Seq<Option<String>>,
    present: Seq<Seq<char>>,
    has_settings: bool,
    m: ImportModel,
)
    requires
        repos.len() == plugins.len(),
        m.cursor < plugins.len(),
        present.contains(plugins[m.cursor as int].plugin.id@),
    ensures
        scan(exported_entries(plugins, repos), present, has_settings, m).1 == if plugins[m.cursor as int].enabled {
            Planned::Enable(plugins[m.cursor as int].plugin.id@)
        } else {
            Planned::Disable(plugins[m.cursor as int].plugin.id@)
        },
{
}


/// An import run for `n` steps from `m` in which every action succeeds:
/// the model reached and the actions asked for, in order.
pub open spec fn run_succeeding(
    entries: Seq<EntryView>,
    present: Seq<Seq<char>>,
    has_settings: bool,
    m: ImportModel,
    n: nat,
) -> (ImportModel, Seq<Planned>)
    decreases n,
{
    if n == 0 {
        (m, Seq::empty())
    } else {
        let first = import_step(entries, present, has_settings, m, Outcome::Succeeded);
        let rest = run_succeeding(entries, present, has_settings, first.0, (n - 1) as nat);
        (rest.0, seq![first.1] + rest.1)
    }
}

/// The number of entries saved as enabled.
pub open spec fn enabled_count(entries: Seq<EntryView>) -> nat
    decreases entries.len(),
{
    if entries.len() == 0 {
        0
    } else {
        enabled_count(entries.drop_last()) + if entries.last().enabled {
            1nat
        } else {
            0nat
        }
    }
}

/// The enables and disables for the entries from position `from` on, in order.
pub open spec fn toggles(entries: Seq<EntryView>, from: int) -> Seq<Planned> {
    Seq::new((entries.len() - from) as nat, |i: int| toggle_of(entries[from + i]))
}

/// The last actions of an import: the settings merge when there are
/// settings, then the end.
pub open spec fn ending(has_settings: bool) -> Seq<Planned> {
    if has_settings {
        seq![Planned::MergeSettings, Planned::Done]
    } else {
        seq![Planned::Done]
    }
}

/// The counters of an import that has not started.
pub open spec fn start_model() -> ImportModel {
    ImportModel {
        cursor: 0,
        phase: ImportPhase::Scanning,
        installed: 0,
        enabled: 0,
        disabled: 0,
        errors: Seq::empty(),
    }
}

/// The counters of an import in which every entry was already installed
/// and every enable and disable succeeded.
pub open spec fn clean_finish(entries: Seq<EntryView>) -> ImportModel {
    ImportModel {
        cursor: entries.len(),
        phase: ImportPhase::Finished,
        installed: 0,
        enabled: enabled_count(entries),
        disabled: (entries.len() - enabled_count(entries)) as nat,
        errors: Seq::empty(),
    }
}

/// The counters while the entry at `k` is toggled, every earlier one done.
spec fn toggling_at(entries: Seq<EntryView>, k: nat) -> ImportModel {
    ImportModel {
        cursor: k,
        phase: ImportPhase::Toggling,
        installed: 0,
        enabled: enabled_count(entries.subrange(0, k as int)),
        disabled: (k - enabled_count(entries.subrange(0, k as int))) as nat,
        errors: Seq::empty(),
    }
}

proof fn lemma_enabled_count_bound(entries: Seq<EntryView>)
    ensures
        enabled_count(entries) <= entries.len(),
    decreases entries.len(),
{
    if entries.len() > 0 {
        lemma_enabled_count_bound(entries.drop_last());
    }
}

/// From the entry at `k` on, with every entry installed and every action
/// succeeding, the import toggles each remaining entry in order, merges
/// the settings if there are any, and finishes cleanly.
proof fn lemma_run_from(
    entries: Seq<EntryView>,
    present: Seq<Seq<char>>,
    has_settings: bool,
    k: nat,
)
    requires
        k < entries.len(),
        forall|i: int| 0 <= i < entries.len() ==> present.contains(#[trigger] entries[i].id),
    ensures
        run_succeeding(
            entries,
            present,
            has_settings,
            toggling_at(entries, k),
            (entries.len() - k + if has_settings {
                1int
            } else {
                0int
            }) as nat,
        ) == (clean_finish(entries), toggles(entries, k as int + 1) + ending(has_settings)),
    decreases entries.len() - k,
{
    reveal_with_fuel(run_succeeding, 3);
    let n = entries.len();
    let ki: int = k as int;
    let m = toggling_at(entries, k);
    let steps = (n - k + if has_settings {
        1int
    } else {
        0int
    }) as nat;
    let first = import_step(entries, present, has_settings, m, Outcome::Succeeded);
    let before = entries.subrange(0, k as int);
    let upto = entries.subrange(0, ki + 1);
    assert(upto.drop_last() =~= before);
    assert(upto.last() == entries[k as int]);
    lemma_enabled_count_bound(before);
    let counted = if entries[k as int].enabled {
        ImportModel { enabled: m.enabled + 1, ..m }
    } else {
        ImportModel { disabled: m.disabled + 1, ..m }
    };
    let next = ImportModel { cursor: k + 1, ..counted };
    assert(first == scan(entries, present, has_settings, next));
    assert(next.enabled == enabled_count(upto));
    assert(next.disabled == (ki + 1) - enabled_count(upto));
    if ki + 1 < n {
        assert(present.contains(entries[ki + 1].id));
        assert(next == toggling_at(entries, (ki + 1) as nat));
        assert(first == (toggling_at(entries, (ki + 1) as nat), toggle_of(entries[ki + 1])));
        lemma_run_from(entries, present, has_settings, (ki + 1) as nat);
        assert(toggles(entries, ki + 1) =~= seq![toggle_of(entries[ki + 1])] + toggles(
            entries,
            ki + 2,
        ));
        assert(seq![first.1] + (toggles(entries, ki + 2) + ending(has_settings)) =~= toggles(
            entries,
            ki + 1,
        ) + ending(has_settings));
    } else {
        assert(upto =~= entries);
        assert(toggles(entries, ki + 1) =~= Seq::<Planned>::empty());
        if has_settings {
            let merging = ImportModel { phase: ImportPhase::Merging, ..next };
            assert(first == (merging, Planned::MergeSettings));
            let second = import_step(entries, present, has_settings, merging, Outcome::Succeeded);
            assert(second.0 == clean_finish(entries));
            assert(run_succeeding(entries, present, has_settings, merging, 1) == (
                clean_finish(entries),
                seq![Planned::Done],
            )) by {
                assert(seq![Planned::Done] + Seq::<Planned>::empty() =~= seq![Planned::Done]);
            }
            assert(seq![Planned::MergeSettings] + seq![Planned::Done] =~= ending(has_settings));
            assert(Seq::<Planned>::empty() + ending(has_settings) =~= ending(has_settings));
        } else {
            assert(first == (clean_finish(entries), Planned::Done));
            assert(seq![Planned::Done] + Seq::<Planned>::empty() =~= ending(has_settings));
            assert(Seq::<Planned>::empty() + ending(has_settings) =~= ending(has_settings));
        }
    }
}

/// Exporting the current setup and importing it again where every plugin is
/// still installed asks, when every action succeeds, for exactly the
/// enable or disable that matches each plugin's saved state, in order,
/// then for the settings merge when settings were saved, then ends; nothing
/// is installed, nothing fails, and the counts of enabled and disabled
/// plugins are those of the exported setup. After the merge every saved
/// (plugin, key) pair reads back its saved value, whatever was stored before.
pub proof fn law_export_then_import_restores(
    plugins: Seq<PluginEntry>,
    repos: Seq<Option<String>>,
    present: Seq<Seq<char>>,
    saved: Map<Seq<char>, Map<Seq<char>, Seq<char>>>,
    before: Map<Seq<char>, Map<Seq<char>, Seq<char>>>,
)
    requires
        repos.len() == plugins.len(),
        forall|i: int| 0 <= i < plugins.len() ==> present.contains(#[trigger] plugins[i].plugin.id@),
    ensures
        ({
            let entries = exported_entries(plugins, repos);
            let has_settings = saved != Map::<Seq<char>, Map<Seq<char>, Seq<char>>>::empty();
            run_succeeding(
                entries,
                present,
                has_settings,
                start_model(),
                (plugins.len() + if has_settings {
                    2int
                } else {
                    1int
                }) as nat,
            ) == (clean_finish(entries), toggles(entries, 0) + ending(has_settings))
        }),
        forall|plugin: Seq<char>, key: Seq<char>|
            #![trigger lookup(saved, plugin, key)]
            lookup(saved, plugin, key) is Some ==> lookup(merged(before, saved), plugin, key)
                == lookup(saved, plugin, key),
{
    let entries = exported_entries(plugins, repos);
    let has_settings = saved != Map::<Seq<char>, Map<Seq<char>, Seq<char>>>::empty();
    let n = entries.len();
    reveal_with_fuel(run_succeeding, 3);
    assert forall|i: int| 0 <= i < n implies present.contains(#[trigger] entries[i].id) by {
        assert(entries[i].id == plugins[i].plugin.id@);
    }
    let first = import_step(entries, present, has_settings, start_model(), Outcome::Succeeded);
    if n > 0 {
        assert(present.contains(entries[0].id));
        assert(entries.subrange(0, 0) =~= Seq::<EntryView>::empty());
        assert(first == (toggling_at(entries, 0), toggle_of(entries[0])));
        lemma_run_from(entries, present, has_settings, 0);
        assert(toggles(entries, 0) =~= seq![toggle_of(entries[0])] + toggles(entries, 1));
        assert(seq![first.1] + (toggles(entries, 1) + ending(has_settings)) =~= toggles(entries, 0)
            + ending(has_settings));
    } else {
        assert(entries =~= Seq::<EntryView>::empty());
        assert(toggles(entries, 0) =~= Seq::<Planned>::empty());
        assert(Seq::<Planned>::empty() + ending(has_settings) =~= ending(has_settings));
        if has_settings {
            let merging = ImportModel { phase: ImportPhase::Merging, ..start_model() };
            assert(first == (merging, Planned::MergeSettings));
            assert(run_succeeding(entries, present, has_settings, merging, 1) == (
                clean_finish(entries),
                seq![Planned::Done],
            )) by {
                assert(seq![Planned::Done] + Seq::<Planned>::empty() =~= seq![Planned::Done]);
            }
            assert(seq![Planned::MergeSettings] + seq![Planned::Done] =~= ending(has_settings));
        } else {
            assert(first == (clean_finish(entries), Planned::Done));
            assert(seq![Planned::Done] + Seq::<Planned>::empty() =~= ending(has_settings));
        }
    }
    assert forall|plugin: Seq<char>, key: Seq<char>|
        #![trigger lookup(saved, plugin, key)]
        lookup(saved, plugin, key) is Some implies lookup(merged(before, saved), plugin, key)
            == lookup(saved, plugin, key) by {
        law_merge_lookup(before, saved, plugin, key);
    }
}


/// Every exported entry carries its plugin's id, enabled state and the git
/// remote found for it, whatever that state.
pub proof fn law_export_keeps_every_remote(
    plugins: Seq<PluginEntry>,
    repos: Seq<Option<String>>,
    i: int,
)
    requires
        repos.len() == plugins.len(),
        0 <= i < plugins.len(),
    ensures
        exported_entries(plugins, repos).len() == plugins.len(),
        exported_entries(plugins, repos)[i].repo == match repos[i] {
            Some(r) => Some(r@),
            None => None::<Seq<char>>,
        },
        exported_entries(plugins, repos)[i].id == plugins[i].plugin.id@,
        exported_entries(plugins, repos)[i].enabled == plugins[i].enabled,
{
}

/// Once the install of a missing entry succeeded, the import sets that
/// entry to its saved state: it enables the plugin when it was saved
/// enabled and disables it otherwise, and counts the install.
pub proof fn law_installed_entry_gets_saved_state(
    entries: Seq<EntryView>,
    present: Seq<Seq<char>>,
    has_settings: bool,
    m: ImportModel,
)
    requires
        m.phase == ImportPhase::Installing,
        m.cursor < entries.len(),
    ensures
        import_step(entries, present, has_settings, m, Outcome::Succeeded).1 == if entries[m.cursor as int].enabled {
            Planned::Enable(entries[m.cursor as int].id)
        } else {
            Planned::Disable(entries[m.cursor as int].id)
        },
        import_step(entries, present, has_settings, m, Outcome::Succeeded).0.installed
            == m.installed + 1,
        import_step(entries, present, has_settings, m, Outcome::Succeeded).0.cursor == m.cursor,
{
}


/// Looking for the next entry: an installed one is set to its saved state,
/// a missing one with a repository is installed from it, and a missing one
/// without a repository is recorded as an error and passed over.
pub proof fn law_scan_handles_the_next_entry(
    entries: Seq<EntryView>,
    present: Seq<Seq<char>>,
    has_settings: bool,
    m: ImportModel,
)
    requires
        m.cursor < entries.len(),
    ensures
        ({
            let e = entries[m.cursor as int];
            let r = scan(entries, present, has_settings, m);
            &&& present.contains(e.id) ==> r.1 == if e.enabled {
                Planned::Enable(e.id)
            } else {
                Planned::Disable(e.id)
            } && r.0.cursor == m.cursor
            &&& !present.contains(e.id) && e.repo is Some ==> r.1 == Planned::Install(e.repo->0)
                && r.0.cursor == m.cursor
            &&& !present.contains(e.id) && e.repo is None ==> r == scan(
                entries,
                present,
                has_settings,
                ImportModel {
                    cursor: m.cursor + 1,
                    errors: m.errors.push(e.id + ": not present and no repo to install from"@),
                    ..m
                },
            )
        }),
{
}

} // verus!
