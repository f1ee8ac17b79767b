//! The editing state of the settings, trigger and generic-command dialogs,
//! and what each shows.
use crate::ansi::segment::strings_view;
use crate::config::{entries_view, SettingEntry};
use crate::generic_commands::{
    display_seq, selection_state_spec, GenericCommand, GenericCommandGroup, GenericCommands,
};
use crate::text::{chars_of, string_of};
use vstd::prelude::*;

verus! {

/// The key help shown in a dialog's footer.
pub const KEY_HELP: &'static str = "Up/Down: move  Space: toggle  Enter: save  Esc: cancel";

/// The footer warning while prompt and status parsing is off.
pub const CORE_DISABLED_WARNING: &'static str = "Prompt/stats parsing disabled";

/// The footer error when there is no player configuration to save to.
pub const SAVE_ERROR_CONFIG_UNAVAILABLE: &'static str = "Player config not available";

/// The footer error when saving the trigger settings failed.
pub const SAVE_ERROR_PERSIST_FAILED: &'static str = "Failed to save trigger settings";

/// The cursor moved by `delta` and kept on a row: `0` up to `len - 1`.
pub open spec fn moved_cursor(cursor: int, delta: int, len: int) -> int {
    let next = cursor + delta;
    let max = if len > 0 {
        len - 1
    } else {
        0
    };
    if next < 0 {
        0
    } else if next > max {
        max
    } else {
        next
    }
}

fn move_cursor_in(cursor: usize, delta: i32, len: usize) -> (r: usize)
    requires
        len >= 1,
        len - 1 <= i32::MAX,
        cursor < len,
        i32::MIN <= cursor + delta <= i32::MAX,
    ensures
        r == moved_cursor(cursor as int, delta as int, len as int),
        r < len,
{
    let max = (len - 1) as i32;
    let next = cursor as i32 + delta;
    if next < 0 {
        0
    } else if next > max {
        max as usize
    } else {
        next as usize
    }
}

// ---------------------------------------------------------------------------
// Settings dialog

/// One row of the settings dialog as shown.
#[derive(Debug, Clone, PartialEq, Eq)]
pub struct SettingsDialogItem {
    pub key: String,
    pub value: String,
}

/// What the settings dialog shows.
#[derive(Debug, Clone, PartialEq, Eq)]
pub struct SettingsDialogViewModel {
    pub items: Vec<SettingsDialogItem>,
    pub cursor: usize,
}

/// The settings being edited and the selected row.
pub struct SettingsDialog {
    entries: Vec<SettingEntry>,
    cursor: usize,
}

fn clone_entries(v: &Vec<SettingEntry>) -> (r: Vec<SettingEntry>)
    ensures
        entries_view(r@) == entries_view(v@),
{
    let mut r: Vec<SettingEntry> = Vec::new();
    let mut i: usize = 0;
    while i < v.len()
        invariant
            i <= v@.len(),
            entries_view(r@) == entries_view(v@.take(i as int)),
        decreases v.len() - i,
    {
        let ghost before = entries_view(r@);
        r.push(SettingEntry { key: v[i].key.clone(), value: v[i].value.clone() });
        assert(entries_view(r@) =~= before.push((v@[i as int].key@, v@[i as int].value@)));
        assert(entries_view(v@.take(i + 1)) =~= entries_view(v@.take(i as int)).push(
            (v@[i as int].key@, v@[i as int].value@),
        ));
        i = i + 1;
    }
    assert(v@.take(v@.len() as int) =~= v@);
    r
}

impl SettingsDialog {
    /// The settings as key and value.
    pub closed spec fn entries_spec(&self) -> Seq<(Seq<char>, Seq<char>)> {
        entries_view(self.entries@)
    }

    /// The selected row.
    pub closed spec fn cursor_spec(&self) -> int {
        self.cursor as int
    }

    /// The selected row is a row, or the first when there are none.
    pub closed spec fn wf(&self) -> bool {
        self.cursor < self.entries@.len() || (self.cursor == 0 && self.entries@.len() == 0)
    }

    /// A dialog on these settings, the first selected.
    pub fn new(entries: Vec<SettingEntry>) -> (d: Self)
        ensures
            d.wf(),
            d.entries_spec() == entries_view(entries@),
            d.cursor_spec() == 0,
    {
        SettingsDialog { entries, cursor: 0 }
    }

    /// Moves the selection by `delta` rows, stopping at the first and last;
    /// with no rows nothing changes.
    pub fn move_cursor(&mut self, delta: i32)
        requires
            old(self).wf(),
            old(self).entries_spec().len() <= i32::MAX,
            i32::MIN <= old(self).cursor_spec() + delta <= i32::MAX,
        ensures
            final(self).wf(),
            final(self).entries_spec() == old(self).entries_spec(),
            final(self).cursor_spec() == if old(self).entries_spec().len() == 0 {
                old(self).cursor_spec()
            } else {
                moved_cursor(old(self).cursor_spec(), delta as int, old(self).entries_spec().len() as int)
            },
    {
        if self.entries.len() == 0 {
            return;
        }
        self.cursor = move_cursor_in(self.cursor, delta, self.entries.len());
    }

    /// Adds a character to the value of the selected setting.
    pub fn insert_char(&mut self, c: char)
        requires
            old(self).wf(),
        ensures
            final(self).wf(),
            final(self).cursor_spec() == old(self).cursor_spec(),
            final(self).entries_spec() == if old(self).cursor_spec() < old(self).entries_spec().len() {
                let i = old(self).cursor_spec();
                let e = old(self).entries_spec()[i];
                old(self).entries_spec().update(i, (e.0, e.1.push(c)))
            } else {
                old(self).entries_spec()
            },
    {
        if self.cursor < self.entries.len() {
            let ghost ev = entries_view(self.entries@);
            let mut e = self.entries.remove(self.cursor);
            let mut cs = chars_of(e.value.as_str());
            cs.push(c);
            e.value = string_of(cs.as_slice());
            self.entries.insert(self.cursor, e);
            assert(entries_view(self.entries@) =~= ev.update(
                self.cursor as int,
                (ev[self.cursor as int].0, ev[self.cursor as int].1.push(c)),
            ));
        }
    }

    /// Removes the last character of the selected setting's value.
    pub fn backspace(&mut self)
        requires
            old(self).wf(),
        ensures
            final(self).wf(),
            final(self).cursor_spec() == old(self).cursor_spec(),
            final(self).entries_spec() == if old(self).cursor_spec() < old(self).entries_spec().len() {
                let i = old(self).cursor_spec();
                let e = old(self).entries_spec()[i];
                old(self).entries_spec().update(
                    i,
                    (
                        e.0,
                        if e.1.len() > 0 {
                            e.1.drop_last()
                        } else {
                            e.1
                        },
                    ),
                )
            } else {
                old(self).entries_spec()
            },
    {
        if self.cursor < self.entries.len() {
            let ghost ev = entries_view(self.entries@);
            let mut e = self.entries.remove(self.cursor);
            let mut cs = chars_of(e.value.as_str());
            if cs.len() > 0 {
                cs.pop();
            }
            e.value = string_of(cs.as_slice());
            self.entries.insert(self.cursor, e);
            assert(entries_view(self.entries@) =~= ev.update(
                self.cursor as int,
                (
                    ev[self.cursor as int].0,
                    if ev[self.cursor as int].1.len() > 0 {
                        ev[self.cursor as int].1.drop_last()
                    } else {
                        ev[self.cursor as int].1
                    },
                ),
            ));
        }
    }

    /// The settings as edited.
    pub fn entries(&self) -> (r: Vec<SettingEntry>)
        ensures
            entries_view(r@) == self.entries_spec(),
    {
        clone_entries(&self.entries)
    }

    /// What the dialog shows: every setting, and the selection.
    pub fn view_model(&self) -> (vm: SettingsDialogViewModel)
        ensures
            vm.cursor == self.cursor_spec(),
            vm.items@.len() == self.entries_spec().len(),
            forall|i: int|
                0 <= i < vm.items@.len() ==> (#[trigger] vm.items@[i]).key@ == self.entries_spec()[i].0
                    && vm.items@[i].value@ == self.entries_spec()[i].1,
    {
        let mut items: Vec<SettingsDialogItem> = Vec::new();
        let mut i: usize = 0;
        while i < self.entries.len()
            invariant
                i <= self.entries@.len(),
                items@.len() == i,
                forall|k: int|
                    0 <= k < i ==> (#[trigger] items@[k]).key@ == self.entries@[k].key@
                        && items@[k].value@ == self.entries@[k].value@,
            decreases self.entries.len() - i,
        {
            items.push(
                SettingsDialogItem {
                    key: self.entries[i].key.clone(),
                    value: self.entries[i].value.clone(),
                },
            );
            i = i + 1;
        }
        SettingsDialogViewModel { items, cursor: self.cursor }
    }
}

// ---------------------------------------------------------------------------
// Triggers dialog

/// Which groups of triggers run.
#[derive(Debug, Clone, Copy, PartialEq, Eq, Structural)]
pub struct TriggerConfig {
    pub guild_triggers: bool,
    pub spell_vocals: bool,
    pub common_triggers: bool,
    pub core_triggers: bool,
}

impl Default for TriggerConfig {
    /// Every group on.
    fn default() -> (c: Self)
        ensures
            c.guild_triggers && c.spell_vocals && c.common_triggers && c.core_triggers,
    {
        TriggerConfig { guild_triggers: true, spell_vocals: true, common_triggers: true, core_triggers: true }
    }
}

/// The labels of the trigger rows, in order.
pub open spec fn trigger_label(i: int) -> Seq<char> {
    if i == 0 {
        "Guild triggers"@
    } else if i == 1 {
        "Spell vocals"@
    } else if i == 2 {
        "Common triggers"@
    } else {
        "Core triggers"@
    }
}

/// Whether row `i` is on.
pub open spec fn trigger_row(c: TriggerConfig, i: int) -> bool {
    if i == 0 {
        c.guild_triggers
    } else if i == 1 {
        c.spell_vocals
    } else if i == 2 {
        c.common_triggers
    } else if i == 3 {
        c.core_triggers
    } else {
        true
    }
}

/// The configuration with row `i` flipped.
pub open spec fn toggled_trigger(c: TriggerConfig, i: int) -> TriggerConfig {
    if i == 0 {
        TriggerConfig { guild_triggers: !c.guild_triggers, ..c }
    } else if i == 1 {
        TriggerConfig { spell_vocals: !c.spell_vocals, ..c }
    } else if i == 2 {
        TriggerConfig { common_triggers: !c.common_triggers, ..c }
    } else if i == 3 {
        TriggerConfig { core_triggers: !c.core_triggers, ..c }
    } else {
        c
    }
}

/// One row of the triggers dialog as shown.
#[derive(Debug, Clone, PartialEq, Eq)]
pub struct TriggersDialogRowViewModel {
    pub label: String,
    pub enabled: bool,
}

/// What the triggers dialog shows.
#[derive(Debug, Clone, PartialEq, Eq)]
pub struct TriggersDialogViewModel {
    pub rows: Vec<TriggersDialogRowViewModel>,
    pub cursor: usize,
    pub footer_line1: String,
    pub footer_line2: Option<String>,
}

/// The trigger settings as saved and as being edited, the selected row, and
/// an error to show.
pub struct TriggersDialog {
    saved: TriggerConfig,
    draft: TriggerConfig,
    cursor: usize,
    footer_error: Option<String>,
}

impl TriggersDialog {
    pub closed spec fn saved_spec(&self) -> TriggerConfig {
        self.saved
    }

    pub closed spec fn draft_spec(&self) -> TriggerConfig {
        self.draft
    }

    pub closed spec fn cursor_spec(&self) -> int {
        self.cursor as int
    }

    pub closed spec fn footer_error_spec(&self) -> Option<Seq<char>> {
        match self.footer_error {
            Some(s) => Some(s@),
            None => None,
        }
    }

    /// The selection is one of the four rows.
    pub closed spec fn wf(&self) -> bool {
        self.cursor < 4
    }

    /// A dialog on this configuration, nothing changed yet.
    pub fn new(config: &TriggerConfig) -> (d: Self)
        ensures
            d.wf(),
            d.saved_spec() == *config,
            d.draft_spec() == *config,
            d.cursor_spec() == 0,
            d.footer_error_spec() is None,
    {
        TriggersDialog { saved: *config, draft: *config, cursor: 0, footer_error: None }
    }

    /// Moves the selection, stopping at the first and last row; clears the error.
    pub fn move_cursor(&mut self, delta: i32)
        requires
            old(self).wf(),
            i32::MIN <= old(self).cursor_spec() + delta <= i32::MAX,
        ensures
            final(self).wf(),
            final(self).cursor_spec() == moved_cursor(old(self).cursor_spec(), delta as int, 4),
            final(self).saved_spec() == old(self).saved_spec(),
            final(self).draft_spec() == old(self).draft_spec(),
            final(self).footer_error_spec() is None,
    {
        self.footer_error = None;
        self.cursor = move_cursor_in(self.cursor, delta, 4);
    }

    /// Flips the selected row in the draft; clears the error.
    pub fn toggle_selected(&mut self)
        requires
            old(self).wf(),
        ensures
            final(self).wf(),
            final(self).draft_spec() == toggled_trigger(old(self).draft_spec(), old(self).cursor_spec()),
            final(self).saved_spec() == old(self).saved_spec(),
            final(self).cursor_spec() == old(self).cursor_spec(),
            final(self).footer_error_spec() is None,
    {
        self.footer_error = None;
        if self.cursor == 0 {
            self.draft.guild_triggers = !self.draft.guild_triggers;
        } else if self.cursor == 1 {
            self.draft.spell_vocals = !self.draft.spell_vocals;
        } else if self.cursor == 2 {
            self.draft.common_triggers = !self.draft.common_triggers;
        } else if self.cursor == 3 {
            self.draft.core_triggers = !self.draft.core_triggers;
        }
    }

    /// Whether the draft is what was saved.
    pub fn draft_equals_saved(&self) -> (r: bool)
        ensures
            r == (self.draft_spec() == self.saved_spec()),
    {
        self.draft == self.saved
    }

    /// The draft.
    pub fn draft(&self) -> (r: &TriggerConfig)
        ensures
            *r == self.draft_spec(),
    {
        &self.draft
    }

    /// The saved configuration.
    pub fn saved(&self) -> (r: &TriggerConfig)
        ensures
            *r == self.saved_spec(),
    {
        &self.saved
    }

    /// Records a saved configuration as both saved and draft.
    pub fn commit_saved(&mut self, config: TriggerConfig)
        requires
            old(self).wf(),
        ensures
            final(self).wf(),
            final(self).saved_spec() == config,
            final(self).draft_spec() == config,
            final(self).cursor_spec() == old(self).cursor_spec(),
            final(self).footer_error_spec() == old(self).footer_error_spec(),
    {
        self.saved = config;
        self.draft = config;
    }

    /// Shows an error in the footer.
    pub fn set_footer_error(&mut self, message: String)
        requires
            old(self).wf(),
        ensures
            final(self).wf(),
            final(self).footer_error_spec() == Some(message@),
            final(self).saved_spec() == old(self).saved_spec(),
            final(self).draft_spec() == old(self).draft_spec(),
            final(self).cursor_spec() == old(self).cursor_spec(),
    {
        self.footer_error = Some(message);
    }

    /// What the dialog shows: the four rows as drafted, the selection, the
    /// error or the key help, and a warning while the core triggers are off.
    pub fn view_model(&self) -> (vm: TriggersDialogViewModel)
        ensures
            vm.rows@.len() == 4,
            forall|i: int|
                0 <= i < 4 ==> (#[trigger] vm.rows@[i]).label@ == trigger_label(i) && vm.rows@[i].enabled
                    == trigger_row(self.draft_spec(), i),
            vm.cursor == self.cursor_spec(),
            vm.footer_line1@ == match self.footer_error_spec() {
                Some(e) => e,
                None => KEY_HELP@,
            },
            match vm.footer_line2 {
                Some(w) => !self.draft_spec().core_triggers && w@ == CORE_DISABLED_WARNING@,
                None => self.draft_spec().core_triggers,
            },
    {
        let mut rows: Vec<TriggersDialogRowViewModel> = Vec::new();
        rows.push(
            TriggersDialogRowViewModel {
                label: "Guild triggers".to_string(),
                enabled: self.draft.guild_triggers,
            },
        );
        rows.push(
            TriggersDialogRowViewModel {
                label: "Spell vocals".to_string(),
                enabled: self.draft.spell_vocals,
            },
        );
        rows.push(
            TriggersDialogRowViewModel {
                label: "Common triggers".to_string(),
                enabled: self.draft.common_triggers,
            },
        );
        rows.push(
            TriggersDialogRowViewModel {
                label: "Core triggers".to_string(),
                enabled: self.draft.core_triggers,
            },
        );
        let footer_line2 = if self.draft.core_triggers {
            None
        } else {
            Some(CORE_DISABLED_WARNING.to_string())
        };
        let footer_line1 = match &self.footer_error {
            Some(e) => e.clone(),
            None => KEY_HELP.to_string(),
        };
        TriggersDialogViewModel { rows, cursor: self.cursor, footer_line1, footer_line2 }
    }
}


// ---------------------------------------------------------------------------
// Generic commands dialog

/// The group index of the row that stands for all commands.
pub const ALL_COMMANDS: usize = usize::MAX;

/// The rows of one group: its header, then one per command.
pub open spec fn group_rows(g: int, n: nat) -> Seq<(usize, Option<usize>)> {
    seq![(g as usize, None::<usize>)] + Seq::new(n, |j: int| (g as usize, Some(j as usize)))
}

/// The rows of the dialog: all commands, then each group with its commands.
pub open spec fn dialog_rows(gs: Seq<GenericCommandGroup>) -> Seq<(usize, Option<usize>)>
    decreases gs.len(),
{
    if gs.len() == 0 {
        seq![(ALL_COMMANDS, None::<usize>)]
    } else {
        dialog_rows(gs.drop_last()) + group_rows(gs.len() - 1, gs.last().commands@.len())
    }
}

/// The enabled flags of every command, group by group.
pub open spec fn flags_of(gs: Seq<GenericCommandGroup>) -> Seq<Seq<bool>> {
    gs.map_values(|g: GenericCommandGroup| g.commands@.map_values(|c: GenericCommand| c.enabled))
}

/// Two command lists that differ at most in which commands are enabled.
pub open spec fn same_commands(a: Seq<GenericCommand>, b: Seq<GenericCommand>) -> bool {
    &&& a.len() == b.len()
    &&& forall|j: int|
        0 <= j < a.len() ==> (#[trigger] a[j]).alias@ == b[j].alias@ && a[j].execution == b[j].execution
}

/// Two group lists that differ at most in which commands are enabled.
pub open spec fn same_groups(a: Seq<GenericCommandGroup>, b: Seq<GenericCommandGroup>) -> bool {
    &&& a.len() == b.len()
    &&& forall|i: int|
        0 <= i < a.len() ==> (#[trigger] a[i]).name@ == b[i].name@ && a[i].display_name@
            == b[i].display_name@ && same_commands(a[i].commands@, b[i].commands@)
}

/// Whether every flag of a group is on.
pub open spec fn all_on(row: Seq<bool>) -> bool {
    forall|j: int| 0 <= j < row.len() ==> #[trigger] row[j]
}

/// Whether every flag of every group is on.
pub open spec fn all_groups_on(fl: Seq<Seq<bool>>) -> bool {
    forall|i: int| 0 <= i < fl.len() ==> all_on(#[trigger] fl[i])
}

/// A row of flags all set to `v`.
pub open spec fn filled(n: nat, v: bool) -> Seq<bool> {
    Seq::new(n, |j: int| v)
}

/// The flags after toggling the row `item`: a command flips; a group header
/// turns its group all on unless it is all on, then all off; the row for all
/// commands does the same for every group.
pub open spec fn toggled_flags(fl: Seq<Seq<bool>>, item: (usize, Option<usize>)) -> Seq<Seq<bool>> {
    let g = item.0 as int;
    match item.1 {
        Some(c) => if g < fl.len() && c < fl[g].len() {
            fl.update(g, fl[g].update(c as int, !fl[g][c as int]))
        } else {
            fl
        },
        None => if item.0 == ALL_COMMANDS {
            let v = !all_groups_on(fl);
            Seq::new(fl.len(), |i: int| filled(fl[i].len(), v))
        } else if g < fl.len() {
            fl.update(g, filled(fl[g].len(), !all_on(fl[g])))
        } else {
            fl
        },
    }
}

/// The names of the groups whose commands are all enabled.
pub open spec fn enabled_group_names(gs: Seq<GenericCommandGroup>) -> Seq<Seq<char>>
    decreases gs.len(),
{
    if gs.len() == 0 {
        seq![]
    } else {
        let front = enabled_group_names(gs.drop_last());
        if selection_state_spec(gs.last().commands@) == Some(true) {
            front.push(gs.last().name@)
        } else {
            front
        }
    }
}

/// The aliases of the disabled commands of a group.
pub open spec fn disabled_aliases(cmds: Seq<GenericCommand>) -> Seq<Seq<char>>
    decreases cmds.len(),
{
    if cmds.len() == 0 {
        seq![]
    } else {
        let front = disabled_aliases(cmds.drop_last());
        if !cmds.last().enabled {
            front.push(cmds.last().alias@)
        } else {
            front
        }
    }
}

/// The aliases of all disabled commands, group by group.
pub open spec fn disabled_command_aliases(gs: Seq<GenericCommandGroup>) -> Seq<Seq<char>>
    decreases gs.len(),
{
    if gs.len() == 0 {
        seq![]
    } else {
        disabled_command_aliases(gs.drop_last()) + disabled_aliases(gs.last().commands@)
    }
}

/// One row of the generic commands dialog as shown.
#[derive(Debug, Clone, PartialEq, Eq)]
pub struct GenericCommandViewModel {
    pub alias: String,
    pub command: String,
    pub selected: bool,
    pub level: u8,
}

/// What the generic commands dialog shows.
#[derive(Debug, Clone, PartialEq, Eq)]
pub struct GenericCommandsDialogViewModel {
    pub items: Vec<GenericCommandViewModel>,
    pub cursor: usize,
}

/// How a row is shown: the row for all commands, a group header, or a command.
pub open spec fn row_shown(gs: Seq<GenericCommandGroup>, item: (usize, Option<usize>), vm: GenericCommandViewModel) -> bool {
    let g = item.0 as int;
    if item.0 == ALL_COMMANDS {
        &&& vm.alias@ == "All Commands"@
        &&& vm.command@ == Seq::<char>::empty()
        &&& vm.selected == all_groups_on(flags_of(gs))
        &&& vm.level == 0
    } else {
        match item.1 {
            Some(c) => {
                &&& vm.alias@ == gs[g].commands@[c as int].alias@
                &&& vm.command@ == display_seq(gs[g].commands@[c as int].execution)
                &&& vm.selected == gs[g].commands@[c as int].enabled
                &&& vm.level == 2
            },
            None => {
                &&& vm.alias@ == gs[g].display_name@
                &&& vm.command@ == Seq::<char>::empty()
                &&& vm.selected == (selection_state_spec(gs[g].commands@) == Some(true))
                &&& vm.level == 1
            },
        }
    }
}

/// The groups being edited, their rows and the selected row.
pub struct GenericCommandsDialog {
    items: Vec<(usize, Option<usize>)>,
    groups: Vec<GenericCommandGroup>,
    cursor: usize,
}

fn clone_command(c: &GenericCommand) -> (r: GenericCommand)
    ensures
        r.alias@ == c.alias@,
        r.execution == c.execution,
        r.enabled == c.enabled,
{
    GenericCommand { alias: c.alias.clone(), execution: c.execution, enabled: c.enabled }
}

fn clone_group(g: &GenericCommandGroup) -> (r: GenericCommandGroup)
    ensures
        r.name@ == g.name@,
        r.display_name@ == g.display_name@,
        same_commands(r.commands@, g.commands@),
        r.commands@.map_values(|c: GenericCommand| c.enabled) == g.commands@.map_values(
            |c: GenericCommand| c.enabled,
        ),
{
    let mut commands: Vec<GenericCommand> = Vec::new();
    let mut j: usize = 0;
    while j < g.commands.len()
        invariant
            j <= g.commands@.len(),
            commands@.len() == j,
            forall|k: int|
                0 <= k < j ==> (#[trigger] commands@[k]).alias@ == g.commands@[k].alias@
                    && commands@[k].execution == g.commands@[k].execution && commands@[k].enabled
                    == g.commands@[k].enabled,
        decreases g.commands.len() - j,
    {
        commands.push(clone_command(&g.commands[j]));
        j = j + 1;
    }
    let r = GenericCommandGroup { name: g.name.clone(), display_name: g.display_name.clone(), commands };
    assert(r.commands@.map_values(|c: GenericCommand| c.enabled) =~= g.commands@.map_values(
        |c: GenericCommand| c.enabled,
    ));
    r
}

/// Whether every command of every group is enabled.
fn all_groups_enabled(groups: &Vec<GenericCommandGroup>) -> (r: bool)
    ensures
        r == all_groups_on(flags_of(groups@)),
{
    let mut i: usize = 0;
    while i < groups.len()
        invariant
            i <= groups@.len(),
            forall|k: int| 0 <= k < i ==> all_on(#[trigger] flags_of(groups@)[k]),
        decreases groups.len() - i,
    {
        let st = groups[i].selection_state();
        if !(st == Some(true)) {
            assert(!all_on(flags_of(groups@)[i as int])) by {
                let cmds = groups@[i as int].commands@;
                let j = choose|j: int| 0 <= j < cmds.len() && !(#[trigger] cmds[j]).enabled;
                assert(flags_of(groups@)[i as int][j] == cmds[j].enabled);
            }
            return false;
        }
        assert(all_on(flags_of(groups@)[i as int])) by {
            let cmds = groups@[i as int].commands@;
            assert forall|j: int| 0 <= j < flags_of(groups@)[i as int].len() implies #[trigger] flags_of(
                groups@,
            )[i as int][j] by {
                assert(cmds[j].enabled);
            }
        }
        i = i + 1;
    }
    true
}

/// The group with every command set to `v`.
fn set_group(g: GenericCommandGroup, v: bool) -> (r: GenericCommandGroup)
    ensures
        r.name@ == g.name@,
        r.display_name@ == g.display_name@,
        same_commands(r.commands@, g.commands@),
        r.commands@.map_values(|c: GenericCommand| c.enabled) == filled(g.commands@.len(), v),
{
    let mut commands: Vec<GenericCommand> = Vec::new();
    let mut j: usize = 0;
    while j < g.commands.len()
        invariant
            j <= g.commands@.len(),
            commands@.len() == j,
            forall|k: int|
                0 <= k < j ==> (#[trigger] commands@[k]).alias@ == g.commands@[k].alias@
                    && commands@[k].execution == g.commands@[k].execution && commands@[k].enabled == v,
        decreases g.commands.len() - j,
    {
        let mut c = clone_command(&g.commands[j]);
        c.enabled = v;
        commands.push(c);
        j = j + 1;
    }
    let r = GenericCommandGroup { name: g.name, display_name: g.display_name, commands };
    assert(r.commands@.map_values(|c: GenericCommand| c.enabled) =~= filled(g.commands@.len(), v));
    r
}

impl GenericCommandsDialog {
    pub closed spec fn groups_spec(&self) -> Seq<GenericCommandGroup> {
        self.groups@
    }

    pub closed spec fn items_spec(&self) -> Seq<(usize, Option<usize>)> {
        self.items@
    }

    pub closed spec fn cursor_spec(&self) -> int {
        self.cursor as int
    }

    /// The rows are those of the groups and the selection is one of them.
    pub closed spec fn wf(&self) -> bool {
        &&& self.items@ == dialog_rows(self.groups@)
        &&& self.cursor < self.items@.len()
        &&& self.groups@.len() < ALL_COMMANDS
    }

    /// A dialog on a copy of the groups, the row for all commands selected.
    pub fn new(generic: &GenericCommands) -> (d: Self)
        requires
            generic.groups@.len() < ALL_COMMANDS,
        ensures
            d.wf(),
            same_groups(d.groups_spec(), generic.groups@),
            flags_of(d.groups_spec()) == flags_of(generic.groups@),
            d.cursor_spec() == 0,
    {
        let mut items: Vec<(usize, Option<usize>)> = Vec::new();
        let mut groups: Vec<GenericCommandGroup> = Vec::new();
        items.push((ALL_COMMANDS, None));
        let mut gi: usize = 0;
        while gi < generic.groups.len()
            invariant
                gi <= generic.groups@.len() < ALL_COMMANDS,
                groups@.len() == gi,
                items@ == dialog_rows(groups@),
                same_groups(groups@, generic.groups@.take(gi as int)),
                flags_of(groups@) == flags_of(generic.groups@.take(gi as int)),
            decreases generic.groups.len() - gi,
        {
            let g = clone_group(&generic.groups[gi]);
            let n = generic.groups[gi].commands.len();
            let ghost before_items = items@;
            let ghost before_groups = groups@;
            items.push((gi, None));
            let mut j: usize = 0;
            while j < n
                invariant
                    j <= n,
                    n == generic.groups@[gi as int].commands@.len(),
                    items@ == before_items + seq![(gi, None::<usize>)] + Seq::new(
                        j as nat,
                        |k: int| (gi, Some(k as usize)),
                    ),
                decreases n - j,
            {
                let ghost prev = items@;
                items.push((gi, Some(j)));
                assert(items@ =~= before_items + seq![(gi, None::<usize>)] + Seq::new(
                    (j + 1) as nat,
                    |k: int| (gi, Some(k as usize)),
                ));
                j = j + 1;
            }
            groups.push(g);
            proof {
                assert(groups@.drop_last() =~= before_groups);
                assert(items@ =~= dialog_rows(before_groups) + group_rows(gi as int, n as nat));
                assert(generic.groups@.take(gi + 1).drop_last() =~= generic.groups@.take(gi as int));
                let t = generic.groups@.take(gi + 1);
                assert forall|k: int| 0 <= k < gi + 1 implies #[trigger] flags_of(groups@)[k] == flags_of(t)[k] by {
                    if k < gi {
                        assert(groups@[k] == before_groups[k]);
                        assert(flags_of(before_groups)[k] == flags_of(generic.groups@.take(gi as int))[k]);
                    }
                }
                assert(flags_of(groups@) =~= flags_of(t));
                assert forall|k: int| 0 <= k < gi + 1 implies #[trigger] (groups@[k]).name@ == t[k].name@
                    && groups@[k].display_name@ == t[k].display_name@ && same_commands(groups@[k].commands@, t[k].commands@) by {
                    if k < gi {
                        assert(groups@[k] == before_groups[k]);
                    }
                }
            }
            gi = gi + 1;
        }
        assert(generic.groups@.take(generic.groups@.len() as int) =~= generic.groups@);
        proof {
            lemma_dialog_rows_len(groups@);
        }
        GenericCommandsDialog { items, groups, cursor: 0 }
    }

    /// Moves the selection, stopping at the first and last row.
    pub fn move_cursor(&mut self, delta: i32)
        requires
            old(self).wf(),
            old(self).items_spec().len() <= i32::MAX,
            i32::MIN <= old(self).cursor_spec() + delta <= i32::MAX,
        ensures
            final(self).wf(),
            final(self).groups_spec() == old(self).groups_spec(),
            final(self).items_spec() == old(self).items_spec(),
            final(self).cursor_spec() == moved_cursor(
                old(self).cursor_spec(),
                delta as int,
                old(self).items_spec().len() as int,
            ),
    {
        self.cursor = move_cursor_in(self.cursor, delta, self.items.len());
    }

    /// Toggles the selected row: a command flips, a group header or the row
    /// for all commands turns all on unless all are on, then all off.
    pub fn toggle_selected(&mut self)
        requires
            old(self).wf(),
        ensures
            final(self).wf(),
            final(self).cursor_spec() == old(self).cursor_spec(),
            final(self).items_spec() == old(self).items_spec(),
            same_groups(final(self).groups_spec(), old(self).groups_spec()),
            flags_of(final(self).groups_spec()) == toggled_flags(
                flags_of(old(self).groups_spec()),
                old(self).items_spec()[old(self).cursor_spec()],
            ),
    {
        let ghost old_groups = self.groups@;
        let ghost old_items = self.items@;
        let ghost old_cursor = self.cursor;
        let ghost fl = flags_of(old_groups);
        let (g, c) = self.items[self.cursor];
        match c {
            Some(ci) => {
                if g < self.groups.len() && ci < self.groups[g].commands.len() {
                    let mut grp = self.groups.remove(g);
                    let mut cmd = grp.commands.remove(ci);
                    cmd.enabled = !cmd.enabled;
                    grp.commands.insert(ci, cmd);
                    self.groups.insert(g, grp);
                    proof {
                        assert(self.groups@ =~= old_groups.update(g as int, self.groups@[g as int]));
                        assert(self.groups@[g as int].commands@ =~= old_groups[g as int].commands@.update(
                            ci as int,
                            self.groups@[g as int].commands@[ci as int],
                        ));
                        assert(flags_of(self.groups@)[g as int] =~= fl[g as int].update(
                            ci as int,
                            !fl[g as int][ci as int],
                        ));
                        assert(flags_of(self.groups@) =~= toggled_flags(fl, (g, c)));
                    }
                }
            },
            None => {
                if g == ALL_COMMANDS {
                    let v = !all_groups_enabled(&self.groups);
                    let mut i: usize = 0;
                    while i < self.groups.len()
                        invariant
                            i <= self.groups@.len(),
                            self.items@ == old_items,
                            self.cursor == old_cursor,
                            fl == flags_of(old_groups),
                            self.groups@.len() == old_groups.len(),
                            same_groups(self.groups@, old_groups),
                            forall|k: int|
                                0 <= k < i ==> #[trigger] flags_of(self.groups@)[k] == filled(
                                    fl[k].len(),
                                    v,
                                ),
                            forall|k: int| i <= k < self.groups@.len() ==> #[trigger] flags_of(self.groups@)[k] == fl[k],
                        decreases self.groups.len() - i,
                    {
                        let ghost before = self.groups@;
                        let grp = self.groups.remove(i);
                        let ng = set_group(grp, v);
                        self.groups.insert(i, ng);
                        proof {
                            assert(self.groups@ =~= before.update(i as int, ng));
                            assert forall|k: int| 0 <= k < self.groups@.len() implies #[trigger] (
                            self.groups@[k]).name@ == old_groups[k].name@ && self.groups@[k].display_name@
                                == old_groups[k].display_name@ && same_commands(
                                self.groups@[k].commands@,
                                old_groups[k].commands@,
                            ) by {
                                if k != i {
                                    assert(self.groups@[k] == before[k]);
                                }
                            }
                            assert(flags_of(before)[i as int] == fl[i as int]);
                            assert(fl[i as int].len() == before[i as int].commands@.len());
                            assert(flags_of(self.groups@)[i as int] == ng.commands@.map_values(
                                |c: GenericCommand| c.enabled,
                            ));
                            assert forall|k: int| 0 <= k < i + 1 implies #[trigger] flags_of(self.groups@)[k]
                                == filled(fl[k].len(), v) by {
                                if k < i {
                                    assert(self.groups@[k] == before[k]);
                                    assert(flags_of(self.groups@)[k] == flags_of(before)[k]);
                                }
                            }
                            assert forall|k: int| i + 1 <= k < self.groups@.len() implies #[trigger] flags_of(
                                self.groups@,
                            )[k] == fl[k] by {
                                assert(self.groups@[k] == before[k]);
                                assert(flags_of(self.groups@)[k] == flags_of(before)[k]);
                            }
                        }
                        i = i + 1;
                    }
                    assert(flags_of(self.groups@) =~= toggled_flags(fl, (g, c)));
                } else if g < self.groups.len() {
                    let st = self.groups[g].selection_state();
                    let v = !(st == Some(true));
                    proof {
                        let cmds = old_groups[g as int].commands@;
                        if st == Some(true) {
                            assert(all_on(fl[g as int]));
                        } else {
                            let j = choose|j: int| 0 <= j < cmds.len() && !(#[trigger] cmds[j]).enabled;
                            assert(!fl[g as int][j]);
                        }
                    }
                    let grp = self.groups.remove(g);
                    let ng = set_group(grp, v);
                    self.groups.insert(g, ng);
                    proof {
                        assert(self.groups@ =~= old_groups.update(g as int, ng));
                        assert(flags_of(self.groups@) =~= toggled_flags(fl, (g, c)));
                    }
                }
            },
        }
        proof {
            lemma_dialog_rows_shape(self.groups@, old_groups);
        }
    }

    /// The configuration to save: the names of the groups that are all
    /// enabled, and the aliases of the disabled commands.
    pub fn to_config(&self) -> (r: (Vec<String>, Vec<String>))
        ensures
            strings_view(r.0@) == enabled_group_names(self.groups_spec()),
            strings_view(r.1@) == disabled_command_aliases(self.groups_spec()),
    {
        let ghost gs = self.groups@;
        let mut enabled: Vec<String> = Vec::new();
        let mut disabled: Vec<String> = Vec::new();
        let mut i: usize = 0;
        assert(strings_view(enabled@) =~= Seq::<Seq<char>>::empty());
        assert(strings_view(disabled@) =~= Seq::<Seq<char>>::empty());
        while i < self.groups.len()
            invariant
                i <= gs.len(),
                gs == self.groups@,
                strings_view(enabled@) == enabled_group_names(gs.take(i as int)),
                strings_view(disabled@) == disabled_command_aliases(gs.take(i as int)),
            decreases self.groups.len() - i,
        {
            assert(gs.take(i + 1).drop_last() =~= gs.take(i as int));
            let ghost e0 = strings_view(enabled@);
            if self.groups[i].selection_state() == Some(true) {
                enabled.push(self.groups[i].name.clone());
                assert(strings_view(enabled@) =~= e0.push(gs[i as int].name@));
            }
            let cmds = &self.groups[i].commands;
            let ghost d0 = strings_view(disabled@);
            let mut j: usize = 0;
            while j < cmds.len()
                invariant
                    j <= cmds@.len(),
                    strings_view(disabled@) == d0 + disabled_aliases(cmds@.take(j as int)),
                decreases cmds.len() - j,
            {
                assert(cmds@.take(j + 1).drop_last() =~= cmds@.take(j as int));
                let ghost d1 = strings_view(disabled@);
                if !cmds[j].enabled {
                    disabled.push(cmds[j].alias.clone());
                    assert(strings_view(disabled@) =~= d1.push(cmds@[j as int].alias@));
                }
                assert(strings_view(disabled@) =~= d0 + disabled_aliases(cmds@.take(j + 1)));
                j = j + 1;
            }
            assert(cmds@.take(cmds@.len() as int) =~= cmds@);
            i = i + 1;
        }
        assert(gs.take(gs.len() as int) =~= gs);
        (enabled, disabled)
    }

    /// What the dialog shows: one entry per row, and the selection.
    pub fn view_model(&self) -> (vm: GenericCommandsDialogViewModel)
        requires
            self.wf(),
        ensures
            vm.cursor == self.cursor_spec(),
            vm.items@.len() == self.items_spec().len(),
            forall|i: int|
                0 <= i < vm.items@.len() ==> row_shown(
                    self.groups_spec(),
                    self.items_spec()[i],
                    #[trigger] vm.items@[i],
                ),
    {
        let all = all_groups_enabled(&self.groups);
        let mut out: Vec<GenericCommandViewModel> = Vec::new();
        let mut i: usize = 0;
        while i < self.items.len()
            invariant
                self.wf(),
                i <= self.items@.len(),
                all == all_groups_on(flags_of(self.groups@)),
                out@.len() == i,
                forall|k: int| 0 <= k < i ==> row_shown(self.groups@, self.items@[k], #[trigger] out@[k]),
            decreases self.items.len() - i,
        {
            let (g, c) = self.items[i];
            proof {
                lemma_dialog_rows_index(self.groups@, i as int);
            }
            let vm = if g == ALL_COMMANDS {
                GenericCommandViewModel {
                    alias: "All Commands".to_string(),
                    command: String::new(),
                    selected: all,
                    level: 0,
                }
            } else {
                match c {
                    Some(ci) => {
                        let cmd = &self.groups[g].commands[ci];
                        GenericCommandViewModel {
                            alias: cmd.alias.clone(),
                            command: cmd.display_command(),
                            selected: cmd.enabled,
                            level: 2,
                        }
                    },
                    None => {
                        let grp = &self.groups[g];
                        GenericCommandViewModel {
                            alias: grp.display_name.clone(),
                            command: String::new(),
                            selected: grp.selection_state() == Some(true),
                            level: 1,
                        }
                    },
                }
            };
            assert(row_shown(self.groups@, self.items@[i as int], vm));
            out.push(vm);
            i = i + 1;
        }
        GenericCommandsDialogViewModel { items: out, cursor: self.cursor }
    }
}

proof fn lemma_dialog_rows_len(gs: Seq<GenericCommandGroup>)
    ensures
        dialog_rows(gs).len() >= 1,
    decreases gs.len(),
{
    if gs.len() > 0 {
        lemma_dialog_rows_len(gs.drop_last());
    }
}

/// The rows depend only on how many commands each group has.
proof fn lemma_dialog_rows_shape(a: Seq<GenericCommandGroup>, b: Seq<GenericCommandGroup>)
    requires
        same_groups(a, b),
    ensures
        dialog_rows(a) == dialog_rows(b),
    decreases a.len(),
{
    if a.len() > 0 {
        assert(same_groups(a.drop_last(), b.drop_last()));
        lemma_dialog_rows_shape(a.drop_last(), b.drop_last());
        assert(a.last().commands@.len() == b.last().commands@.len());
    }
}

/// Every row names the all-commands row, a group, or a command of a group.
proof fn lemma_dialog_rows_index(gs: Seq<GenericCommandGroup>, i: int)
    requires
        0 <= i < dialog_rows(gs).len(),
        gs.len() < ALL_COMMANDS,
    ensures
        dialog_rows(gs)[i].0 == ALL_COMMANDS ==> dialog_rows(gs)[i].1 is None,
        dialog_rows(gs)[i].0 != ALL_COMMANDS ==> {
            let g = dialog_rows(gs)[i].0 as int;
            &&& 0 <= g < gs.len()
            &&& dialog_rows(gs)[i].1 matches Some(c) ==> c < gs[g].commands@.len()
        },
    decreases gs.len(),
{
    if gs.len() > 0 {
        let front = dialog_rows(gs.drop_last());
        if i < front.len() {
            lemma_dialog_rows_index(gs.drop_last(), i);
            assert(dialog_rows(gs)[i] == front[i]);
        } else {
            let k = i - front.len();
            assert(dialog_rows(gs)[i] == group_rows(gs.len() - 1, gs.last().commands@.len())[k]);
        }
    }
}

} // verus!
