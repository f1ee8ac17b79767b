//! Generic shortcut commands: aliases that expand into game command lines.
use crate::abilities::{client_send_line, client_send_seq};
use crate::text::{chars_of, push_all, push_str_chars, string_of, trim_chars, trim_seq};
use vstd::prelude::*;

verus! {

/// How a generic command turns its arguments into a logical line.
#[derive(Debug, Clone, Copy)]
pub enum GenericCommandExecution {
    /// Always the same line; arguments are ignored.
    Fixed(&'static str),
    /// The prefix, then the trimmed arguments when there are any.
    AppendArgs { prefix: &'static str },
    /// The prefix, then the trimmed arguments or the default target.
    AppendArgsDefault { prefix: &'static str, default: &'static str },
}

/// The logical line (before the client prefix) for the given arguments.
pub open spec fn render_logical_seq(e: GenericCommandExecution, args: Seq<char>) -> Seq<char> {
    let a = trim_seq(args);
    match e {
        GenericCommandExecution::Fixed(c) => c@,
        GenericCommandExecution::AppendArgs { prefix } => if a.len() == 0 {
            prefix@
        } else {
            prefix@ + " "@ + a
        },
        GenericCommandExecution::AppendArgsDefault { prefix, default } => if a.len() == 0 {
            prefix@ + " "@ + default@
        } else {
            prefix@ + " "@ + a
        },
    }
}

/// The command shown in listings: the fixed line, or the prefix with an `{args}` placeholder.
pub open spec fn display_seq(e: GenericCommandExecution) -> Seq<char> {
    match e {
        GenericCommandExecution::Fixed(c) => c@,
        GenericCommandExecution::AppendArgs { prefix } => prefix@ + " {args}"@,
        GenericCommandExecution::AppendArgsDefault { prefix, .. } => prefix@ + " {args}"@,
    }
}

impl GenericCommandExecution {
    pub fn fixed(command: &'static str) -> (r: Self)
        ensures
            r == GenericCommandExecution::Fixed(command),
    {
        GenericCommandExecution::Fixed(command)
    }

    pub fn append_args(prefix: &'static str) -> (r: Self)
        ensures
            r == (GenericCommandExecution::AppendArgs { prefix }),
    {
        GenericCommandExecution::AppendArgs { prefix }
    }

    pub fn append_args_default(prefix: &'static str, default: &'static str) -> (r: Self)
        ensures
            r == (GenericCommandExecution::AppendArgsDefault { prefix, default }),
    {
        GenericCommandExecution::AppendArgsDefault { prefix, default }
    }

    pub fn display_command(&self) -> (r: String)
        ensures
            r@ == display_seq(*self),
    {
        let mut out: Vec<char> = Vec::new();
        match self {
            GenericCommandExecution::Fixed(command) => {
                push_str_chars(&mut out, command);
            },
            GenericCommandExecution::AppendArgs { prefix } => {
                push_str_chars(&mut out, prefix);
                push_str_chars(&mut out, " {args}");
            },
            GenericCommandExecution::AppendArgsDefault { prefix, .. } => {
                push_str_chars(&mut out, prefix);
                push_str_chars(&mut out, " {args}");
            },
        }
        string_of(out.as_slice())
    }

    pub fn render(&self, args: &str) -> (r: String)
        ensures
            r@ == client_send_seq(render_logical_seq(*self, args@)),
    {
        let av = chars_of(args);
        let a = trim_chars(av.as_slice());
        let mut out: Vec<char> = Vec::new();
        match self {
            GenericCommandExecution::Fixed(command) => {
                push_str_chars(&mut out, command);
            },
            GenericCommandExecution::AppendArgs { prefix } => {
                push_str_chars(&mut out, prefix);
                if a.len() > 0 {
                    push_str_chars(&mut out, " ");
                    push_all(&mut out, a.as_slice());
                }
            },
            GenericCommandExecution::AppendArgsDefault { prefix, default } => {
                push_str_chars(&mut out, prefix);
                push_str_chars(&mut out, " ");
                if a.len() > 0 {
                    push_all(&mut out, a.as_slice());
                } else {
                    push_str_chars(&mut out, default);
                }
            },
        }
        let logical = string_of(out.as_slice());
        client_send_line(logical.as_str())
    }
}

/// An individual generic command with an alias and structured execution shape.
#[derive(Debug, Clone)]
pub struct GenericCommand {
    pub alias: String,
    pub execution: GenericCommandExecution,
    pub enabled: bool,
}

impl GenericCommand {
    /// A new, enabled command.
    pub fn new(alias: &str, execution: GenericCommandExecution) -> (r: Self)
        ensures
            r.alias@ == alias@,
            r.execution == execution,
            r.enabled,
    {
        GenericCommand { alias: string_of(chars_of(alias).as_slice()), execution, enabled: true }
    }

    pub fn display_command(&self) -> (r: String)
        ensures
            r@ == display_seq(self.execution),
    {
        self.execution.display_command()
    }

    pub fn render(&self, args: &str) -> (r: String)
        ensures
            r@ == client_send_seq(render_logical_seq(self.execution, args@)),
    {
        self.execution.render(args)
    }
}

/// A group of related generic commands.
#[derive(Debug, Clone)]
pub struct GenericCommandGroup {
    pub name: String,
    pub display_name: String,
    pub commands: Vec<GenericCommand>,
}

pub open spec fn all_enabled(cmds: Seq<GenericCommand>) -> bool {
    forall|i: int| 0 <= i < cmds.len() ==> #[trigger] cmds[i].enabled
}

pub open spec fn all_disabled(cmds: Seq<GenericCommand>) -> bool {
    forall|i: int| 0 <= i < cmds.len() ==> !#[trigger] cmds[i].enabled
}

/// `Some(true)` when every command is enabled, `Some(false)` when none is, `None` when mixed.
pub open spec fn selection_state_spec(cmds: Seq<GenericCommand>) -> Option<bool> {
    if all_enabled(cmds) {
        Some(true)
    } else if all_disabled(cmds) {
        Some(false)
    } else {
        None
    }
}

impl GenericCommandGroup {
    pub fn new(name: &str, display_name: &str, commands: Vec<GenericCommand>) -> (r: Self)
        ensures
            r.name@ == name@,
            r.display_name@ == display_name@,
            r.commands@ == commands@,
    {
        GenericCommandGroup {
            name: string_of(chars_of(name).as_slice()),
            display_name: string_of(chars_of(display_name).as_slice()),
            commands,
        }
    }

    /// Returns true if all commands are enabled, false if none are, None if mixed.
    pub fn selection_state(&self) -> (r: Option<bool>)
        ensures
            r == selection_state_spec(self.commands@),
    {
        let mut any_enabled = false;
        let mut any_disabled = false;
        let mut i: usize = 0;
        while i < self.commands.len()
            invariant
                i <= self.commands@.len(),
                any_enabled == exists|k: int| 0 <= k < i && #[trigger] self.commands@[k].enabled,
                any_disabled == exists|k: int| 0 <= k < i && !#[trigger] self.commands@[k].enabled,
            decreases self.commands.len() - i,
        {
            if self.commands[i].enabled {
                any_enabled = true;
            } else {
                any_disabled = true;
            }
            i = i + 1;
        }
        if !any_disabled {
            Some(true)
        } else if !any_enabled {
            Some(false)
        } else {
            None
        }
    }
}

/// Container for all generic command groups.
#[derive(Debug, Clone)]
pub struct GenericCommands {
    pub groups: Vec<GenericCommandGroup>,
}

/// All commands of all groups, in group order.
pub open spec fn flat_commands(groups: Seq<GenericCommandGroup>) -> Seq<GenericCommand>
    decreases groups.len(),
{
    if groups.len() == 0 {
        Seq::empty()
    } else {
        flat_commands(groups.drop_last()) + groups.last().commands@
    }
}

/// Whether `c` is an enabled command with the given alias.
pub open spec fn answers_alias(c: GenericCommand, alias: Seq<char>) -> bool {
    c.enabled && c.alias@ == alias
}

/// The command that [`GenericCommands::render_command`] uses: the first enabled one with the alias.
pub open spec fn is_first_answer(cmds: Seq<GenericCommand>, alias: Seq<char>, k: int) -> bool {
    &&& 0 <= k < cmds.len()
    &&& answers_alias(cmds[k], alias)
    &&& forall|j: int| 0 <= j < k ==> !answers_alias(#[trigger] cmds[j], alias)
}

/// Whether a group of this name is enabled by the configuration.
pub open spec fn group_enabled_by(enabled_groups: Seq<String>, name: Seq<char>) -> bool {
    enabled_groups.len() == 0 || exists|i: int|
        0 <= i < enabled_groups.len() && (#[trigger] enabled_groups[i])@ == name
}

pub open spec fn listed(names: Seq<String>, alias: Seq<char>) -> bool {
    exists|i: int| 0 <= i < names.len() && (#[trigger] names[i])@ == alias
}

/// A command of the predefined table, as the view of its fields.
pub open spec fn command_is(c: GenericCommand, alias: Seq<char>, e: GenericCommandExecution) -> bool {
    c.alias@ == alias && c.execution == e && c.enabled
}

pub open spec fn group_is(g: GenericCommandGroup, name: Seq<char>, display: Seq<char>, n: nat) -> bool {
    g.name@ == name && g.display_name@ == display && g.commands@.len() == n
}

/// The predefined groups and commands.
pub open spec fn is_predefined(groups: Seq<GenericCommandGroup>) -> bool {
    &&& groups.len() == 5
    &&& group_is(groups[0], "cure_spells"@, "Cure Spells"@, 4)
    &&& command_is(groups[0].commands@[0], "clw"@, GenericCommandExecution::AppendArgsDefault { prefix: "cast 'cure light wounds'", default: "me" })
    &&& command_is(groups[0].commands@[1], "csw"@, GenericCommandExecution::AppendArgsDefault { prefix: "cast 'cure serious wounds'", default: "me" })
    &&& command_is(groups[0].commands@[2], "clwf"@, GenericCommandExecution::AppendArgsDefault { prefix: "repeat inf cast 'cure light wounds'", default: "me" })
    &&& command_is(groups[0].commands@[3], "cswf"@, GenericCommandExecution::AppendArgsDefault { prefix: "repeat inf cast 'cure serious wounds'", default: "me" })
    &&& group_is(groups[1], "common_spells"@, "Common Spells"@, 3)
    &&& command_is(groups[1].commands@[0], "cww"@, GenericCommandExecution::AppendArgsDefault { prefix: "cast 'water walking'", default: "me" })
    &&& command_is(groups[1].commands@[1], "cinv"@, GenericCommandExecution::AppendArgsDefault { prefix: "cast 'invisibility'", default: "me" })
    &&& command_is(groups[1].commands@[2], "cinf"@, GenericCommandExecution::AppendArgsDefault { prefix: "cast 'infravision'", default: "me" })
    &&& group_is(groups[2], "navigator"@, "Navigator"@, 4)
    &&& command_is(groups[2].commands@[0], "ctwe"@, GenericCommandExecution::Fixed("cast 'teleport with error'"))
    &&& command_is(groups[2].commands@[1], "ctw"@, GenericCommandExecution::Fixed("cast 'teleport without error'"))
    &&& command_is(groups[2].commands@[2], "cr"@, GenericCommandExecution::AppendArgs { prefix: "cast 'relocate'" })
    &&& command_is(groups[2].commands@[3], "chw"@, GenericCommandExecution::AppendArgsDefault { prefix: "cast 'heavy weight'", default: "me" })
    &&& group_is(groups[3], "common_skills"@, "Common Skills"@, 2)
    &&& command_is(groups[3].commands@[0], "ufb"@, GenericCommandExecution::Fixed("use 'fire building'"))
    &&& command_is(groups[3].commands@[1], "camp"@, GenericCommandExecution::Fixed("use 'camping'"))
    &&& group_is(groups[4], "misc"@, "Misc"@, 3)
    &&& command_is(groups[4].commands@[0], "lich_rip"@, GenericCommandExecution::Fixed("rip_action set get all from corpse;drop zinc;drop mowgles"))
    &&& command_is(groups[4].commands@[1], "normal_rip"@, GenericCommandExecution::Fixed("rip_action set get all from corpse;dig grave;drop zinc;drop mowgles"))
    &&& command_is(groups[4].commands@[2], "dig_rip"@, GenericCommandExecution::Fixed("rip_action set get all from corpse;dig grave;drop zinc;drop mowgles"))
}

proof fn lemma_flat_take_step(groups: Seq<GenericCommandGroup>, g: int)
    requires
        0 <= g < groups.len(),
    ensures
        flat_commands(groups.take(g + 1)) == flat_commands(groups.take(g)) + groups[g].commands@,
{
    assert(groups.take(g + 1).drop_last() =~= groups.take(g));
}

fn string_eq(a: &String, b: &str) -> (r: bool)
    ensures
        r == (a@ == b@),
{
    crate::command::str_eq(a.as_str(), b)
}

fn contains_name(names: &[String], name: &String) -> (r: bool)
    ensures
        r == listed(names@, name@),
{
    let mut i: usize = 0;
    while i < names.len()
        invariant
            i <= names@.len(),
            forall|k: int| 0 <= k < i ==> (#[trigger] names@[k])@ != name@,
        decreases names.len() - i,
    {
        if string_eq(name, names[i].as_str()) {
            return true;
        }
        i = i + 1;
    }
    false
}

impl Default for GenericCommands {
    fn default() -> (r: Self)
        ensures
            is_predefined(r.groups@),
    {
        Self::with_predefined_groups()
    }
}

impl GenericCommands {
    /// Create with all predefined groups enabled.
    pub fn with_predefined_groups() -> (r: Self)
        ensures
            is_predefined(r.groups@),
    {
        let groups = vec![
            Self::cure_spells_group(),
            Self::common_spells_group(),
            Self::navigator_group(),
            Self::common_skills_group(),
            Self::misc_group(),
        ];
        GenericCommands { groups }
    }

    /// The send line of the first enabled command with this alias.
    pub fn render_command(&self, alias: &str, args: &str) -> (r: Option<String>)
        ensures
            match r {
                Some(s) => exists|k: int|
                    is_first_answer(flat_commands(self.groups@), alias@, k) && s@ == client_send_seq(
                        render_logical_seq(flat_commands(self.groups@)[k].execution, args@),
                    ),
                None => forall|k: int|
                    0 <= k < flat_commands(self.groups@).len() ==> !answers_alias(
                        #[trigger] flat_commands(self.groups@)[k],
                        alias@,
                    ),
            },
    {
        let ghost all = flat_commands(self.groups@);
        let mut g: usize = 0;
        assert(self.groups@.take(0) =~= Seq::<GenericCommandGroup>::empty());
        while g < self.groups.len()
            invariant
                g <= self.groups@.len(),
                all == flat_commands(self.groups@),
                forall|k: int|
                    0 <= k < flat_commands(self.groups@.take(g as int)).len() ==> !answers_alias(
                        #[trigger] flat_commands(self.groups@.take(g as int))[k],
                        alias@,
                    ),
            decreases self.groups.len() - g,
        {
            let group = &self.groups[g];
            let ghost base = flat_commands(self.groups@.take(g as int));
            proof {
                lemma_flat_take_step(self.groups@, g as int);
            }
            let mut i: usize = 0;
            while i < group.commands.len()
                invariant
                    i <= group.commands@.len(),
                    g < self.groups@.len(),
                    *group == self.groups@[g as int],
                    base == flat_commands(self.groups@.take(g as int)),
                    all == flat_commands(self.groups@),
                    flat_commands(self.groups@.take(g + 1)) == base + group.commands@,
                    forall|k: int| 0 <= k < base.len() ==> !answers_alias(#[trigger] base[k], alias@),
                    forall|k: int| 0 <= k < i ==> !answers_alias(#[trigger] group.commands@[k], alias@),
                decreases group.commands.len() - i,
            {
                let cmd = &group.commands[i];
                if cmd.enabled && string_eq(&cmd.alias, alias) {
                    let ghost k = base.len() + i;
                    proof {
                        lemma_flat_prefix(self.groups@, g as int + 1);
                        assert(all[k] == group.commands@[i as int]);
                        assert forall|j: int| 0 <= j < k implies !answers_alias(#[trigger] all[j], alias@) by {
                            if j < base.len() {
                                assert(all[j] == base[j]);
                            } else {
                                assert(all[j] == group.commands@[j - base.len()]);
                            }
                        }
                        assert(is_first_answer(all, alias@, k));
                    }
                    return Some(cmd.render(args));
                }
                i = i + 1;
            }
            proof {
                assert forall|k: int|
                    0 <= k < flat_commands(self.groups@.take(g + 1)).len() implies !answers_alias(
                    #[trigger] flat_commands(self.groups@.take(g + 1))[k],
                    alias@,
                ) by {
                    if k < base.len() {
                        assert(flat_commands(self.groups@.take(g + 1))[k] == base[k]);
                    } else {
                        assert(flat_commands(self.groups@.take(g + 1))[k] == group.commands@[k
                            - base.len()]);
                    }
                }
            }
            g = g + 1;
        }
        assert(self.groups@.take(g as int) =~= self.groups@);
        None
    }

    /// Apply configuration to enable/disable groups and specific commands.
    ///
    /// A command ends up enabled exactly when its group is enabled (every group
    /// is, when `enabled_groups` is empty) and its alias is not disabled.
    pub fn apply_config(&mut self, enabled_groups: &[String], disabled_commands: &[String])
        ensures
            final(self).groups@.len() == old(self).groups@.len(),
            forall|g: int|
                0 <= g < old(self).groups@.len() ==> {
                    let before = #[trigger] old(self).groups@[g];
                    let after = final(self).groups@[g];
                    &&& after.name@ == before.name@
                    &&& after.display_name@ == before.display_name@
                    &&& after.commands@.len() == before.commands@.len()
                    &&& forall|i: int|
                        0 <= i < before.commands@.len() ==> {
                            let c = #[trigger] after.commands@[i];
                            &&& c.alias@ == before.commands@[i].alias@
                            &&& c.execution == before.commands@[i].execution
                            &&& c.enabled == (group_enabled_by(enabled_groups@, before.name@)
                                && !listed(disabled_commands@, before.commands@[i].alias@))
                        }
                },
    {
        let filter_groups = enabled_groups.len() > 0;
        let mut new_groups: Vec<GenericCommandGroup> = Vec::new();
        let mut g: usize = 0;
        while g < self.groups.len()
            invariant
                g <= self.groups@.len(),
                self.groups@ == old(self).groups@,
                filter_groups == (enabled_groups@.len() > 0),
                new_groups@.len() == g,
                forall|h: int|
                    0 <= h < g ==> {
                        let before = #[trigger] old(self).groups@[h];
                        let after = new_groups@[h];
                        &&& after.name@ == before.name@
                        &&& after.display_name@ == before.display_name@
                        &&& after.commands@.len() == before.commands@.len()
                        &&& forall|i: int|
                            0 <= i < before.commands@.len() ==> {
                                let c = #[trigger] after.commands@[i];
                                &&& c.alias@ == before.commands@[i].alias@
                                &&& c.execution == before.commands@[i].execution
                                &&& c.enabled == (group_enabled_by(enabled_groups@, before.name@)
                                    && !listed(disabled_commands@, before.commands@[i].alias@))
                            }
                    },
            decreases self.groups.len() - g,
        {
            let group = &self.groups[g];
            let group_enabled = if filter_groups {
                contains_name(enabled_groups, &group.name)
            } else {
                true
            };
            assert(group_enabled == group_enabled_by(enabled_groups@, group.name@));
            let mut cmds: Vec<GenericCommand> = Vec::new();
            let mut i: usize = 0;
            while i < group.commands.len()
                invariant
                    i <= group.commands@.len(),
                    cmds@.len() == i,
                    group_enabled == group_enabled_by(enabled_groups@, group.name@),
                    forall|k: int|
                        0 <= k < i ==> {
                            let c = #[trigger] cmds@[k];
                            &&& c.alias@ == group.commands@[k].alias@
                            &&& c.execution == group.commands@[k].execution
                            &&& c.enabled == (group_enabled && !listed(
                                disabled_commands@,
                                group.commands@[k].alias@,
                            ))
                        },
                decreases group.commands.len() - i,
            {
                let cmd = &group.commands[i];
                let disabled = contains_name(disabled_commands, &cmd.alias);
                cmds.push(
                    GenericCommand {
                        alias: cmd.alias.clone(),
                        execution: cmd.execution,
                        enabled: group_enabled && !disabled,
                    },
                );
                i = i + 1;
            }
            new_groups.push(
                GenericCommandGroup {
                    name: group.name.clone(),
                    display_name: group.display_name.clone(),
                    commands: cmds,
                },
            );
            g = g + 1;
        }
        self.groups = new_groups;
    }

    pub fn cure_spells_group() -> (r: GenericCommandGroup)
        ensures
            group_is(r, "cure_spells"@, "Cure Spells"@, 4),
            command_is(r.commands@[0], "clw"@, GenericCommandExecution::AppendArgsDefault { prefix: "cast 'cure light wounds'", default: "me" }),
            command_is(r.commands@[1], "csw"@, GenericCommandExecution::AppendArgsDefault { prefix: "cast 'cure serious wounds'", default: "me" }),
            command_is(r.commands@[2], "clwf"@, GenericCommandExecution::AppendArgsDefault { prefix: "repeat inf cast 'cure light wounds'", default: "me" }),
            command_is(r.commands@[3], "cswf"@, GenericCommandExecution::AppendArgsDefault { prefix: "repeat inf cast 'cure serious wounds'", default: "me" }),
    {
        GenericCommandGroup::new(
            "cure_spells",
            "Cure Spells",
            vec![
                GenericCommand::new(
                    "clw",
                    GenericCommandExecution::append_args_default("cast 'cure light wounds'", "me"),
                ),
                GenericCommand::new(
                    "csw",
                    GenericCommandExecution::append_args_default(
                        "cast 'cure serious wounds'",
                        "me",
                    ),
                ),
                GenericCommand::new(
                    "clwf",
                    GenericCommandExecution::append_args_default(
                        "repeat inf cast 'cure light wounds'",
                        "me",
                    ),
                ),
                GenericCommand::new(
                    "cswf",
                    GenericCommandExecution::append_args_default(
                        "repeat inf cast 'cure serious wounds'",
                        "me",
                    ),
                ),
            ],
        )
    }

    pub fn common_spells_group() -> (r: GenericCommandGroup)
        ensures
            group_is(r, "common_spells"@, "Common Spells"@, 3),
            command_is(r.commands@[0], "cww"@, GenericCommandExecution::AppendArgsDefault { prefix: "cast 'water walking'", default: "me" }),
            command_is(r.commands@[1], "cinv"@, GenericCommandExecution::AppendArgsDefault { prefix: "cast 'invisibility'", default: "me" }),
            command_is(r.commands@[2], "cinf"@, GenericCommandExecution::AppendArgsDefault { prefix: "cast 'infravision'", default: "me" }),
    {
        GenericCommandGroup::new(
            "common_spells",
            "Common Spells",
            vec![
                GenericCommand::new(
                    "cww",
                    GenericCommandExecution::append_args_default("cast 'water walking'", "me"),
                ),
                GenericCommand::new(
                    "cinv",
                    GenericCommandExecution::append_args_default("cast 'invisibility'", "me"),
                ),
                GenericCommand::new(
                    "cinf",
                    GenericCommandExecution::append_args_default("cast 'infravision'", "me"),
                ),
            ],
        )
    }

    pub fn navigator_group() -> (r: GenericCommandGroup)
        ensures
            group_is(r, "navigator"@, "Navigator"@, 4),
            command_is(r.commands@[0], "ctwe"@, GenericCommandExecution::Fixed("cast 'teleport with error'")),
            command_is(r.commands@[1], "ctw"@, GenericCommandExecution::Fixed("cast 'teleport without error'")),
            command_is(r.commands@[2], "cr"@, GenericCommandExecution::AppendArgs { prefix: "cast 'relocate'" }),
            command_is(r.commands@[3], "chw"@, GenericCommandExecution::AppendArgsDefault { prefix: "cast 'heavy weight'", default: "me" }),
    {
        GenericCommandGroup::new(
            "navigator",
            "Navigator",
            vec![
                GenericCommand::new(
                    "ctwe",
                    GenericCommandExecution::fixed("cast 'teleport with error'"),
                ),
                GenericCommand::new(
                    "ctw",
                    GenericCommandExecution::fixed("cast 'teleport without error'"),
                ),
                GenericCommand::new("cr", GenericCommandExecution::append_args("cast 'relocate'")),
                GenericCommand::new(
                    "chw",
                    GenericCommandExecution::append_args_default("cast 'heavy weight'", "me"),
                ),
            ],
        )
    }

    pub fn common_skills_group() -> (r: GenericCommandGroup)
        ensures
            group_is(r, "common_skills"@, "Common Skills"@, 2),
            command_is(r.commands@[0], "ufb"@, GenericCommandExecution::Fixed("use 'fire building'")),
            command_is(r.commands@[1], "camp"@, GenericCommandExecution::Fixed("use 'camping'")),
    {
        GenericCommandGroup::new(
            "common_skills",
            "Common Skills",
            vec![
                GenericCommand::new("ufb", GenericCommandExecution::fixed("use 'fire building'")),
                GenericCommand::new("camp", GenericCommandExecution::fixed("use 'camping'")),
            ],
        )
    }

    pub fn misc_group() -> (r: GenericCommandGroup)
        ensures
            group_is(r, "misc"@, "Misc"@, 3),
            command_is(r.commands@[0], "lich_rip"@, GenericCommandExecution::Fixed("rip_action set get all from corpse;drop zinc;drop mowgles")),
            command_is(r.commands@[1], "normal_rip"@, GenericCommandExecution::Fixed("rip_action set get all from corpse;dig grave;drop zinc;drop mowgles")),
            command_is(r.commands@[2], "dig_rip"@, GenericCommandExecution::Fixed("rip_action set get all from corpse;dig grave;drop zinc;drop mowgles")),
    {
        GenericCommandGroup::new(
            "misc",
            "Misc",
            vec![
                GenericCommand::new(
                    "lich_rip",
                    GenericCommandExecution::fixed(
                        "rip_action set get all from corpse;drop zinc;drop mowgles",
                    ),
                ),
                GenericCommand::new(
                    "normal_rip",
                    GenericCommandExecution::fixed(
                        "rip_action set get all from corpse;dig grave;drop zinc;drop mowgles",
                    ),
                ),
                GenericCommand::new(
                    "dig_rip",
                    GenericCommandExecution::fixed(
                        "rip_action set get all from corpse;dig grave;drop zinc;drop mowgles",
                    ),
                ),
            ],
        )
    }
}

proof fn lemma_flat_prefix(groups: Seq<GenericCommandGroup>, g: int)
    requires
        0 <= g <= groups.len(),
    ensures
        flat_commands(groups) == flat_commands(groups.take(g)) + flat_commands(groups.skip(g)),
    decreases groups.len(),
{
    if g == groups.len() {
        assert(groups.take(g) =~= groups);
        assert(groups.skip(g) =~= Seq::<GenericCommandGroup>::empty());
        assert(flat_commands(groups) + Seq::<GenericCommand>::empty() =~= flat_commands(groups));
    } else {
        lemma_flat_prefix(groups.drop_last(), g);
        assert(groups.drop_last().take(g) =~= groups.take(g));
        assert(groups.skip(g).drop_last() =~= groups.drop_last().skip(g));
        assert(groups.skip(g).last() == groups.last());
        assert(flat_commands(groups.skip(g)) == flat_commands(groups.drop_last().skip(g))
            + groups.last().commands@);
    }
}

} // verus!
