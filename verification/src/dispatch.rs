//! Routing of a typed line: client slash commands, guild commands, generic
//! shortcuts, and everything else sent to the game as typed.
use crate::ansi::line::{parse_line_spec, StyledLine};
use crate::command::{
    command_args_seq, command_name_seq, command_original_seq, str_eq, CommandEnvironment,
    ParsedCommand,
};
use crate::abilities::client_send_seq;
use crate::generic_commands::{flat_commands, is_first_answer, render_logical_seq, GenericCommands};
pub use crate::automation::Action;
use vstd::prelude::*;

verus! {

/// A client dialog.
#[derive(Clone, Copy, Debug, PartialEq, Eq, Structural)]
pub enum DialogKind {
    Guilds,
    GenericCommands,
    Settings,
}

/// What handling a typed line asks the client to do.
#[derive(Debug)]
pub enum CommandEffect {
    Send(String),
    Automation(Action),
    Output(StyledLine),
    OpenDialog(DialogKind),
    Reconnect,
    ToggleRawLogs,
    Quit,
    Redraw,
}

/// A typed line with the session facts that routing needs.
pub struct CommandDispatchInput {
    pub line: String,
    pub logged_in: bool,
    pub flags: Vec<(String, bool)>,
    pub vars: Vec<(String, String)>,
}

impl CommandDispatchInput {
    pub fn new(
        line: &str,
        logged_in: bool,
        flags: Vec<(String, bool)>,
        vars: Vec<(String, String)>,
    ) -> (r: Self)
        ensures
            r.line@ == line@,
            r.logged_in == logged_in,
            r.flags == flags,
            r.vars == vars,
    {
        CommandDispatchInput { line: line.to_string(), logged_in, flags, vars }
    }
}

/// A command's name or arguments, as characters.
pub type GuildText = Seq<char>;

/// What a guild answers to a command, as plain values: `None` where it has no
/// command of that name.
pub type GuildAnswer = Option<Seq<CommandEffect>>;

/// A guild's command set, implemented by each guild.
pub trait Guild {
    /// What the guild answers to the command `cmd` with arguments `args` in
    /// the environment `env`.
    spec fn answer(&self, cmd: GuildText, args: GuildText, env: CommandEnvironment) -> GuildAnswer;

    /// Runs the guild's command of this name, if the guild has one.
    fn run_command(&self, parsed: &ParsedCommand, env: &CommandEnvironment) -> (r: Option<
        Vec<CommandEffect>,
    >)
        ensures
            effects_view(r) == self.answer(parsed.cmd@, parsed.args@, *env),
    ;
}

/// The answer of the first guild, from `i` on, that has the command.
pub open spec fn first_guild_answer(
    guilds: Seq<Box<dyn Guild>>,
    cmd: Seq<char>,
    args: Seq<char>,
    env: CommandEnvironment,
    i: int,
) -> Option<Seq<CommandEffect>>
    decreases guilds.len() - i,
{
    if i < 0 || i >= guilds.len() {
        None
    } else {
        match guilds[i].answer(cmd, args, env) {
            Some(a) => Some(a),
            None => first_guild_answer(guilds, cmd, args, env, i + 1),
        }
    }
}

/// One effect: send a line.
pub fn send(line: String) -> (r: Vec<CommandEffect>)
    ensures
        r@.len() == 1,
        r@[0] matches CommandEffect::Send(s) && s@ == line@,
{
    vec![CommandEffect::Send(line)]
}

pub fn automation(action: Action) -> (r: CommandEffect)
    ensures
        r == CommandEffect::Automation(action),
{
    CommandEffect::Automation(action)
}

/// Each action as an automation effect, in order.
pub fn automations(actions: Vec<Action>) -> (r: Vec<CommandEffect>)
    ensures
        r@.len() == actions@.len(),
        forall|i: int| 0 <= i < r@.len() ==> r@[i] == CommandEffect::Automation(actions@[i]),
{
    let ghost all = actions@;
    let mut src = actions;
    let mut rev: Vec<Action> = Vec::new();
    while src.len() > 0
        invariant
            src@.len() <= all.len(),
            src@ == all.take(src@.len() as int),
            rev@ == all.skip(src@.len() as int).reverse(),
        decreases src@.len(),
    {
        let a = src.pop().unwrap();
        rev.push(a);
        proof {
            assert(src@ =~= all.take(src@.len() as int));
            assert(rev@ =~= all.skip(src@.len() as int).reverse());
        }
    }
    proof {
        assert(all.skip(0) =~= all);
    }
    let mut out: Vec<CommandEffect> = Vec::new();
    while rev.len() > 0
        invariant
            rev@.len() <= all.len(),
            rev@ == all.skip(all.len() - rev@.len()).reverse(),
            out@.len() == all.len() - rev@.len(),
            forall|i: int| 0 <= i < out@.len() ==> out@[i] == CommandEffect::Automation(all[i]),
        decreases rev@.len(),
    {
        let a = rev.pop().unwrap();
        proof {
            assert(all.skip(all.len() - rev@.len() - 1).reverse().last() == all[all.len()
                - rev@.len() - 1]);
        }
        out.push(CommandEffect::Automation(a));
        proof {
            assert(rev@ =~= all.skip(all.len() - rev@.len()).reverse());
        }
    }
    out
}

pub fn output(line: StyledLine) -> (r: CommandEffect)
    ensures
        r == CommandEffect::Output(line),
{
    CommandEffect::Output(line)
}

/// The client slash commands.
#[derive(Clone, Copy, Debug, PartialEq, Eq, Structural)]
pub enum Builtin {
    Help,
    Quit,
    Connect,
    Guilds,
    Generic,
    Settings,
    RawLogs,
    Clear,
}

/// The slash command of this name.
pub open spec fn builtin_of(name: Seq<char>) -> Option<Builtin> {
    if name == "/help"@ {
        Some(Builtin::Help)
    } else if name == "/quit"@ {
        Some(Builtin::Quit)
    } else if name == "/connect"@ {
        Some(Builtin::Connect)
    } else if name == "/guilds"@ {
        Some(Builtin::Guilds)
    } else if name == "/generic"@ {
        Some(Builtin::Generic)
    } else if name == "/settings"@ {
        Some(Builtin::Settings)
    } else if name == "/raw_logs"@ {
        Some(Builtin::RawLogs)
    } else if name == "/clear"@ {
        Some(Builtin::Clear)
    } else {
        None
    }
}

/// The dialogs need a logged-in session; the other slash commands work at any time.
pub open spec fn builtin_needs_login(b: Builtin) -> bool {
    b == Builtin::Guilds || b == Builtin::Generic || b == Builtin::Settings
}

/// The lines `/help` prints.
pub open spec fn help_line(i: int) -> Seq<char> {
    if i == 0 {
        "Client slash commands:"@
    } else if i == 1 {
        "/help - Shows client slash commands."@
    } else if i == 2 {
        "/quit - Closes the client."@
    } else if i == 3 {
        "/connect - Starts a fresh BatMUD connection."@
    } else if i == 4 {
        "/guilds - Opens the guild picker."@
    } else if i == 5 {
        "/generic - Opens generic shortcut groups."@
    } else if i == 6 {
        "/settings - Opens the settings editor."@
    } else if i == 7 {
        "/raw_logs - Toggles raw log capture."@
    } else {
        "/clear - Redraws the display from memory (fixes screen artifacts)."@
    }
}

/// Whether `r` is one effect that sends `text`.
pub open spec fn sends_exactly(r: Seq<CommandEffect>, text: Seq<char>) -> bool {
    &&& r.len() == 1
    &&& r[0] matches CommandEffect::Send(s) && s@ == text
}

/// What a slash command does.
pub open spec fn builtin_effects(b: Builtin, r: Seq<CommandEffect>) -> bool {
    match b {
        Builtin::Help => r.len() == 9 && forall|i: int|
            0 <= i < 9 ==> (#[trigger] r[i] matches CommandEffect::Output(l) && l.cells()
                == parse_line_spec(help_line(i)) && l.wf() && !l.gag),
        Builtin::Quit => r == seq![CommandEffect::Quit],
        Builtin::Connect => r == seq![CommandEffect::Reconnect],
        Builtin::Guilds => r == seq![CommandEffect::OpenDialog(DialogKind::Guilds)],
        Builtin::Generic => r == seq![CommandEffect::OpenDialog(DialogKind::GenericCommands)],
        Builtin::Settings => r == seq![CommandEffect::OpenDialog(DialogKind::Settings)],
        Builtin::RawLogs => r == seq![CommandEffect::ToggleRawLogs],
        Builtin::Clear => r == seq![CommandEffect::Redraw],
    }
}

/// The send line of the first enabled generic command with this alias.
pub open spec fn generic_answer(g: GenericCommands, alias: Seq<char>, args: Seq<char>) -> Option<
    Seq<char>,
> {
    let cmds = flat_commands(g.groups@);
    if exists|k: int| is_first_answer(cmds, alias, k) {
        let k = choose|k: int| is_first_answer(cmds, alias, k);
        Some(client_send_seq(render_logical_seq(cmds[k].execution, args)))
    } else {
        None
    }
}

/// Where a logged-in line goes once no slash command took it: the guild's
/// answer, else the generic shortcut's send line, else the line itself.
pub open spec fn routed(
    r: Seq<CommandEffect>,
    name: Seq<char>,
    args: Seq<char>,
    guild_answer: Option<Seq<CommandEffect>>,
    g: GenericCommands,
) -> bool {
    match guild_answer {
        Some(es) => r == es,
        None => match generic_answer(g, name, args) {
            Some(t) => sends_exactly(r, t),
            None => sends_exactly(r, command_original_seq(name, args)),
        },
    }
}

pub open spec fn effects_view(o: Option<Vec<CommandEffect>>) -> Option<Seq<CommandEffect>> {
    match o {
        Some(v) => Some(v@),
        None => None,
    }
}

fn builtin_lookup(name: &str) -> (r: Option<Builtin>)
    ensures
        r == builtin_of(name@),
{
    if str_eq(name, "/help") {
        Some(Builtin::Help)
    } else if str_eq(name, "/quit") {
        Some(Builtin::Quit)
    } else if str_eq(name, "/connect") {
        Some(Builtin::Connect)
    } else if str_eq(name, "/guilds") {
        Some(Builtin::Guilds)
    } else if str_eq(name, "/generic") {
        Some(Builtin::Generic)
    } else if str_eq(name, "/settings") {
        Some(Builtin::Settings)
    } else if str_eq(name, "/raw_logs") {
        Some(Builtin::RawLogs)
    } else if str_eq(name, "/clear") {
        Some(Builtin::Clear)
    } else {
        None
    }
}

fn help_output(text: &str, Ghost(i): Ghost<int>) -> (r: CommandEffect)
    requires
        text@ == help_line(i),
    ensures
        r matches CommandEffect::Output(l) && l.cells() == parse_line_spec(help_line(i)) && l.wf()
            && !l.gag,
{
    CommandEffect::Output(StyledLine::new(text))
}

fn builtin_help() -> (r: Vec<CommandEffect>)
    ensures
        builtin_effects(Builtin::Help, r@),
{
    let mut r: Vec<CommandEffect> = Vec::new();
    r.push(help_output("Client slash commands:", Ghost(0)));
    r.push(help_output("/help - Shows client slash commands.", Ghost(1)));
    r.push(help_output("/quit - Closes the client.", Ghost(2)));
    r.push(help_output("/connect - Starts a fresh BatMUD connection.", Ghost(3)));
    r.push(help_output("/guilds - Opens the guild picker.", Ghost(4)));
    r.push(help_output("/generic - Opens generic shortcut groups.", Ghost(5)));
    r.push(help_output("/settings - Opens the settings editor.", Ghost(6)));
    r.push(help_output("/raw_logs - Toggles raw log capture.", Ghost(7)));
    r.push(
        help_output("/clear - Redraws the display from memory (fixes screen artifacts).", Ghost(8)),
    );
    r
}

/// Runs a slash command.
pub fn run_builtin(b: Builtin) -> (r: Vec<CommandEffect>)
    ensures
        builtin_effects(b, r@),
{
    let one = match b {
        Builtin::Help => {
            return builtin_help();
        },
        Builtin::Quit => CommandEffect::Quit,
        Builtin::Connect => CommandEffect::Reconnect,
        Builtin::Guilds => CommandEffect::OpenDialog(DialogKind::Guilds),
        Builtin::Generic => CommandEffect::OpenDialog(DialogKind::GenericCommands),
        Builtin::Settings => CommandEffect::OpenDialog(DialogKind::Settings),
        Builtin::RawLogs => CommandEffect::ToggleRawLogs,
        Builtin::Clear => CommandEffect::Redraw,
    };
    let mut v: Vec<CommandEffect> = Vec::new();
    v.push(one);
    assert(v@ =~= seq![one]);
    v
}

proof fn lemma_first_answer_unique(cmds: Seq<crate::generic_commands::GenericCommand>, alias: Seq<char>, a: int, b: int)
    requires
        is_first_answer(cmds, alias, a),
        is_first_answer(cmds, alias, b),
    ensures
        a == b,
{
    if a < b {
        assert(!crate::generic_commands::answers_alias(cmds[a], alias));
    } else if b < a {
        assert(!crate::generic_commands::answers_alias(cmds[b], alias));
    }
}

/// The generic shortcut's send line for a command.
fn generic_lookup(g: &GenericCommands, alias: &str, args: &str) -> (r: Option<String>)
    ensures
        match generic_answer(*g, alias@, args@) {
            Some(t) => r matches Some(s) && s@ == t,
            None => r is None,
        },
{
    let r = g.render_command(alias, args);
    proof {
        let cmds = flat_commands(g.groups@);
        if r is Some {
            let s = r->0;
            let k = choose|k: int|
                is_first_answer(cmds, alias@, k) && s@ == client_send_seq(
                    render_logical_seq(cmds[k].execution, args@),
                );
            let k2 = choose|k: int| is_first_answer(cmds, alias@, k);
            lemma_first_answer_unique(cmds, alias@, k, k2);
        } else {
            assert forall|k: int| !is_first_answer(cmds, alias@, k) by {
                if 0 <= k < cmds.len() {
                    assert(!crate::generic_commands::answers_alias(cmds[k], alias@));
                }
            }
        }
    }
    r
}

/// Where a logged-in line goes once no slash command took it, given what the
/// guilds answered.
pub fn route_after_guilds(
    parsed: &ParsedCommand,
    guild_answer: Option<Vec<CommandEffect>>,
    generic: &GenericCommands,
) -> (r: Vec<CommandEffect>)
    ensures
        routed(r@, parsed.cmd@, parsed.args@, effects_view(guild_answer), *generic),
{
    match guild_answer {
        Some(es) => es,
        None => match generic_lookup(generic, parsed.name(), &parsed.args) {
            Some(line) => send(line),
            None => send(parsed.original()),
        },
    }
}

/// The answer of the first guild that has the command.
fn ask_guilds(guilds: &[Box<dyn Guild>], parsed: &ParsedCommand, env: &CommandEnvironment) -> (r:
    Option<Vec<CommandEffect>>)
    ensures
        effects_view(r) == first_guild_answer(guilds@, parsed.cmd@, parsed.args@, *env, 0),
{
    let mut i: usize = 0;
    while i < guilds.len()
        invariant
            i <= guilds@.len(),
            first_guild_answer(guilds@, parsed.cmd@, parsed.args@, *env, 0)
                == first_guild_answer(guilds@, parsed.cmd@, parsed.args@, *env, i as int),
        decreases guilds.len() - i,
    {
        let answer = guilds[i].run_command(parsed, env);
        if answer.is_some() {
            return answer;
        }
        i = i + 1;
    }
    None
}

/// What routing `line` gives: an empty line sends an empty line once logged in;
/// a slash command runs (the dialogs only once logged in); before login nothing
/// else happens; after login the first guild with the command runs it, else a
/// generic shortcut sends its line, else the line goes to the game.
pub open spec fn dispatched(
    r: Seq<CommandEffect>,
    line: Seq<char>,
    logged_in: bool,
    env: CommandEnvironment,
    guilds: Seq<Box<dyn Guild>>,
    generic: GenericCommands,
) -> bool {
    let name = command_name_seq(line);
    let args = command_args_seq(line);
    let orig = command_original_seq(name, args);
    if orig.len() == 0 {
        if logged_in {
            sends_exactly(r, seq![])
        } else {
            r.len() == 0
        }
    } else {
        match builtin_of(name) {
            Some(b) => if builtin_needs_login(b) && !logged_in {
                r.len() == 0
            } else {
                builtin_effects(b, r)
            },
            None => if !logged_in {
                r.len() == 0
            } else {
                routed(r, name, args, first_guild_answer(guilds, name, args, env, 0), generic)
            },
        }
    }
}

/// Routes a typed line.
pub fn dispatch(input: CommandDispatchInput, guilds: &[Box<dyn Guild>], generic: &GenericCommands) -> (r:
    Vec<CommandEffect>)
    ensures
        dispatched(
            r@,
            input.line@,
            input.logged_in,
            CommandEnvironment { flags: input.flags, vars: input.vars },
            guilds@,
            *generic,
        ),
{
    let parsed = ParsedCommand::new(&input.line);
    let original = parsed.original();
    let original_chars = crate::text::chars_of(&original);
    if original_chars.len() == 0 {
        if input.logged_in {
            let empty = String::new();
            assert(empty@ =~= Seq::<char>::empty());
            return send(empty);
        } else {
            return Vec::new();
        }
    }
    match builtin_lookup(parsed.name()) {
        Some(b) => {
            if builtin_needs_login_exec(b) && !input.logged_in {
                return Vec::new();
            }
            return run_builtin(b);
        },
        None => {},
    }
    if !input.logged_in {
        return Vec::new();
    }
    let env = CommandEnvironment::new(input.flags, input.vars);
    let answer = ask_guilds(guilds, &parsed, &env);
    route_after_guilds(&parsed, answer, generic)
}

fn builtin_needs_login_exec(b: Builtin) -> (r: bool)
    ensures
        r == builtin_needs_login(b),
{
    match b {
        Builtin::Guilds | Builtin::Generic | Builtin::Settings => true,
        _ => false,
    }
}

/// Each dialog command opens the dialog it names, and nothing else:
/// `/guilds` the guild dialog, `/generic` the generic-command dialog and
/// `/settings` the settings dialog.
pub proof fn law_dialog_commands_open_their_dialog(r: Seq<CommandEffect>)
    ensures
        builtin_of("/guilds"@) == Some(Builtin::Guilds),
        builtin_of("/generic"@) == Some(Builtin::Generic),
        builtin_of("/settings"@) == Some(Builtin::Settings),
        builtin_effects(Builtin::Guilds, r) <==> r == seq![CommandEffect::OpenDialog(DialogKind::Guilds)],
        builtin_effects(Builtin::Generic, r) <==> r == seq![CommandEffect::OpenDialog(DialogKind::GenericCommands)],
        builtin_effects(Builtin::Settings, r) <==> r == seq![CommandEffect::OpenDialog(DialogKind::Settings)],
{
    reveal_strlit("/help");
    reveal_strlit("/quit");
    reveal_strlit("/connect");
    reveal_strlit("/guilds");
    reveal_strlit("/generic");
    reveal_strlit("/settings");
    assert("/guilds"@[1] != "/help"@[1]);
    assert("/guilds"@[1] != "/quit"@[1]);
    assert("/guilds"@[1] != "/connect"@[1]);
    assert("/generic"@[1] != "/help"@[1]);
    assert("/generic"@[1] != "/quit"@[1]);
    assert("/generic"@[1] != "/connect"@[1]);
    assert("/generic"@.len() != "/guilds"@.len());
    assert("/settings"@[1] != "/help"@[1]);
    assert("/settings"@[1] != "/quit"@[1]);
    assert("/settings"@[1] != "/connect"@[1]);
    assert("/settings"@[1] != "/guilds"@[1]);
    assert("/settings"@[1] != "/generic"@[1]);
}

/// Once logged in, a typed line whose command is `/settings` yields exactly
/// one effect: opening the settings dialog; before login it yields nothing.
pub proof fn law_settings_command_opens_settings(
    r: Seq<CommandEffect>,
    line: Seq<char>,
    logged_in: bool,
    env: CommandEnvironment,
    guilds: Seq<Box<dyn Guild>>,
    generic: GenericCommands,
)
    requires
        command_name_seq(line) == "/settings"@,
        dispatched(r, line, logged_in, env, guilds, generic),
    ensures
        logged_in ==> r == seq![CommandEffect::OpenDialog(DialogKind::Settings)],
        !logged_in ==> r.len() == 0,
{
    law_dialog_commands_open_their_dialog(r);
    reveal_strlit("/settings");
    let name = command_name_seq(line);
    let args = command_args_seq(line);
    assert(command_original_seq(name, args).len() > 0) by {
        if args.len() > 0 {
            assert((name + " "@ + args).len() >= name.len());
        }
    }
}

/// The other slash commands do what they name: `/quit` quits, `/connect`
/// reconnects, `/raw_logs` toggles the raw logs and `/clear` redraws, each
/// as the one effect.
pub proof fn law_other_commands_do_what_they_name(r: Seq<CommandEffect>)
    ensures
        builtin_of("/quit"@) == Some(Builtin::Quit),
        builtin_of("/connect"@) == Some(Builtin::Connect),
        builtin_of("/raw_logs"@) == Some(Builtin::RawLogs),
        builtin_of("/clear"@) == Some(Builtin::Clear),
        builtin_effects(Builtin::Quit, r) <==> r == seq![CommandEffect::Quit],
        builtin_effects(Builtin::Connect, r) <==> r == seq![CommandEffect::Reconnect],
        builtin_effects(Builtin::RawLogs, r) <==> r == seq![CommandEffect::ToggleRawLogs],
        builtin_effects(Builtin::Clear, r) <==> r == seq![CommandEffect::Redraw],
{
    reveal_strlit("/help");
    reveal_strlit("/quit");
    reveal_strlit("/connect");
    reveal_strlit("/guilds");
    reveal_strlit("/generic");
    reveal_strlit("/settings");
    reveal_strlit("/raw_logs");
    reveal_strlit("/clear");
    assert("/quit"@[1] != "/help"@[1]);
    assert("/connect"@[1] != "/help"@[1]);
    assert("/connect"@[1] != "/quit"@[1]);
    assert("/raw_logs"@[1] != "/help"@[1]);
    assert("/raw_logs"@[1] != "/quit"@[1]);
    assert("/raw_logs"@[1] != "/connect"@[1]);
    assert("/raw_logs"@[1] != "/guilds"@[1]);
    assert("/raw_logs"@[1] != "/generic"@[1]);
    assert("/raw_logs"@[1] != "/settings"@[1]);
    assert("/clear"@[1] != "/help"@[1]);
    assert("/clear"@[1] != "/quit"@[1]);
    assert("/clear"@.len() != "/connect"@.len());
    assert("/clear"@[1] != "/guilds"@[1]);
    assert("/clear"@[1] != "/generic"@[1]);
    assert("/clear"@[1] != "/settings"@[1]);
    assert("/clear"@[1] != "/raw_logs"@[1]);
}

} // verus!
