use batrs::command::{CommandEnvironment, Data, ParsedCommand, ShortcutEntry, TriggerCatalogEntry};
use batrs::dispatch::{
    automations, dispatch, route_after_guilds, send, Action, CommandDispatchInput, CommandEffect,
    DialogKind, Guild, GuildAnswer, GuildText,
};
use batrs::generic_commands::GenericCommands;

struct DummyGuild;

impl Guild for DummyGuild {
    fn answer(&self, _cmd: GuildText, _args: GuildText, _env: CommandEnvironment) -> GuildAnswer {
        unreachable!()
    }

    fn run_command(&self, parsed: &ParsedCommand, env: &CommandEnvironment) -> Option<Vec<CommandEffect>> {
        if parsed.name() == "ping" {
            Some(ping_handler(parsed, env))
        } else {
            None
        }
    }
}

fn ping_handler(data: &Data, _env: &CommandEnvironment) -> Vec<CommandEffect> {
    if data.args.is_empty() {
        send("pong".to_string())
    } else {
        send(format!("pong {}", data.args))
    }
}

fn dispatch_line(line: &str, logged_in: bool, guilds: &[Box<dyn Guild>]) -> Vec<CommandEffect> {
    dispatch(
        CommandDispatchInput::new(line, logged_in, Vec::new(), Vec::new()),
        guilds,
        &GenericCommands::default(),
    )
}

fn send_effects(effects: &[CommandEffect]) -> Vec<&str> {
    effects
        .iter()
        .filter_map(|effect| match effect {
            CommandEffect::Send(line) => Some(line.as_str()),
            _ => None,
        })
        .collect()
}

#[test]
fn parsed_command_trims_and_parses_command_and_args() {
    let data = ParsedCommand::new("  TeSt arg1 arg2  ");

    assert_eq!(data.original(), "test arg1 arg2");
    assert_eq!(data.name(), "test");
    assert_eq!(data.args, "arg1 arg2");
}

#[test]
fn dispatch_sends_empty_input_when_logged_in() {
    let effects = dispatch_line("  ", true, &[]);

    assert_eq!(send_effects(&effects), vec![""]);
}

#[test]
fn dispatch_ignores_empty_input_before_login() {
    let effects = dispatch_line("  ", false, &[]);

    assert!(effects.is_empty());
}

#[test]
fn dispatch_handles_builtin_quit() {
    let effects = dispatch_line("/quit", false, &[]);

    assert!(matches!(effects.as_slice(), [CommandEffect::Quit]));
}

#[test]
fn dispatch_handles_connect_before_login_as_client_reconnect() {
    let effects = dispatch_line("/connect", false, &[]);

    assert!(matches!(effects.as_slice(), [CommandEffect::Reconnect]));
    assert!(send_effects(&effects).is_empty());
}

#[test]
fn dispatch_handles_connect_after_login_as_client_reconnect() {
    let guilds: Vec<Box<dyn Guild>> = vec![Box::new(DummyGuild)];
    let effects = dispatch_line("/connect", true, &guilds);

    assert!(matches!(effects.as_slice(), [CommandEffect::Reconnect]));
    assert!(send_effects(&effects).is_empty());
}

#[test]
fn dispatch_handles_raw_logs_toggle() {
    let effects = dispatch_line("/raw_logs", false, &[]);

    assert!(matches!(effects.as_slice(), [CommandEffect::ToggleRawLogs]));
}

#[test]
fn dispatch_handles_builtin_help() {
    let effects = dispatch_line("/help", false, &[]);
    let lines: Vec<&str> = effects
        .iter()
        .filter_map(|effect| match effect {
            CommandEffect::Output(line) => Some(line.plain_line.as_str()),
            _ => None,
        })
        .collect();

    assert!(lines.contains(&"/help - Shows client slash commands."));
    assert!(lines.contains(&"/quit - Closes the client."));
    assert!(lines.contains(&"/connect - Starts a fresh BatMUD connection."));
    assert!(lines.contains(&"/guilds - Opens the guild picker."));
    assert!(lines.contains(&"/generic - Opens generic shortcut groups."));
    assert!(lines.contains(&"/settings - Opens the settings editor."));
    assert!(lines.contains(&"/raw_logs - Toggles raw log capture."));
    assert!(
        lines.contains(&"/clear - Redraws the display from memory (fixes screen artifacts).")
    );
}

#[test]
fn dispatch_handles_clear_before_login() {
    let effects = dispatch_line("/clear", false, &[]);

    assert!(matches!(effects.as_slice(), [CommandEffect::Redraw]));
    assert!(send_effects(&effects).is_empty());
}

#[test]
fn dispatch_handles_clear_after_login() {
    let guilds: Vec<Box<dyn Guild>> = vec![Box::new(DummyGuild)];
    let effects = dispatch_line("/clear", true, &guilds);

    assert!(matches!(effects.as_slice(), [CommandEffect::Redraw]));
    assert!(send_effects(&effects).is_empty());
}

#[test]
fn dispatch_handles_clear_with_extra_args() {
    let effects = dispatch_line("/clear foo", false, &[]);

    assert!(matches!(effects.as_slice(), [CommandEffect::Redraw]));
    assert!(send_effects(&effects).is_empty());
}

#[test]
fn dispatch_respects_builtin_login_requirements() {
    let effects = dispatch_line("/guilds", false, &[]);

    assert!(effects.is_empty());

    let effects = dispatch_line("/guilds", true, &[]);

    assert!(matches!(
        effects.as_slice(),
        [CommandEffect::OpenDialog(DialogKind::Guilds)]
    ));
}

#[test]
fn dispatch_requires_login_for_guild_commands() {
    let guilds: Vec<Box<dyn Guild>> = vec![Box::new(DummyGuild)];
    let effects = dispatch_line("ping world", false, &guilds);

    assert!(effects.is_empty());
}

#[test]
fn dispatch_runs_guild_commands() {
    let guilds: Vec<Box<dyn Guild>> = vec![Box::new(DummyGuild)];
    let effects = dispatch_line("ping world", true, &guilds);

    assert_eq!(send_effects(&effects), vec!["pong world"]);
}

#[test]
fn dispatch_runs_generic_commands_after_guild_commands() {
    let guilds: Vec<Box<dyn Guild>> = vec![Box::new(DummyGuild)];
    let effects = dispatch_line("ping world", true, &guilds);

    assert_eq!(send_effects(&effects), vec!["pong world"]);
}

#[test]
fn dispatch_runs_generic_commands() {
    let effects = dispatch_line("clw", true, &[]);

    assert_eq!(send_effects(&effects), vec!["@cast 'cure light wounds' me"]);
}

#[test]
fn dispatch_trims_unknown_command_passthrough() {
    let effects = dispatch_line("  some raw text  ", true, &[]);

    assert_eq!(send_effects(&effects), vec!["some raw text"]);
}

#[test]
fn slash_command_names_are_case_insensitive() {
    let effects = dispatch_line("/QUIT", false, &[]);

    assert!(matches!(effects.as_slice(), [CommandEffect::Quit]));
}

#[test]
fn route_uses_guild_answer_first() {
    let parsed = ParsedCommand::new("clw");
    let effects = route_after_guilds(&parsed, Some(send("x".to_string())), &GenericCommands::default());
    assert_eq!(send_effects(&effects), vec!["x"]);
}

#[test]
fn automations_wrap_each_action_in_order() {
    let effects = automations(vec![
        Action::SetVar("rig".to_string(), "bag".to_string()),
        Action::ClearFlag("x".to_string()),
    ]);
    assert_eq!(effects.len(), 2);
    assert!(matches!(&effects[0], CommandEffect::Automation(Action::SetVar(k, v)) if k == "rig" && v == "bag"));
    assert!(matches!(&effects[1], CommandEffect::Automation(Action::ClearFlag(k)) if k == "x"));
}

#[test]
fn catalog_entries_keep_their_text() {
    let shortcut = ShortcutEntry::new("/help", "Lists the commands.");
    assert_eq!(shortcut.alias, "/help");
    assert_eq!(shortcut.description, "Lists the commands.");
    let trigger = TriggerCatalogEntry::new("^You are hungry\\.$", "Eats.");
    assert_eq!(trigger.pattern, "^You are hungry\\.$");
    assert_eq!(trigger.description, "Eats.");
}

struct EchoGuild;

impl Guild for EchoGuild {
    fn answer(&self, _cmd: GuildText, _args: GuildText, _env: CommandEnvironment) -> GuildAnswer {
        unreachable!()
    }

    fn run_command(&self, parsed: &ParsedCommand, _env: &CommandEnvironment) -> Option<Vec<CommandEffect>> {
        if parsed.name() == "ping" || parsed.name() == "echo" {
            Some(send(format!("echo {}", parsed.name())))
        } else {
            None
        }
    }
}

#[test]
fn first_guild_with_the_command_answers() {
    let guilds: Vec<Box<dyn Guild>> = vec![Box::new(DummyGuild), Box::new(EchoGuild)];
    assert_eq!(send_effects(&dispatch_line("ping", true, &guilds)), vec!["pong"]);
    assert_eq!(send_effects(&dispatch_line("echo", true, &guilds)), vec!["echo echo"]);
    assert_eq!(send_effects(&dispatch_line("look", true, &guilds)), vec!["look"]);
    assert!(dispatch_line("ping", false, &guilds).is_empty());
}
