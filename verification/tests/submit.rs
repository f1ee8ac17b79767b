use batrs::dispatch::{CommandEffect, Guild};
use batrs::generic_commands::GenericCommands;
use batrs::input_state::InputState;
use batrs::session::{LoginState, SessionState};
use batrs::submit::{submit_step, SubmitAction};

fn type_line(input: &mut InputState, line: &str) {
    for c in line.chars() {
        input.insert_char(c);
    }
}

fn logged_in() -> SessionState {
    let mut session = SessionState::new();
    session.set_login_name("tester".to_string());
    session.update_login_state("Hp:1/2 Sp:3/4 Ep:5/6 Exp:7 >");
    assert!(session.is_logged_in());
    session
}

fn submit(input: &mut InputState, session: &mut SessionState) -> SubmitAction {
    let guilds: Vec<Box<dyn Guild>> = Vec::new();
    submit_step(input, session, &guilds, &GenericCommands::default(), Vec::new(), Vec::new())
}

#[test]
fn submitting_empty_line_after_login_sends_empty_command() {
    let mut input = InputState::new();
    let mut session = logged_in();
    match submit(&mut input, &mut session) {
        SubmitAction::UserEffects(effects) => {
            assert_eq!(effects.len(), 1);
            assert!(matches!(&effects[0], CommandEffect::Send(line) if line.is_empty()));
        },
        other => panic!("unexpected {other:?}"),
    }
}

#[test]
fn submitting_empty_line_before_login_sends_empty_command() {
    let mut input = InputState::new();
    let mut session = SessionState::new();
    match submit(&mut input, &mut session) {
        SubmitAction::Send(line) => assert_eq!(line, ""),
        other => panic!("unexpected {other:?}"),
    }
}

#[test]
fn name_typed_at_name_prompt_is_recorded_and_sent() {
    let mut input = InputState::new();
    let mut session = SessionState::new();
    session.update_login_state("What is your name:");
    assert_eq!(session.login_state(), LoginState::Name);
    type_line(&mut input, "Odefu");
    match submit(&mut input, &mut session) {
        SubmitAction::Send(line) => assert_eq!(line, "Odefu"),
        other => panic!("unexpected {other:?}"),
    }
    assert_eq!(session.login_name(), Some("Odefu"));
    assert_eq!(input.displayed_input(), "");
}

#[test]
fn slash_command_before_login_is_routed_not_sent() {
    let mut input = InputState::new();
    let mut session = SessionState::new();
    type_line(&mut input, "/quit");
    match submit(&mut input, &mut session) {
        SubmitAction::Effects(effects) => assert!(matches!(effects.as_slice(), [CommandEffect::Quit])),
        other => panic!("unexpected {other:?}"),
    }
}

#[test]
fn line_after_login_is_routed_and_kept_in_history() {
    let mut input = InputState::new();
    let mut session = logged_in();
    type_line(&mut input, "look");
    match submit(&mut input, &mut session) {
        SubmitAction::UserEffects(effects) => {
            assert!(matches!(effects.as_slice(), [CommandEffect::Send(line)] if line == "look"));
        },
        other => panic!("unexpected {other:?}"),
    }
    assert_eq!(input.displayed_input(), "");
    input.move_history(-1);
    assert_eq!(input.displayed_input(), "look");
}
