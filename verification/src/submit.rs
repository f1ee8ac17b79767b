//! Submitting the command line: what the client does with the typed line
//! before and after login, and how the line, its history and the login record
//! change.
use crate::command::CommandEnvironment;
use crate::dispatch::{dispatch, dispatched, CommandDispatchInput, CommandEffect, Guild};
use crate::generic_commands::GenericCommands;
use crate::input_state::InputState;
use crate::session::{LoginState, SessionState, SessionView};
use crate::text::{chars_of, is_prefix, starts_with_chars};
use vstd::prelude::*;

verus! {

/// What submitting the line asks the client to carry out.
#[derive(Debug)]
pub enum SubmitAction {
    /// The effects of a slash command typed before login.
    Effects(Vec<CommandEffect>),
    /// The effects of a line typed after login; the lines they send are the
    /// player's own.
    UserEffects(Vec<CommandEffect>),
    /// A line typed before login, sent to the game as it is.
    Send(String),
}

/// The login record after the player typed `line` before login: at the name
/// prompt a non-empty line is the name; at the first prompt it is the choice.
pub open spec fn record_login_input(v: SessionView, line: Seq<char>) -> SessionView {
    if line.len() > 0 && v.state == LoginState::Name {
        SessionView { name: Some(line), ..v }
    } else if line.len() > 0 && v.state == LoginState::Choice {
        SessionView { last_input: Some(line), ..v }
    } else {
        v
    }
}

/// Submits the shown line. Before login a slash command is routed without
/// login, and any other line is recorded in the login flow and sent as typed;
/// the line and the typed text are then emptied. After login the line is
/// routed, then emptied and added to the history.
pub fn submit_step(
    input: &mut InputState,
    session: &mut SessionState,
    guilds: &[Box<dyn Guild>],
    generic: &GenericCommands,
    flags: Vec<(String, bool)>,
    vars: Vec<(String, String)>,
) -> (a: SubmitAction)
    requires
        old(input).wf(),
    ensures
        final(input).wf(),
        final(input).shown() == Seq::<char>::empty(),
        final(input).cursor() == 0,
        ({
            let line = old(input).shown();
            let env = CommandEnvironment { flags, vars };
            if old(session).view().state != LoginState::LoggedIn {
                &&& final(input).typed() == Seq::<char>::empty()
                &&& final(input).history() == old(input).history()
                &&& final(input).history_pos() == old(input).history_pos()
                &&& if is_prefix(seq!['/'], line) {
                    &&& a matches SubmitAction::Effects(es) && dispatched(es@, line, false, env, guilds@, *generic)
                    &&& final(session).view() == old(session).view()
                } else {
                    &&& a matches SubmitAction::Send(s) && s@ == line
                    &&& final(session).view() == record_login_input(old(session).view(), line)
                }
            } else {
                &&& a matches SubmitAction::UserEffects(es) && dispatched(es@, line, true, env, guilds@, *generic)
                &&& final(input).typed() == old(input).typed()
                &&& final(input).history() == old(input).history().push(line)
                &&& final(input).history_pos() == old(input).history().len() + 1
                &&& final(session).view() == old(session).view()
            }
        }),
{
    if !session.is_logged_in() {
        let line = input.take_displayed_input();
        let lc = chars_of(line.as_str());
        let slash = chars_of("/");
        proof {
            reveal_strlit("/");
        }
        let ghost v0 = session.view();
        let action = if starts_with_chars(lc.as_slice(), slash.as_slice()) {
            assert(slash@ == seq!['/']);
            let effects = dispatch(CommandDispatchInput::new(line.as_str(), false, flags, vars), guilds, generic);
            SubmitAction::Effects(effects)
        } else {
            assert(slash@ == seq!['/']);
            if lc.len() > 0 && session.login_state() == LoginState::Name {
                let name = line.clone();
                assert(name@ == line@);
                session.set_login_name(name);
            }
            if lc.len() > 0 && session.login_state() == LoginState::Choice {
                let choice = line.clone();
                assert(choice@ == line@);
                session.set_last_login_input(choice);
            }
            assert(session.view() == record_login_input(v0, line@));
            SubmitAction::Send(line)
        };
        input.clear_current_typed_input();
        return action;
    }
    let effects = dispatch(CommandDispatchInput::new(input.displayed_input(), true, flags, vars), guilds, generic);
    let line = input.take_displayed_input();
    input.push_history(line);
    SubmitAction::UserEffects(effects)
}

} // verus!
