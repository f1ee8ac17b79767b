use batrs::session::{
    eq_ignore_ascii_case, prepare_connect, FreshSessionPlan, FreshSessionReset, LoginState,
    OutputDisposition, SessionLifecycle, SessionState, INITIAL_CONNECTION_ID,
};

#[test]
fn tracks_login_flow_and_logged_in_prompt() {
    let mut session = SessionState::new();

    assert_eq!(session.login_state(), LoginState::Choice);
    assert!(session.update_login_state("Please enter your choice or name:"));
    assert_eq!(session.login_state(), LoginState::Choice);

    assert!(session.update_login_state("What is your name:"));
    assert_eq!(session.login_state(), LoginState::Name);

    session.set_last_login_input("tester".to_string());
    assert!(session.update_login_state("Password:"));
    assert_eq!(session.login_state(), LoginState::Password);

    assert!(!session.is_logged_in());
    assert!(!session.update_login_state("Random text"));
    assert!(!session.is_logged_in());

    assert!(!session.update_login_state("Hp:1/2 Sp:3/4 Ep:5/6 Exp:7 >"));
    assert!(session.is_logged_in());
}

#[test]
fn password_prompt_takes_last_input_as_name() {
    let mut session = SessionState::new();
    session.set_last_login_input("tester".to_string());
    assert!(session.update_login_state("Password:  "));
    assert_eq!(session.login_name(), Some("tester"));
}

#[test]
fn wrong_password_returns_to_choice_and_forgets_name() {
    let mut session = SessionState::new();
    session.set_login_name("hero".to_string());
    assert!(session.update_login_state("You entered a wrong password!"));
    assert_eq!(session.login_state(), LoginState::Choice);
    assert_eq!(session.login_name(), None);
}

#[test]
fn prompt_with_empty_value_does_not_log_in() {
    let mut session = SessionState::new();
    assert!(!session.update_login_state("Hp:/2 Sp:3/4 Ep:5/6 Exp:7 >"));
    assert!(!session.is_logged_in());
}

#[test]
fn begin_fresh_session_bumps_connection_id() {
    let mut lifecycle = SessionLifecycle::new();

    let plan = lifecycle.begin_fresh_session(Some("hero".to_string()));

    assert_eq!(plan.connection_id, 1);
    let second = lifecycle.begin_fresh_session(None);
    assert_eq!(second.connection_id, 2);
}

#[test]
fn duplicate_reconnect_reports_already_in_progress() {
    let mut lifecycle = SessionLifecycle::new();
    lifecycle.set_reconnect_in_progress(true);

    let plan = prepare_connect(&mut lifecycle, None);

    assert!(plan.is_err());
    assert!(!lifecycle.is_stale(INITIAL_CONNECTION_ID));
}

#[test]
fn stale_events_use_active_connection_id() {
    let mut lifecycle = SessionLifecycle::new();
    lifecycle.begin_fresh_session(None);

    assert!(lifecycle.is_stale(INITIAL_CONNECTION_ID));
    assert!(!lifecycle.is_stale(1));
}

#[test]
fn prepare_connect_sets_guard_and_bumps_connection() {
    let mut lifecycle = SessionLifecycle::new();
    let plan = prepare_connect(&mut lifecycle, Some("hero".to_string())).unwrap();
    assert_eq!(plan.connection_id, 1);
    assert!(lifecycle.reconnect_in_progress());
    lifecycle.finish_reconnect();
    assert!(!lifecycle.reconnect_in_progress());
    assert!(lifecycle.is_stale(INITIAL_CONNECTION_ID));
}

#[test]
fn manifest_covers_every_reset_kind() {
    assert_eq!(
        FreshSessionPlan::new(1).resets().len(),
        FreshSessionReset::ALL().len()
    );
}

#[test]
fn same_character_keeps_scrollback() {
    let mut lifecycle = SessionLifecycle::new();
    lifecycle.begin_fresh_session(Some("hero".to_string()));

    let disposition = lifecycle.on_post_connect_login("hero");

    assert_eq!(disposition, Some(OutputDisposition::KeepScrollback));
    assert!(lifecycle.on_post_connect_login("hero").is_none());
}

#[test]
fn same_character_keeps_scrollback_case_insensitively() {
    let mut lifecycle = SessionLifecycle::new();
    lifecycle.begin_fresh_session(Some("Hero".to_string()));

    assert_eq!(
        lifecycle.on_post_connect_login("hero"),
        Some(OutputDisposition::KeepScrollback)
    );
}

#[test]
fn different_character_clears_output() {
    let mut lifecycle = SessionLifecycle::new();
    lifecycle.begin_fresh_session(Some("hero".to_string()));

    assert_eq!(
        lifecycle.on_post_connect_login("other"),
        Some(OutputDisposition::ClearOutput)
    );
}

#[test]
fn connect_before_login_clears_on_first_login() {
    let mut lifecycle = SessionLifecycle::new();
    lifecycle.begin_fresh_session(None);

    assert_eq!(
        lifecycle.on_post_connect_login("hero"),
        Some(OutputDisposition::ClearOutput)
    );
}

#[test]
fn login_without_connect_is_noop() {
    let mut lifecycle = SessionLifecycle::new();

    assert!(lifecycle.on_post_connect_login("hero").is_none());
}

#[test]
fn empty_login_after_anonymous_connect_keeps_output() {
    let mut lifecycle = SessionLifecycle::new();
    lifecycle.begin_fresh_session(None);
    assert_eq!(
        lifecycle.on_post_connect_login(""),
        Some(OutputDisposition::KeepScrollback)
    );
}

#[test]
fn ascii_case_is_ignored_only_for_ascii() {
    assert!(eq_ignore_ascii_case("HeRo", "hero"));
    assert!(!eq_ignore_ascii_case("Ä", "ä"));
}
