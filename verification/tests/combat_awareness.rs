use batrs::combat_awareness::{
    CombatAwareness, CombatAwarenessEffect, LineHandlingResult, MAX_LINES_WAITING_FOR_ECHO,
};
use batrs::scan_grammar::{CombatCondition, DEATH_COMBAT_END_LINE, NOT_IN_COMBAT_LINE};


#[test]
fn round_header_emits_round_started_and_requests_probe() {
    let mut state = CombatAwareness::default();

    let result = state.handle_incoming_line("*** Round 1 ***");
    assert_eq!(
        result.effects,
        vec![
            CombatAwarenessEffect::RoundStarted,
            CombatAwarenessEffect::SendShortScore,
            CombatAwarenessEffect::SendProbe,
        ]
    );
    assert!(state.is_active());
    assert!(!state.is_idle());
}

#[test]
fn combat_awareness_later_combat_round_requests_probe_after_previous_probe_completed() {
    let mut state = CombatAwareness::default();
    state.handle_incoming_line("*** Round 1 ***");
    state.handle_incoming_line("scan all");
    state.handle_incoming_line("Guard is slightly hurt (70%).");
    state.handle_incoming_line("round output");

    let result = state.handle_incoming_line("*** Round 2 ***");
    assert_eq!(
        result.effects,
        vec![
            CombatAwarenessEffect::RoundStarted,
            CombatAwarenessEffect::SendShortScore,
            CombatAwarenessEffect::SendProbe,
        ]
    );
    assert!(!state.is_idle());
}

#[test]
fn combat_awareness_captures_rows_after_echo_and_replaces_snapshot_on_terminator() {
    let mut state = CombatAwareness::default();
    state.handle_incoming_line("*** Round 1 ***");

    assert!(state.handle_incoming_line("scan all").gag);
    assert!(
        state
            .handle_incoming_line("Guard is noticeably hurt (50%).")
            .gag
    );
    assert!(
        !state
            .handle_incoming_line("Hp:1/2 Sp:3/4 Ep:5/6 Exp:7 >")
            .gag
    );

    assert_eq!(state.snapshot().len(), 1);
    assert_eq!(state.snapshot()[0].name(), "Guard");
    assert_eq!(
        state.snapshot()[0].condition(),
        CombatCondition::NoticeablyHurt
    );
    assert_eq!(state.snapshot()[0].percent(), 50);
    assert!(state.is_idle());
}

#[test]
fn combat_awareness_cadence_requests_every_second_user_command_when_idle() {
    let mut state = CombatAwareness::default();
    state.handle_incoming_line("*** Round 1 ***");
    state.handle_incoming_line("scan all");
    state.handle_incoming_line("Guard is noticeably hurt (50%).");
    state.handle_incoming_line("done");

    assert_eq!(state.observe_user_game_command(), None);
    assert_eq!(
        state.observe_user_game_command(),
        Some(CombatAwarenessEffect::SendProbe)
    );
    assert_eq!(state.observe_user_game_command(), None);
}

#[test]
fn combat_end_clears_state_and_gags_internal_probe_response() {
    let mut state = CombatAwareness::default();
    state.handle_incoming_line("*** Round 1 ***");

    let result = state.handle_incoming_line(NOT_IN_COMBAT_LINE);
    assert_eq!(
        result,
        LineHandlingResult {
            gag: true,
            effects: vec![CombatAwarenessEffect::CombatEnded],
        }
    );
    assert!(!state.is_active());
    assert!(state.snapshot().is_empty());
    assert!(state.is_idle());
}

#[test]
fn organic_combat_end_is_visible() {
    let mut state = CombatAwareness::default();
    state.handle_incoming_line("*** Round 1 ***");
    state.handle_incoming_line("scan all");
    state.handle_incoming_line("Guard is noticeably hurt (50%).");
    state.handle_incoming_line("done");

    let result = state.handle_incoming_line(NOT_IN_COMBAT_LINE);
    assert_eq!(
        result,
        LineHandlingResult {
            gag: false,
            effects: vec![CombatAwarenessEffect::CombatEnded],
        }
    );
}

#[test]
fn death_combat_end_clears_state_and_emits_combat_ended() {
    let mut state = CombatAwareness::default();
    state.handle_incoming_line("*** Round 1 ***");

    let result = state.handle_incoming_line(DEATH_COMBAT_END_LINE);
    assert_eq!(
        result,
        LineHandlingResult {
            gag: true,
            effects: vec![CombatAwarenessEffect::CombatEnded],
        }
    );
    assert!(!state.is_active());
    assert!(state.snapshot().is_empty());
    assert!(state.is_idle());
}

#[test]
fn organic_death_combat_end_is_visible() {
    let mut state = CombatAwareness::default();
    state.handle_incoming_line("*** Round 1 ***");
    state.handle_incoming_line("scan all");
    state.handle_incoming_line("Guard is noticeably hurt (50%).");
    state.handle_incoming_line("done");

    let result = state.handle_incoming_line(DEATH_COMBAT_END_LINE);
    assert_eq!(
        result,
        LineHandlingResult {
            gag: false,
            effects: vec![CombatAwarenessEffect::CombatEnded],
        }
    );
}

#[test]
fn combat_awareness_prompt_before_echo_does_not_cancel_in_flight_probe() {
    let mut state = CombatAwareness::default();
    state.handle_incoming_line("*** Round 1 ***");

    assert!(
        !state
            .handle_incoming_line("Hp:1/2 Sp:3/4 Ep:5/6 Exp:7 >")
            .gag
    );
    assert!(state.handle_incoming_line("scan all").gag);
    assert!(
        state
            .handle_incoming_line("Guard is slightly hurt (70%).")
            .gag
    );
    assert!(!state.handle_incoming_line("done").gag);
    assert_eq!(state.snapshot().len(), 1);
}

#[test]
fn combat_awareness_missing_echo_recovers_after_bounded_line_count() {
    let mut state = CombatAwareness::default();
    state.handle_incoming_line("*** Round 1 ***");

    for _ in 0..MAX_LINES_WAITING_FOR_ECHO {
        assert!(!state.handle_incoming_line("ordinary output").gag);
    }

    assert!(state.is_idle());
}

#[test]
fn scan_row_before_echo_is_gagged() {
    let mut state = CombatAwareness::default();
    state.handle_incoming_line("*** Round 1 ***");

    assert!(
        state
            .handle_incoming_line("Guard is slightly hurt (70%).")
            .gag
    );
    assert!(state.handle_incoming_line("scan all").gag);
    assert!(!state.handle_incoming_line("done").gag);
    assert_eq!(state.snapshot().len(), 1);
}

#[test]
fn hash_scan_all_echo_is_gagged() {
    let mut state = CombatAwareness::default();
    state.handle_incoming_line("*** Round 1 ***");

    assert!(state.handle_incoming_line("#scan all").gag);
    assert!(
        state
            .handle_incoming_line("Guard is slightly hurt (70%).")
            .gag
    );
}

#[test]
fn orphan_probe_response_during_idle_combat_is_gagged() {
    let mut state = CombatAwareness::default();
    state.handle_incoming_line("*** Round 1 ***");

    for _ in 0..MAX_LINES_WAITING_FOR_ECHO {
        state.handle_incoming_line("ordinary output");
    }
    assert!(state.is_idle());

    assert!(state.handle_incoming_line("scan all").gag);
    assert!(
        state
            .handle_incoming_line("Guard is slightly hurt (70%).")
            .gag
    );
    assert!(!state.handle_incoming_line("done").gag);
    assert_eq!(state.snapshot().len(), 1);
}

#[test]
fn second_probe_echo_during_capturing_rows_is_gagged() {
    let mut state = CombatAwareness::default();
    state.handle_incoming_line("*** Round 1 ***");
    state.handle_incoming_line("scan all");
    state.handle_incoming_line("Guard is slightly hurt (70%).");

    assert!(state.handle_incoming_line("scan all").gag);
    assert!(!state.handle_incoming_line("done").gag);
    assert_eq!(state.snapshot().len(), 1);
}

#[test]
fn scan_row_with_status_suffix_is_parsed_into_snapshot() {
    let mut state = CombatAwareness::default();
    state.handle_incoming_line("*** Round 1 ***");
    state.handle_incoming_line("scan all");
    assert!(
        state
            .handle_incoming_line("Guard is in a good shape (90%) and stunned.")
            .gag
    );
    state.handle_incoming_line("done");

    assert_eq!(state.snapshot().len(), 1);
    assert_eq!(state.snapshot()[0].name(), "Guard");
    assert_eq!(state.snapshot()[0].condition(), CombatCondition::Good);
    assert_eq!(state.snapshot()[0].percent(), 90);
    assert_eq!(state.snapshot()[0].status(), Some("stunned"));
}

#[test]
fn round_header_during_waiting_for_echo_requests_fresh_probe_once() {
    let mut state = CombatAwareness::default();
    state.handle_incoming_line("*** Round 1 ***");
    assert!(!state.is_idle());

    let result = state.handle_incoming_line("*** Round 2 ***");
    assert_eq!(
        result.effects,
        vec![
            CombatAwarenessEffect::RoundStarted,
            CombatAwarenessEffect::SendShortScore,
            CombatAwarenessEffect::SendProbe,
        ]
    );
    assert!(!state.is_idle());
}

#[test]
fn death_line_outside_combat_still_reports_end() {
    let mut state = CombatAwareness::default();
    let result = state.handle_incoming_line(DEATH_COMBAT_END_LINE);
    assert_eq!(result, LineHandlingResult { gag: false, effects: vec![CombatAwarenessEffect::CombatEnded] });
}

#[test]
fn lines_outside_combat_are_not_gagged() {
    let mut state = CombatAwareness::default();
    assert!(!state.handle_incoming_line("Guard is slightly hurt (70%).").gag);
    assert!(!state.handle_incoming_line("scan all").gag);
    assert!(state.snapshot().is_empty());
    assert!(!state.is_active());
}

#[test]
fn user_commands_outside_combat_never_probe() {
    let mut state = CombatAwareness::default();
    for _ in 0..5 {
        assert_eq!(state.observe_user_game_command(), None);
    }
}
