use batrs::ansi::palette::TerminalColor;
use batrs::combat_scan::{wrap_pieces, CombatScanState, IncomingCombatScanLine, ScanSpan, ScanStyle};
use batrs::scan_grammar::{CombatCondition, NOT_IN_COMBAT_LINE, PROBE_COMMAND};

const MAX_LINES_WAITING_FOR_ECHO: u8 = batrs::combat_awareness::MAX_LINES_WAITING_FOR_ECHO;

#[test]
fn start_combat_requests_initial_probe_once() {
    let mut state = CombatScanState::new();

    assert_eq!(state.start_combat_round(), Some(PROBE_COMMAND));
    assert_eq!(state.start_combat_round(), None);
}

#[test]
fn combat_scan_later_combat_round_requests_probe_after_previous_probe_completed() {
    let mut state = CombatScanState::new();
    state.start_combat_round();
    state.handle_incoming_line("scan all");
    state.handle_incoming_line("Guard is slightly hurt (70%).");
    state.handle_incoming_line("round output");

    assert_eq!(state.start_combat_round(), Some(PROBE_COMMAND));
}

#[test]
fn combat_scan_captures_rows_after_echo_and_replaces_snapshot_on_terminator() {
    let mut state = CombatScanState::new();
    state.start_combat_round();

    assert_eq!(
        state.handle_incoming_line("scan all"),
        IncomingCombatScanLine::InternalProbe
    );
    assert_eq!(
        state.handle_incoming_line("Guard is noticeably hurt (50%)."),
        IncomingCombatScanLine::InternalProbe
    );
    assert_eq!(
        state.handle_incoming_line("Hp:1/2 Sp:3/4 Ep:5/6 Exp:7 >"),
        IncomingCombatScanLine::Visible
    );

    assert_eq!(state.snapshot().len(), 1);
    assert_eq!(state.snapshot()[0].name(), "Guard");
    assert_eq!(
        state.snapshot()[0].condition(),
        CombatCondition::NoticeablyHurt
    );
    assert_eq!(state.snapshot()[0].percent(), 50);
    assert!(state.is_idle());
}

#[test]
fn combat_scan_cadence_requests_every_second_user_command_when_idle() {
    let mut state = CombatScanState::new();
    state.start_combat_round();
    state.handle_incoming_line("scan all");
    state.handle_incoming_line("Guard is noticeably hurt (50%).");
    state.handle_incoming_line("done");

    assert_eq!(state.observe_user_game_command(), None);
    assert_eq!(state.observe_user_game_command(), Some(PROBE_COMMAND));
    assert_eq!(state.observe_user_game_command(), None);
}

#[test]
fn combat_end_clears_state_and_marks_probe_response_internal() {
    let mut state = CombatScanState::new();
    state.start_combat_round();

    assert_eq!(
        state.handle_incoming_line(NOT_IN_COMBAT_LINE),
        IncomingCombatScanLine::CombatEnded {
            internal_probe: true
        }
    );
    assert!(!state.is_active());
    assert!(state.snapshot().is_empty());
    assert!(state.is_idle());
}

#[test]
fn combat_scan_prompt_before_echo_does_not_cancel_in_flight_probe() {
    let mut state = CombatScanState::new();
    state.start_combat_round();

    assert_eq!(
        state.handle_incoming_line("Hp:1/2 Sp:3/4 Ep:5/6 Exp:7 >"),
        IncomingCombatScanLine::Visible
    );
    assert_eq!(
        state.handle_incoming_line("scan all"),
        IncomingCombatScanLine::InternalProbe
    );
    assert_eq!(
        state.handle_incoming_line("Guard is slightly hurt (70%)."),
        IncomingCombatScanLine::InternalProbe
    );
    assert_eq!(
        state.handle_incoming_line("done"),
        IncomingCombatScanLine::Visible
    );
    assert_eq!(state.snapshot().len(), 1);
}

#[test]
fn combat_scan_missing_echo_recovers_after_bounded_line_count() {
    let mut state = CombatScanState::new();
    state.start_combat_round();

    for _ in 0..MAX_LINES_WAITING_FOR_ECHO {
        assert_eq!(
            state.handle_incoming_line("ordinary output"),
            IncomingCombatScanLine::Visible
        );
    }

    assert!(state.is_idle());
}

#[test]
fn combat_scan_row_with_status_ends_capture() {
    let mut state = CombatScanState::new();
    state.start_combat_round();
    state.handle_incoming_line("scan all");
    assert_eq!(
        state.handle_incoming_line("Guard is slightly hurt (70%) and stunned."),
        IncomingCombatScanLine::Visible
    );
    assert!(state.is_idle());
    assert!(state.snapshot().is_empty());
}

#[test]
fn combat_end_without_probe_is_not_internal() {
    let mut state = CombatScanState::new();
    assert_eq!(
        state.handle_incoming_line(NOT_IN_COMBAT_LINE),
        IncomingCombatScanLine::CombatEnded {
            internal_probe: false
        }
    );
}

fn line_text(line: &[ScanSpan]) -> String {
    line.iter().map(|s| s.text.as_str()).collect()
}

#[test]
fn render_lines_styles_structured_scan_row() {
    let mut state = CombatScanState::new();
    state.start_combat_round();
    state.handle_incoming_line("scan all");
    state.handle_incoming_line("Guard is noticeably hurt (50%).");
    state.handle_incoming_line("done");

    let lines = state.render_lines(120);
    assert_eq!(line_text(&lines[0]), "Guard is noticeably hurt (50%).");
    let condition = lines[0].iter().find(|span| span.text == "noticeably hurt").expect("condition span");
    assert_eq!(condition.style.color, TerminalColor::Rgb(0, 187, 187));
    let percent = lines[0].iter().find(|span| span.text == "50").expect("percent span");
    assert_eq!(percent.style.color, TerminalColor::Rgb(0, 187, 187));
    let name = &lines[0][0];
    assert_eq!(name.text, "Guard");
    assert!(name.style.bold);
}

#[test]
fn nothing_renders_outside_combat() {
    let state = CombatScanState::new();
    assert!(state.render_lines(80).is_empty());
}

fn piece(text: &str) -> Vec<ScanSpan> {
    vec![ScanSpan { text: text.to_string(), style: ScanStyle { color: TerminalColor::Black, bold: false } }]
}

#[test]
fn pieces_pack_two_spaces_apart_within_width() {
    let lines = wrap_pieces(vec![piece("aaaa"), piece("bbb"), piece("cc"), piece("dddddddddd")], 9);
    let texts: Vec<String> = lines.iter().map(|l| line_text(l)).collect();
    assert_eq!(texts, vec!["aaaa  bbb".to_string(), "cc".to_string(), "dddddddddd".to_string()]);
    let one_per_line = wrap_pieces(vec![piece("a"), piece("b")], 0);
    assert_eq!(one_per_line.len(), 2);
    assert!(wrap_pieces(Vec::new(), 10).is_empty());
}

#[test]
fn wide_characters_count_two_columns_when_packing() {
    let lines = wrap_pieces(vec![piece("漢字"), piece("ab")], 7);
    let texts: Vec<String> = lines.iter().map(|l| line_text(l)).collect();
    assert_eq!(texts, vec!["漢字".to_string(), "ab".to_string()]);
    let fits = wrap_pieces(vec![piece("漢字"), piece("ab")], 8);
    let texts: Vec<String> = fits.iter().map(|l| line_text(l)).collect();
    assert_eq!(texts, vec!["漢字  ab".to_string()]);
}
