use batrs::input_state::InputState;

#[test]
fn history_moves_and_restores_typed_input() {
    let mut state = InputState::new();
    state.insert_char('h');
    state.insert_char('i');
    let history_entry = state.take_displayed_input();
    state.push_history(history_entry);

    state.insert_char('b');
    state.insert_char('y');
    state.insert_char('e');
    state.move_history(-1);

    assert_eq!(state.displayed_input(), "hi");

    state.move_history(1);
    assert_eq!(state.displayed_input(), "bye");
    assert_eq!(state.cursor_offset(false), 4);

    state.insert_char('!');
    assert_eq!(state.displayed_input(), "bye!");
}

#[test]
fn backspace_removes_last_grapheme() {
    let mut state = InputState::new();
    state.insert_char('h');
    state.insert_char('i');
    state.backspace();

    assert_eq!(state.displayed_input(), "h");
}

#[test]
fn cursor_left_and_right_move_one_grapheme() {
    let mut state = InputState::new();
    state.insert_char('a');
    state.insert_char('é');
    state.insert_char('b');

    state.move_cursor_left();
    assert_eq!(state.cursor_offset(false), 3);

    state.move_cursor_left();
    assert_eq!(state.cursor_offset(false), 2);

    state.move_cursor_right();
    assert_eq!(state.cursor_offset(false), 3);
}

#[test]
fn insert_and_backspace_work_in_middle_of_input() {
    let mut state = InputState::new();
    state.insert_char('h');
    state.insert_char('i');
    state.move_cursor_left();
    state.insert_char('!');

    assert_eq!(state.displayed_input(), "h!i");
    assert_eq!(state.cursor_offset(false), 3);

    state.backspace();
    assert_eq!(state.displayed_input(), "hi");
    assert_eq!(state.cursor_offset(false), 2);
}

#[test]
fn word_left_jumps_to_previous_word_start() {
    let mut state = InputState::new();
    for character in "look, north now".chars() {
        state.insert_char(character);
    }

    state.move_cursor_word_left();
    assert_eq!(state.cursor_offset(false), 13);

    state.move_cursor_word_left();
    assert_eq!(state.cursor_offset(false), 7);

    state.move_cursor_word_left();
    assert_eq!(state.cursor_offset(false), 1);
}

#[test]
fn word_right_jumps_to_next_word_start_or_input_end() {
    let mut state = InputState::new();
    for character in "look, north now".chars() {
        state.insert_char(character);
    }
    state.move_cursor_word_left();
    state.move_cursor_word_left();
    state.move_cursor_word_left();

    state.move_cursor_word_right();
    assert_eq!(state.cursor_offset(false), 7);

    state.move_cursor_word_right();
    assert_eq!(state.cursor_offset(false), 13);

    state.move_cursor_word_right();
    assert_eq!(state.cursor_offset(false), 16);
}

#[test]
fn home_and_end_move_to_input_boundaries() {
    let mut state = InputState::new();
    for character in "héllo".chars() {
        state.insert_char(character);
    }
    state.move_cursor_left();

    state.move_cursor_to_start();
    assert_eq!(state.cursor_offset(false), 1);

    state.insert_char('>');
    assert_eq!(state.displayed_input(), ">héllo");

    state.move_cursor_to_end();
    assert_eq!(state.cursor_offset(false), 7);

    state.insert_char('<');
    assert_eq!(state.displayed_input(), ">héllo<");
}

#[test]
fn cursor_offset_starts_after_prompt() {
    let mut state = InputState::new();

    assert_eq!(state.cursor_offset(false), 1);

    state.insert_char('h');
    state.insert_char('i');

    assert_eq!(state.cursor_offset(false), 3);
}

#[test]
fn hidden_input_cursor_offset_starts_after_prompt() {
    let state = InputState::new();

    assert_eq!(state.cursor_offset(true), 1);
}

#[test]
fn backspace_at_start_changes_nothing() {
    let mut state = InputState::new();
    state.insert_char('a');
    state.move_cursor_to_start();
    state.backspace();
    assert_eq!(state.displayed_input(), "a");
    assert_eq!(state.cursor_offset(false), 1);
}

#[test]
fn hidden_input_displays_nothing() {
    let mut state = InputState::new();
    state.insert_char('x');
    assert_eq!(state.displayed_text(true), "");
    assert_eq!(state.displayed_text(false), "x");
}

#[test]
fn clear_all_empties_line_and_typed_text() {
    let mut state = InputState::new();
    state.insert_char('x');
    state.clear_all();
    assert_eq!(state.displayed_input(), "");
    assert_eq!(state.checked_cursor_offset(false), Some(1));
}

#[test]
fn history_walk_past_newest_returns_typed_text() {
    let mut state = InputState::new();
    state.push_history("old".to_string());
    state.insert_char('n');
    state.move_history(-1);
    assert_eq!(state.displayed_input(), "old");
    state.move_history(-1);
    assert_eq!(state.displayed_input(), "old");
    state.move_history(1);
    assert_eq!(state.displayed_input(), "n");
}

#[test]
fn backspace_removes_a_whole_combining_cluster() {
    let mut state = InputState::new();
    state.insert_char('a');
    state.insert_char('e');
    state.insert_char('\u{301}');
    state.backspace();
    assert_eq!(state.displayed_input(), "a");
}
