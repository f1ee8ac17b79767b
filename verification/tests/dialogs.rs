use batrs::config::SettingEntry;
use batrs::dialogs::{
    GenericCommandsDialog, SettingsDialog, TriggerConfig, TriggersDialog, CORE_DISABLED_WARNING, KEY_HELP,
};
use batrs::generic_commands::{GenericCommand, GenericCommandExecution, GenericCommandGroup, GenericCommands};

#[test]
fn enter_unchanged_draft_equals_saved() {
    let dialog = TriggersDialog::new(&TriggerConfig::default());
    assert!(dialog.draft_equals_saved());
}

#[test]
fn triggers_dialog_toggle_mutates_draft_only() {
    let mut dialog = TriggersDialog::new(&TriggerConfig::default());
    dialog.toggle_selected();
    assert!(!dialog.draft().guild_triggers);
    assert!(dialog.saved().guild_triggers);
    assert!(!dialog.draft_equals_saved());
}

#[test]
fn footer_shows_core_warning_when_disabled() {
    let mut dialog = TriggersDialog::new(&TriggerConfig::default());
    dialog.move_cursor(3);
    dialog.toggle_selected();
    let vm = dialog.view_model();
    assert_eq!(vm.footer_line2.as_deref(), Some(CORE_DISABLED_WARNING));
}

#[test]
fn triggers_dialog_cursor_is_clamped_and_errors_clear() {
    let mut dialog = TriggersDialog::new(&TriggerConfig::default());
    dialog.set_footer_error("Player config not available".to_string());
    assert_eq!(dialog.view_model().footer_line1, "Player config not available");
    dialog.move_cursor(10);
    assert_eq!(dialog.view_model().cursor, 3);
    assert_eq!(dialog.view_model().footer_line1, KEY_HELP);
    dialog.move_cursor(-10);
    assert_eq!(dialog.view_model().cursor, 0);
    let vm = dialog.view_model();
    assert_eq!(vm.rows.len(), 4);
    assert_eq!(vm.rows[1].label, "Spell vocals");
    assert!(vm.footer_line2.is_none());
}

fn entry(key: &str, value: &str) -> SettingEntry {
    SettingEntry { key: key.to_string(), value: value.to_string() }
}

#[test]
fn settings_dialog_edits_the_selected_value() {
    let mut d = SettingsDialog::new(vec![entry("rig", "ba"), entry("note", "")]);
    d.insert_char('g');
    d.move_cursor(1);
    d.insert_char('x');
    d.backspace();
    d.backspace();
    assert_eq!(d.entries(), vec![entry("rig", "bag"), entry("note", "")]);
    let vm = d.view_model();
    assert_eq!(vm.cursor, 1);
    assert_eq!(vm.items[0].value, "bag");
    let mut empty = SettingsDialog::new(Vec::new());
    empty.move_cursor(1);
    empty.insert_char('a');
    assert!(empty.entries().is_empty());
}

fn sample() -> GenericCommands {
    GenericCommands {
        groups: vec![
            GenericCommandGroup::new(
                "a",
                "Group A",
                vec![
                    GenericCommand::new("x", GenericCommandExecution::fixed("cast x")),
                    GenericCommand::new("y", GenericCommandExecution::append_args("cast y")),
                ],
            ),
            GenericCommandGroup::new(
                "b",
                "Group B",
                vec![GenericCommand::new("z", GenericCommandExecution::fixed("cast z"))],
            ),
        ],
    }
}

#[test]
fn generic_dialog_rows_and_toggles() {
    let mut d = GenericCommandsDialog::new(&sample());
    let vm = d.view_model();
    assert_eq!(vm.items.len(), 6);
    assert_eq!(vm.items[0].alias, "All Commands");
    assert!(vm.items[0].selected);
    assert_eq!(vm.items[1].alias, "Group A");
    assert_eq!(vm.items[1].level, 1);
    assert_eq!(vm.items[3].alias, "y");
    assert_eq!(vm.items[3].command, "cast y {args}");
    assert_eq!(vm.items[3].level, 2);

    d.move_cursor(3);
    d.toggle_selected();
    assert_eq!(d.to_config(), (vec!["b".to_string()], vec!["y".to_string()]));
    d.move_cursor(-2);
    d.toggle_selected();
    assert_eq!(d.to_config(), (vec!["a".to_string(), "b".to_string()], Vec::<String>::new()));
    d.move_cursor(-5);
    d.toggle_selected();
    assert_eq!(
        d.to_config(),
        (Vec::<String>::new(), vec!["x".to_string(), "y".to_string(), "z".to_string()])
    );
    assert!(!d.view_model().items[1].selected);
}
