use batrs::logs::{clock_text, raw_log_file_name};

#[test]
fn clock_pads_each_field_to_two_digits() {
    assert_eq!(clock_text(7, 5, 9), "07:05:09");
    assert_eq!(clock_text(23, 59, 0), "23:59:00");
}

#[test]
fn raw_log_names_use_the_safe_player_name() {
    assert_eq!(raw_log_file_name(Some("Odefu"), "20260806-101500"), "Odefu-20260806-101500.raw.log");
    assert_eq!(raw_log_file_name(Some("Bad/Name!"), "t"), "Bad_Name-t.raw.log");
    assert_eq!(raw_log_file_name(None, "t"), "unknown-t.raw.log");
    assert_eq!(raw_log_file_name(Some("!!!"), "t"), "player-t.raw.log");
}
