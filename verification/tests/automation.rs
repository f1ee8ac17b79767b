use batrs::automation::{Action, Automation, Waiter, WaiterPattern};

#[test]
fn templates_fill_known_variables_and_blank_unknown_ones() {
    let mut a = Automation::new();
    a.set_var("target", "orc".to_string());
    assert_eq!(a.expand_template("kill {target} now"), "kill orc now");
    assert_eq!(a.expand_template("{missing}x"), "x");
    assert_eq!(a.expand_template("{{target}} {} {bad-name} {target"), "{orc} {} {bad-name} {target");
}

#[test]
fn actions_set_flags_vars_and_send() {
    let mut a = Automation::new();
    let sends = a.apply_actions(vec![
        Action::SetVar("rig".to_string(), "bag".to_string()),
        Action::Send("put all in {rig}".to_string()),
        Action::SetFlag("armed".to_string(), true),
        Action::IfFlag {
            flag: "armed".to_string(),
            actions: vec![Action::Send("wield sword".to_string()), Action::ClearFlag("armed".to_string())],
        },
        Action::IfFlag { flag: "armed".to_string(), actions: vec![Action::Send("never".to_string())] },
        Action::ClearVar("rig".to_string()),
        Action::Send("{rig}!".to_string()),
    ]);
    assert_eq!(sends, vec!["put all in bag".to_string(), "wield sword".to_string(), "!".to_string()]);
    assert!(!a.flag_is_set("armed"));
    a.set_flag("armed", false);
    assert!(!a.flag_is_set("armed"));
    a.set_flag("armed", true);
    assert!(a.flag_is_set("armed"));
    assert_eq!(a.snapshot_flags(), vec![("armed".to_string(), true)]);
}

#[test]
fn waiters_run_on_matching_lines_and_consuming_ones_leave() {
    let mut a = Automation::new();
    a.add_waiter(Waiter {
        pattern: WaiterPattern::new("^You are hungry").unwrap(),
        actions: vec![Action::Send("eat bread".to_string())],
        consume: true,
    });
    a.add_waiter(Waiter {
        pattern: WaiterPattern::new("arrives").unwrap(),
        actions: vec![Action::Send("wave".to_string())],
        consume: false,
    });
    assert_eq!(a.process_line("Bob arrives."), vec!["wave".to_string()]);
    assert_eq!(a.process_line("You are hungry."), vec!["eat bread".to_string()]);
    assert!(a.process_line("You are hungry.").is_empty());
    assert_eq!(a.process_line("Ann arrives."), vec!["wave".to_string()]);
}

#[test]
fn matches_given_by_hand_drive_the_waiters() {
    let mut a = Automation::new();
    a.add_waiter(Waiter { pattern: WaiterPattern::new("x").unwrap(), actions: vec![Action::Send("one".to_string())], consume: true });
    a.add_waiter(Waiter { pattern: WaiterPattern::new("y").unwrap(), actions: vec![Action::Send("two".to_string())], consume: true });
    assert_eq!(a.apply_matches(&[false, true]), vec!["two".to_string()]);
    assert_eq!(a.apply_matches(&[true]), vec!["one".to_string()]);
    assert!(a.apply_matches(&[]).is_empty());
}

#[test]
fn waiter_patterns_keep_their_source_and_refuse_bad_expressions() {
    let pattern = WaiterPattern::new("^You are (hungry|thirsty)").unwrap();
    assert_eq!(pattern.as_str(), "^You are (hungry|thirsty)");
    assert!(WaiterPattern::new("(unclosed").is_none());
}

#[test]
fn only_waiters_whose_pattern_matches_fire() {
    let mut a = Automation::new();
    a.add_waiter(Waiter { pattern: WaiterPattern::new("^[0-9]+ gold$").unwrap(), actions: vec![Action::Send("count".to_string())], consume: false });
    a.add_waiter(Waiter { pattern: WaiterPattern::new("silver").unwrap(), actions: vec![Action::Send("silver".to_string())], consume: false });
    assert_eq!(a.process_line("120 gold"), vec!["count".to_string()]);
    assert_eq!(a.process_line("gold 120"), Vec::<String>::new());
    assert_eq!(a.process_line("a silver coin"), vec!["silver".to_string()]);
}

#[test]
fn variable_snapshot_lists_each_variable_once() {
    let mut a = Automation::new();
    a.set_var("target", "orc".to_string());
    a.set_var("target", "troll".to_string());
    a.set_var("spell", "heal".to_string());
    let mut vars = a.snapshot_vars();
    vars.sort();
    assert_eq!(vars, vec![("spell".to_string(), "heal".to_string()), ("target".to_string(), "troll".to_string())]);
}
