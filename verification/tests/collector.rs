use batrs::combat_damage::catalog::{parse_hit_messages, Catalog};
use batrs::combat_damage::collector::{
    category_label, is_control, json_string_array_from_slice, parse_json_string_array, DamageCollector,
    FlushAction, UnattributedHpEventRow,
};
use batrs::combat_damage::matcher::{DamageCategory, Matcher};

#[test]
fn json_string_array_round_trips_context_lines() {
    let lines = vec![
        "Holy man misses.".to_string(),
        "You say \"hello\".".to_string(),
        "Path\\to\\file".to_string(),
        "line\twith\ttabs".to_string(),
    ];
    let json = json_string_array_from_slice(&lines);
    assert_eq!(parse_json_string_array(&json), lines);
}

#[test]
fn json_writes_escapes_exactly() {
    let lines = vec!["a\"b".to_string(), "c\\d\ne\r".to_string(), "\u{1b}[0m\u{7f}".to_string()];
    assert_eq!(
        json_string_array_from_slice(&lines),
        "[\"a\\\"b\",\"c\\\\d\\ne\\r\",\"\\u001b[0m\\u007f\"]"
    );
    assert_eq!(json_string_array_from_slice(&[]), "[]");
    assert_eq!(json_string_array_from_slice(&[String::new()]), "[\"\"]");
}

#[test]
fn json_round_trips_controls_and_empty_lines() {
    let lines = vec![String::new(), "\u{0}\u{85}x".to_string(), "ünï".to_string()];
    let json = json_string_array_from_slice(&lines);
    assert_eq!(parse_json_string_array(&json), lines);
}

#[test]
fn json_reader_is_lenient() {
    assert_eq!(parse_json_string_array("  [] "), Vec::<String>::new());
    assert_eq!(parse_json_string_array("[  ]"), Vec::<String>::new());
    assert_eq!(parse_json_string_array("\"a\" junk \"b\""), vec!["a".to_string(), "b".to_string()]);
    assert_eq!(parse_json_string_array("[\"open"), vec!["open".to_string()]);
    assert_eq!(parse_json_string_array("[\"\\u0041\\q\\+\"]"), vec!["Aq+".to_string()]);
    assert_eq!(parse_json_string_array("[\"\\ud800x\"]"), vec!["x".to_string()]);
    assert_eq!(parse_json_string_array("[\"\\u+041\"]"), vec!["A".to_string()]);
}

#[test]
fn control_characters_are_category_cc() {
    assert!(is_control('\u{0}'));
    assert!(is_control('\u{9f}'));
    assert!(!is_control('\u{a0}'));
    assert!(!is_control(' '));
}

fn collector(next: i64) -> DamageCollector {
    let mut doc = String::from("Hit messages.\n\n");
    for id in ["slash", "bash", "pierce", "shield", "whip", "unarmed", "tiger", "monk", "bite", "claw", "breath"] {
        doc.push_str(&format!("## Hit messages for {id} weapons ({id})\n"));
        for index in 0..26 {
            let verb = if id == "unarmed" && index == 0 { "bitchslap".to_string() } else { format!("{id}verb{index}") };
            doc.push_str(&format!("{}: {}\n", index + 1, verb));
        }
        doc.push('\n');
    }
    let catalog = Catalog::from_families(parse_hit_messages(&doc)).unwrap();
    DamageCollector::new(Matcher::new(catalog), next)
}

#[test]
fn isolated_hit_becomes_a_batch_of_one() {
    let mut c = collector(5);
    c.observe_line("Holy man bitchslaps you.");
    assert_eq!(c.buffer_len(), 1);
    assert_eq!(c.context_window_len(), 1);
    match c.flush_on_h_line(760, -22, "Fueryon", "H:760/782 [-22]") {
        FlushAction::WriteBatch { batch_id, player, hp_delta, hp_before, hp_after, candidate_count, damage_min, damage_max, candidates } => {
            assert_eq!((batch_id, hp_delta, hp_before, hp_after), (5, 22, 782, 760));
            assert_eq!(player, "Fueryon");
            assert_eq!((candidate_count, damage_min, damage_max), (1, 22, 22));
            assert_eq!(candidates[0].message_verb, "bitchslap");
            assert_eq!(candidates[0].category, DamageCategory::Melee);
        },
        other => panic!("unexpected {other:?}"),
    }
    assert_eq!(c.buffer_len(), 0);
    assert_eq!(c.context_window_len(), 0);
}

#[test]
fn two_hits_share_the_loss_and_batches_count_up() {
    let mut c = collector(1);
    c.observe_line("Holy man bitchslaps you.");
    c.observe_line("Holy man bitchslaps you.");
    match c.flush_on_h_line(90, -10, "P", "h") {
        FlushAction::WriteBatch { batch_id, candidate_count, damage_min, damage_max, .. } => {
            assert_eq!((batch_id, candidate_count, damage_min, damage_max), (1, 2, 0, 10));
        },
        other => panic!("unexpected {other:?}"),
    }
    c.observe_line("Holy man bitchslaps you.");
    match c.flush_on_h_line(80, -10, "P", "h") {
        FlushAction::WriteBatch { batch_id, .. } => assert_eq!(batch_id, 2),
        other => panic!("unexpected {other:?}"),
    }
    assert_eq!(c.next_batch_id(), 3);
}

#[test]
fn loss_without_hits_is_unattributed_with_context() {
    let mut c = collector(1);
    c.observe_line("Holy man misses.");
    match c.flush_on_h_line(95, -5, "P", "H:95/100 [-5]") {
        FlushAction::WriteUnattributed { hp_delta, hp_before, hp_after, h_line_text, context_lines, .. } => {
            assert_eq!((hp_delta, hp_before, hp_after), (5, 100, 95));
            assert_eq!(h_line_text, "H:95/100 [-5]");
            assert_eq!(context_lines, vec!["Holy man misses.".to_string()]);
        },
        other => panic!("unexpected {other:?}"),
    }
}

#[test]
fn gain_or_no_change_records_nothing_and_clears() {
    let mut c = collector(1);
    c.observe_line("Holy man bitchslaps you.");
    assert!(matches!(c.flush_on_h_line(100, 20, "P", "h"), FlushAction::Nothing));
    assert_eq!(c.buffer_len(), 0);
    c.observe_line("x");
    c.reset_buffer();
    assert_eq!(c.context_window_len(), 0);
    assert!(matches!(c.flush_on_h_line(100, -1, "P", "h"), FlushAction::WriteUnattributed { .. }));
}

#[test]
fn categories_have_stored_names() {
    assert_eq!(category_label(DamageCategory::Melee), "melee");
    assert_eq!(category_label(DamageCategory::Skill), "skill");
    assert_eq!(category_label(DamageCategory::Spell), "spell");
}

#[test]
fn stored_unattributed_row_reads_its_context_back() {
    let lines = vec!["You miss.".to_string(), "Holy man dodges.".to_string()];
    let json = json_string_array_from_slice(&lines);
    let row = UnattributedHpEventRow::from_stored(
        "2026-08-06T10:00:00Z".to_string(),
        "Odefu".to_string(),
        7,
        107,
        100,
        "h".to_string(),
        &json,
    );
    assert_eq!(row.context_lines, lines);
    assert_eq!((row.hp_delta, row.hp_before, row.hp_after), (7, 107, 100));
    assert_eq!(row.player, "Odefu");
}
