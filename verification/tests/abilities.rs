use batrs::abilities::{
    cast_quoted_with_suffix, cast_spell, client_send_line, compound_send,
    repeat_inf_cast_heal_self, send_cast_floating_disc, send_get_all_armour_from_disc,
    send_get_all_from_disc, send_get_all_weapon_from_disc, send_put_noeq_in_disc, targeted_cast,
    targeted_use, use_skill,
};
use batrs::command::Data;

#[test]
fn sends_match_expected_aliases() {
    assert_eq!(send_cast_floating_disc(), "@cast floating disc");
    assert_eq!(send_get_all_from_disc(), "@get all from my disc");
    assert_eq!(send_get_all_armour_from_disc(), "@get all armour from my disc");
    assert_eq!(send_get_all_weapon_from_disc(), "@get all weapon from my disc");
    assert_eq!(send_put_noeq_in_disc(), "@put noeq in my disc");
}

#[test]
fn client_prefix_applies_once() {
    assert_eq!(client_send_line("use 'x'"), "@use 'x'");
    assert_eq!(client_send_line("@use 'x'"), "@use 'x'");
}

#[test]
fn targeted_use_and_cast() {
    assert_eq!(targeted_use("iron palm", ""), "use 'iron palm'");
    assert_eq!(targeted_use("iron palm", "orc"), "target orc;use 'iron palm' orc");
    assert_eq!(targeted_cast("tiger claw", ""), "cast 'tiger claw'");
    assert_eq!(targeted_cast("tiger claw", "orc"), "target orc;cast 'tiger claw' orc");
}

#[test]
fn use_skill_matches_targeted_form() {
    let empty = Data { cmd: String::new(), args: String::new() };
    let with_args = Data { cmd: String::new(), args: "orc".to_string() };
    assert_eq!(use_skill("scythe swipe", &empty), "@use 'scythe swipe'");
    assert_eq!(use_skill("scythe swipe", &with_args), "@target orc;use 'scythe swipe' orc");
}

#[test]
fn compound_send_one_prefix() {
    assert_eq!(compound_send(&["dismount", "use 'meditation'"]), "@dismount;use 'meditation'");
}

#[test]
fn repeat_inf_cast_heal_self_line() {
    assert_eq!(repeat_inf_cast_heal_self(), "@repeat inf cast heal self");
}

#[test]
fn empty_logical_line_sends_nothing() {
    assert_eq!(client_send_line(""), "");
}

#[test]
fn send_prefix_is_idempotent_on_examples() {
    let once = client_send_line("look");
    assert_eq!(client_send_line(&once), once);
}

#[test]
fn cast_quoted_with_suffix_trims_tail() {
    assert_eq!(cast_quoted_with_suffix("spark birth", "  troll "), "@cast 'spark birth' troll");
    assert_eq!(cast_quoted_with_suffix("spark birth", "   "), "@cast 'spark birth'");
}

#[test]
fn cast_spell_targets_arguments() {
    let data = Data { cmd: "x".to_string(), args: " orc ".to_string() };
    assert_eq!(cast_spell("tiger claw", &data), "@target orc;cast 'tiger claw' orc");
}

#[test]
fn compound_send_of_nothing_is_empty() {
    assert_eq!(compound_send(&[]), "");
    assert_eq!(compound_send(&["@a", "b"]), "@a;b");
}
