use batrs::generic_commands::{
    GenericCommand, GenericCommandExecution, GenericCommandGroup, GenericCommands,
};

#[test]
fn default_has_predefined_groups() {
    let generic = GenericCommands::default();
    assert_eq!(generic.groups.len(), 5);
    assert!(generic.groups.iter().any(|g| g.name == "cure_spells"));
    assert!(generic.groups.iter().any(|g| g.name == "common_spells"));
    assert!(generic.groups.iter().any(|g| g.name == "navigator"));
    assert!(generic.groups.iter().any(|g| g.name == "common_skills"));
    assert!(generic.groups.iter().any(|g| g.name == "misc"));
}

#[test]
fn render_command_returns_only_enabled() {
    let mut generic = GenericCommands::default();
    generic.groups[0].commands[0].enabled = false;

    assert!(generic.render_command("clw", "orc").is_none());
    assert_eq!(
        generic.render_command("csw", "orc"),
        Some("@cast 'cure serious wounds' orc".to_string())
    );
}

#[test]
fn apply_config_filters_groups() {
    let mut generic = GenericCommands::default();
    generic.apply_config(&["cure_spells".to_string()], &[]);

    assert!(generic.groups[0].commands[0].enabled);
    assert!(!generic.groups[1].commands[0].enabled);
    assert!(!generic.groups[2].commands[0].enabled);
}

#[test]
fn apply_config_disables_specific_commands() {
    let mut generic = GenericCommands::default();
    generic.apply_config(&[], &["clw".to_string(), "cww".to_string()]);

    assert!(!generic.groups[0].commands[0].enabled);
    assert!(generic.groups[0].commands[1].enabled);
    assert!(!generic.groups[1].commands[0].enabled);
}

#[test]
fn selection_state_all_enabled() {
    let group = GenericCommandGroup::new(
        "test",
        "Test",
        vec![
            GenericCommand::new("a", GenericCommandExecution::fixed("cmd a")),
            GenericCommand::new("b", GenericCommandExecution::fixed("cmd b")),
        ],
    );
    assert_eq!(group.selection_state(), Some(true));
}

#[test]
fn selection_state_mixed() {
    let mut group = GenericCommandGroup::new(
        "test",
        "Test",
        vec![
            GenericCommand::new("a", GenericCommandExecution::fixed("cmd a")),
            GenericCommand::new("b", GenericCommandExecution::fixed("cmd b")),
        ],
    );
    group.commands[0].enabled = false;
    assert_eq!(group.selection_state(), None);
}

#[test]
fn selection_state_all_disabled() {
    let mut group = GenericCommandGroup::new(
        "test",
        "Test",
        vec![GenericCommand::new("a", GenericCommandExecution::fixed("cmd a"))],
    );
    group.commands[0].enabled = false;
    assert_eq!(group.selection_state(), Some(false));
}

#[test]
fn cast_cure_light_wounds_with_target() {
    let generic = GenericCommands::default();
    assert_eq!(generic.render_command("clw", "orc"), Some("@cast 'cure light wounds' orc".to_string()));
}

#[test]
fn cast_cure_light_wounds_without_target() {
    let generic = GenericCommands::default();
    assert_eq!(generic.render_command("clw", ""), Some("@cast 'cure light wounds' me".to_string()));
}

#[test]
fn cast_teleport_without_error_no_args() {
    let generic = GenericCommands::default();
    assert_eq!(generic.render_command("ctwe", ""), Some("@cast 'teleport with error'".to_string()));
}

#[test]
fn cast_relocate_uses_args() {
    let generic = GenericCommands::default();
    assert_eq!(generic.render_command("cr", "orthos"), Some("@cast 'relocate' orthos".to_string()));
}

#[test]
fn cast_relocate_without_args_is_bare() {
    let generic = GenericCommands::default();
    assert_eq!(generic.render_command("cr", "  "), Some("@cast 'relocate'".to_string()));
}

#[test]
fn use_fire_building_fixed_output() {
    let generic = GenericCommands::default();
    assert_eq!(generic.render_command("ufb", ""), Some("@use 'fire building'".to_string()));
}

#[test]
fn use_camping_fixed_output() {
    let generic = GenericCommands::default();
    assert_eq!(generic.render_command("camp", ""), Some("@use 'camping'".to_string()));
}

#[test]
fn rip_lich_matches_expected() {
    assert_eq!(
        GenericCommands::default().render_command("lich_rip", ""),
        Some("@rip_action set get all from corpse;drop zinc;drop mowgles".to_string())
    );
}

#[test]
fn rip_dig_grave_matches_expected() {
    let expected = "@rip_action set get all from corpse;dig grave;drop zinc;drop mowgles".to_string();
    let generic = GenericCommands::default();
    assert_eq!(generic.render_command("normal_rip", ""), Some(expected.clone()));
    assert_eq!(generic.render_command("dig_rip", ""), Some(expected));
}

#[test]
fn predefined_commands_render_expected_send_lines() {
    let generic = GenericCommands::default();
    let cases = [
        ("clw", "", "@cast 'cure light wounds' me"),
        ("clw", "ally", "@cast 'cure light wounds' ally"),
        ("csw", "", "@cast 'cure serious wounds' me"),
        ("clwf", "", "@repeat inf cast 'cure light wounds' me"),
        ("cswf", "ally", "@repeat inf cast 'cure serious wounds' ally"),
        ("cww", "", "@cast 'water walking' me"),
        ("cinv", "ally", "@cast 'invisibility' ally"),
        ("cinf", "", "@cast 'infravision' me"),
        ("ctwe", "ignored", "@cast 'teleport with error'"),
        ("ctw", "", "@cast 'teleport without error'"),
        ("cr", "orthos", "@cast 'relocate' orthos"),
        ("chw", "", "@cast 'heavy weight' me"),
        ("ufb", "ignored", "@use 'fire building'"),
        ("camp", "", "@use 'camping'"),
        ("lich_rip", "", "@rip_action set get all from corpse;drop zinc;drop mowgles"),
        ("normal_rip", "", "@rip_action set get all from corpse;dig grave;drop zinc;drop mowgles"),
        ("dig_rip", "", "@rip_action set get all from corpse;dig grave;drop zinc;drop mowgles"),
    ];

    for (alias, args, expected) in cases {
        assert_eq!(generic.render_command(alias, args).as_deref(), Some(expected), "alias {alias}");
    }
}

#[test]
fn display_command_is_derived_from_execution_shape() {
    let generic = GenericCommands::default();
    let clw = &generic.groups[0].commands[0];
    let ctwe = &generic.groups[2].commands[0];

    assert_eq!(clw.display_command(), "cast 'cure light wounds' {args}");
    assert_eq!(ctwe.display_command(), "cast 'teleport with error'");
}

#[test]
fn unknown_alias_renders_nothing() {
    assert!(GenericCommands::default().render_command("nope", "x").is_none());
}
