use batrs::config::{
    migrate_legacy_config, normalize_player_config, normalize_settings_entries, parse_bracket_string_array,
    parse_guilds, parse_legacy_settings_scalar, parse_settings, player_to_user_settings,
    sanitize_name, settings_table_from_entries, PlayerToml, SettingEntry, SettingsError, SettingsTable,
    UserSettings,
};

fn entry(key: &str, value: &str) -> SettingEntry {
    SettingEntry { key: key.to_string(), value: value.to_string() }
}

#[test]
fn parse_settings_accepts_bracket_guilds_inside_settings_table() {
    let config = r#"
[settings]
guilds = ["animist", "monk"]
rig = "satchel"
"#;
    let parsed = parse_settings(config).unwrap().unwrap();
    assert_eq!(
        parsed.guilds_from_settings_table,
        Some(vec!["animist".to_string(), "monk".to_string()])
    );
    assert_eq!(parsed.entries.len(), 1);
    assert_eq!(parsed.entries[0].key, "rig");
    assert_eq!(parsed.entries[0].value, "satchel");
}

#[test]
fn parse_settings_accepts_bracket_guilds_inside_single_quoted_value() {
    let config = r#"
[settings]
guilds = '["animist", "monk"]'
"#;
    let parsed = parse_settings(config).unwrap().unwrap();
    assert_eq!(
        parsed.guilds_from_settings_table,
        Some(vec!["animist".to_string(), "monk".to_string()])
    );
    assert!(parsed.entries.is_empty());
}

#[test]
fn parse_guilds_returns_empty_when_brackets_missing() {
    let config = "guilds = not-an-array";
    assert_eq!(parse_guilds(config), Some(Vec::new()));
}

#[test]
fn parse_bracket_string_array_trims_quotes() {
    assert_eq!(
        parse_bracket_string_array(r#"["reaver", 'monk']"#),
        Some(vec!["reaver".to_string(), "monk".to_string()])
    );
}

#[test]
fn migrate_legacy_misplaced_guilds_produces_valid_toml() {
    let raw = r#"
[settings]
guilds = ["animist", "monk"]
rig = "sack"
"#;
    let legacy = migrate_legacy_config(raw).unwrap();
    assert_eq!(
        legacy.guilds,
        Some(vec!["animist".to_string(), "monk".to_string()])
    );
    assert_eq!(legacy.settings.rig, "sack");
    let mut settings = toml::Table::new();
    settings.insert("rig".to_string(), toml::Value::String(legacy.settings.rig.clone()));
    for (k, v) in &legacy.settings.extra {
        settings.insert(k.clone(), toml::Value::String(v.clone()));
    }
    let mut doc = toml::Table::new();
    let guilds: Vec<toml::Value> = legacy
        .guilds
        .clone()
        .unwrap()
        .into_iter()
        .map(toml::Value::String)
        .collect();
    doc.insert("guilds".to_string(), toml::Value::Array(guilds));
    doc.insert("settings".to_string(), toml::Value::Table(settings));
    let round = toml::to_string_pretty(&doc).unwrap();
    let back: toml::Table = toml::from_str(&round).unwrap();
    assert_eq!(back, doc);
}

#[test]
fn migrate_prefers_non_empty_top_level_guilds() {
    let raw = "guilds = [\"reaver\"]\n[settings]\nguilds = [\"monk\"]\n";
    let p = migrate_legacy_config(raw).unwrap();
    assert_eq!(p.guilds, Some(vec!["reaver".to_string()]));
    assert_eq!(p.settings.rig, "");
}

#[test]
fn migrate_without_settings_table_keeps_top_level_guilds() {
    let raw = "guilds = [\"tzarakk\", \"mage\"]\n";
    let p = migrate_legacy_config(raw).unwrap();
    assert_eq!(p.guilds, Some(vec!["tzarakk".to_string(), "mage".to_string()]));
    assert!(p.settings.extra.is_empty());
}

#[test]
fn migrate_reports_unquoted_value() {
    let raw = "[settings]\nrig = sack\n";
    match migrate_legacy_config(raw) {
        Err(SettingsError::InvalidValue(v)) => assert_eq!(v, "sack"),
        other => panic!("unexpected {:?}", other),
    }
}

#[test]
fn parse_settings_errors_name_their_line() {
    assert!(matches!(
        parse_settings("[settings]\nrig \"x\"\n"),
        Err(SettingsError::MissingEquals(l)) if l == "rig \"x\""
    ));
    assert!(matches!(parse_settings("[settings]\n = \"x\"\n"), Err(SettingsError::EmptyKey)));
    assert!(matches!(
        parse_settings("[settings]\nrig = \"a\"\nrig = \"b\"\n"),
        Err(SettingsError::DuplicateKey(k)) if k == "rig"
    ));
    assert!(matches!(parse_settings("guilds = [\"x\"]\n"), Ok(None)));
}

#[test]
fn legacy_scalar_unquotes_and_unescapes() {
    assert_eq!(parse_legacy_settings_scalar("\"a\\\"b\"").unwrap(), "a\"b");
    assert_eq!(parse_legacy_settings_scalar("'x'").unwrap(), "x");
    assert!(parse_legacy_settings_scalar("plain").is_err());
}

#[test]
fn sanitize_name_keeps_safe_characters() {
    assert_eq!(sanitize_name("Bob the Brave!"), "Bob_the_Brave");
    assert_eq!(sanitize_name("***"), "player");
}

#[test]
fn settings_table_takes_last_rig_and_sorts_others() {
    let t = settings_table_from_entries(&[
        entry("zeta", "1"),
        entry("rig", "bag"),
        entry("alpha", "2"),
        entry("zeta", "3"),
        entry("rig", "sack"),
    ]);
    assert_eq!(t.rig, "sack");
    assert_eq!(
        t.extra,
        vec![("alpha".to_string(), "2".to_string()), ("zeta".to_string(), "3".to_string())]
    );
}

#[test]
fn normalize_puts_rig_first_and_reports_missing_default() {
    let (n, changed) = normalize_settings_entries(vec![entry("note", "hi"), entry("rig", "pack")]);
    assert!(!changed);
    assert_eq!(n, vec![entry("rig", "pack"), entry("note", "hi")]);
    let (n, changed) = normalize_settings_entries(vec![entry("note", "hi")]);
    assert!(changed);
    assert_eq!(n, vec![entry("rig", ""), entry("note", "hi")]);
}

#[test]
fn user_settings_list_rig_then_sorted_keys() {
    let player = PlayerToml {
        guilds: None,
        settings: SettingsTable {
            rig: "bag".to_string(),
            extra: vec![
                ("note".to_string(), "hello".to_string()),
                ("color".to_string(), "red".to_string()),
            ],
        },
    };
    let u = player_to_user_settings(&player);
    assert_eq!(u.entries, vec![entry("rig", "bag"), entry("color", "red"), entry("note", "hello")]);
    assert_eq!(u.get("note"), Some("hello"));
    assert_eq!(u.get("missing"), None);
    let mut p2 = player.clone();
    assert!(!normalize_player_config(&mut p2));
    assert_eq!(p2.settings.extra, player.settings.extra);
    let empty = UserSettings::default();
    assert_eq!(empty.get("rig"), None);
}
