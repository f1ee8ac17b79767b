use batrs::combat_damage::catalog::is_readable;
use batrs::combat_damage::catalog::{parse_hit_messages, Catalog, CatalogError, Family};
use batrs::combat_damage::conjugate::conjugate_verb;
use batrs::combat_damage::matcher::{
    format_incoming_line, format_incoming_line_bare, DamageCategory, Matcher,
};

const FAMILIES: [(&str, &[&str]); 11] = [
    ("slash", &["gash", "lightly cut", "cut"]),
    ("bash", &["bash", "REALLY WHACK", "BARBARICALLY BASH"]),
    ("pierce", &["puncture", "pierce"]),
    ("shield", &["heavily bash"]),
    ("whip", &["lash"]),
    ("unarmed", &["bitchslap", "boot", "lightly strike"]),
    ("tiger", &["toe-kick", "savagely triple-kick"]),
    (
        "monk",
        &[
            "snap-kick",
            "push",
            "evade, and then reverse",
            "pummel, with dozens of chain punches,",
            "DEVASTATINGLY HEAD-THROW",
        ],
    ),
    ("bite", &["bite", "SAVAGELY SHRED"]),
    ("claw", &["claw", "BRUTALLY TEAR"]),
    ("breath", &["breath lightly"]),
];

fn fixture_document() -> String {
    let mut doc = String::from("Hit messages by weapon family.\n\n");
    for (id, verbs) in FAMILIES {
        doc.push_str(&format!("## Hit messages for {id} weapons ({id})\n"));
        let mut all: Vec<String> = verbs.iter().map(|v| v.to_string()).collect();
        let mut filler = 0;
        while all.len() < 26 {
            all.push(format!("{id}filler{}", (b'a' + filler) as char));
            filler += 1;
        }
        for (index, verb) in all.iter().enumerate() {
            doc.push_str(&format!("{}: {}\r\n", index + 1, verb));
        }
        doc.push('\n');
    }
    doc
}

fn catalog() -> Catalog {
    Catalog::from_families(parse_hit_messages(&fixture_document())).unwrap()
}

fn matcher() -> Matcher {
    Matcher::new(catalog())
}

fn assert_match(matcher: &mut Matcher, line: &str, category: DamageCategory, source: &str, verb: &str) {
    let candidate = matcher
        .match_incoming(line)
        .unwrap_or_else(|| panic!("expected match for {line:?}"));
    assert_eq!(candidate.category, category, "line: {line}");
    assert_eq!(candidate.source_name, source, "line: {line}");
    assert_eq!(candidate.message_verb, verb, "line: {line}");
    assert_eq!(candidate.message_text, line);
}

fn assert_no_match(matcher: &mut Matcher, line: &str) {
    assert!(
        matcher.match_incoming(line).is_none(),
        "expected no match for {line:?}"
    );
}

#[test]
fn conjugate_single_word_adds_s() {
    assert_eq!(conjugate_verb("boot"), "boots");
    assert_eq!(conjugate_verb("bitchslap"), "bitchslaps");
}

#[test]
fn conjugate_single_word_adds_es() {
    assert_eq!(conjugate_verb("gash"), "gashes");
    assert_eq!(conjugate_verb("scratch"), "scratches");
}

#[test]
fn conjugate_multi_word_conjugates_last_word_only() {
    assert_eq!(conjugate_verb("lightly strike"), "lightly strikes");
    assert_eq!(conjugate_verb("cruelly beat"), "cruelly beats");
}

#[test]
fn conjugate_preserves_caps_on_last_word() {
    assert_eq!(conjugate_verb("BRUTALLY TEAR"), "BRUTALLY TEARS");
}

#[test]
fn conjugate_examples() {
    assert_eq!(conjugate_verb("bitchslap"), "bitchslaps");
    assert_eq!(conjugate_verb("lightly strike"), "lightly strikes");
    assert_eq!(conjugate_verb("gash"), "gashes");
    assert_eq!(conjugate_verb("breath lightly"), "breath lightlys");
}

#[test]
fn conjugate_collapses_whitespace_and_handles_empty() {
    assert_eq!(conjugate_verb("  heavily   bash "), "heavily bashes");
    assert_eq!(conjugate_verb("   "), "");
    assert_eq!(conjugate_verb("HEAD-THROW"), "HEAD-THROWS");
    assert_eq!(conjugate_verb("CRUSH"), "CRUSHES");
    assert_eq!(conjugate_verb("ScratcH"), "ScratcHes");
    assert_eq!(conjugate_verb("-"), "-s");
}

#[test]
fn fixture_document_reads_families_in_order() {
    let families = parse_hit_messages(&fixture_document());
    assert_eq!(families.len(), 11);
    assert_eq!(families[0].id, "slash");
    assert_eq!(families[0].title, "Slash weapons");
    assert_eq!(families[10].id, "breath");
    assert_eq!(families[7].verbs[2], "evade, and then reverse");
}

#[test]
fn catalog_rejects_short_family() {
    let families = vec![Family {
        id: "slash".to_string(),
        title: "Slash".to_string(),
        verbs: vec!["gash".to_string()],
    }];
    assert_eq!(
        Catalog::from_families(families).err(),
        Some(CatalogError::WrongVerbCount("slash".to_string(), 1))
    );
    assert_eq!(Catalog::from_families(Vec::new()).err(), Some(CatalogError::NoFamilies));
}

#[test]
fn unambiguous_meta_finds_family_and_rank() {
    let catalog = catalog();
    let meta = catalog.unambiguous_melee_catalog_meta("LASH").unwrap();
    assert_eq!(meta.family_index, 4);
    assert_eq!(meta.rank, 1);
    assert!(catalog.unambiguous_melee_catalog_meta("nothing").is_none());
}

#[test]
fn every_catalog_verb_matches_synthetic_incoming_line() {
    let catalog = catalog();
    for entry in catalog.entries() {
        let mut matcher = matcher();
        let conjugated = format_incoming_line("Orc", &entry.canonical);
        let bare = format_incoming_line_bare("Orc", &entry.canonical);
        let candidate = matcher
            .match_melee_for_test(&conjugated)
            .or_else(|| {
                let mut matcher = self::matcher();
                matcher.match_melee_for_test(&bare)
            })
            .unwrap_or_else(|| panic!("no melee match for verb {}", entry.canonical));
        assert_eq!(candidate.category, DamageCategory::Melee);
        assert_eq!(candidate.source_name, "Orc");
        assert!(
            candidate.message_verb.eq_ignore_ascii_case(&entry.canonical),
            "verb {:?} matched as {:?}",
            entry.canonical,
            candidate.message_verb
        );
    }
}

#[test]
fn one_incoming_line_per_weapon_family() {
    let catalog = catalog();
    let samples = [
        ("slash", "gash"),
        ("bash", "bash"),
        ("pierce", "puncture"),
        ("shield", "heavily bash"),
        ("whip", "lash"),
        ("unarmed", "bitchslap"),
        ("tiger", "toe-kick"),
        ("monk", "snap-kick"),
        ("bite", "bite"),
        ("claw", "claw"),
        ("breath", "breath lightly"),
    ];
    for (family, verb) in samples {
        let mut matcher = matcher();
        let line = format_incoming_line("Orc", verb);
        let candidate = matcher
            .match_incoming(&line)
            .or_else(|| matcher.match_incoming(&format_incoming_line_bare("Orc", verb)))
            .unwrap();
        assert_eq!(candidate.message_verb, verb);
        let entry = catalog
            .entries()
            .iter()
            .find(|entry| entry.canonical == verb)
            .unwrap_or_else(|| panic!("verb {verb} missing from catalog"));
        assert_eq!(catalog.family_ids()[entry.family], family);
    }
}

#[test]
fn conjugation_edge_cases_match_incoming() {
    let mut matcher = matcher();
    assert_match(&mut matcher, "Holy man bitchslaps you.", DamageCategory::Melee, "Holy man", "bitchslap");
    assert_match(&mut matcher, "Holy man lightly strikes you.", DamageCategory::Melee, "Holy man", "lightly strike");
    assert_match(&mut matcher, "Holy man gashes you.", DamageCategory::Melee, "Holy man", "gash");
    assert_match(&mut matcher, "Dragon breath lightly you.", DamageCategory::Melee, "Dragon", "breath lightly");
    assert_match(&mut matcher, "Dragon BRUTALLY TEARS you.", DamageCategory::Melee, "Dragon", "BRUTALLY TEAR");
}

#[test]
fn example_fight_incoming_melee_lines() {
    let mut matcher = matcher();
    assert_match(&mut matcher, "Holy man bitchslaps you.", DamageCategory::Melee, "Holy man", "bitchslap");
    assert_match(&mut matcher, "Holy man lightly strikes you.", DamageCategory::Melee, "Holy man", "lightly strike");
    assert_match(&mut matcher, "Holy man boots you.", DamageCategory::Melee, "Holy man", "boot");
}

#[test]
fn example_fight_incoming_skill_lines() {
    let mut matcher = matcher();
    assert_match(&mut matcher, "Holy man's bash sends you sprawling.", DamageCategory::Skill, "Holy man", "bash");
    assert_match(&mut matcher, "Holy man pushes you.", DamageCategory::Skill, "Holy man", "push");
}

#[test]
fn example_fight_non_damage_lines_do_not_match() {
    let mut matcher = matcher();
    for line in [
        "Holy man misses.",
        "You miss.",
        "You puncture Holy man.",
        "You tumble Holy man's dodge.",
        "Holy man dodges.",
        "You poke Holy man in the ribs with two fingers going in.",
        "Holy man gasps painfully for air.",
        "You are prepared to do the skill.",
        "********************** Round 1 **********************",
        "H:760/782 [-22] S:434/474 [-40] E:489/494 [] $:2510 [] exp:170412 []",
    ] {
        assert_no_match(&mut matcher, line);
    }
}

#[test]
fn kick_skill_examples() {
    let mut matcher = matcher();
    assert_match(&mut matcher, "Salvatore kicks you in the groin very hard. You gasp with pain and double up.", DamageCategory::Skill, "Salvatore", "kick");
    assert_match(&mut matcher, "Salvatore performs a quick kick to your stomach, almost making you lose your breakfast.", DamageCategory::Skill, "Salvatore", "kick");
    assert_match(&mut matcher, "Salvatore's kick lashes at you with speed, but you manage to partly deflect it in time.", DamageCategory::Skill, "Salvatore", "kick");
}

#[test]
fn stab_skill_examples() {
    let mut matcher = matcher();
    assert_match(&mut matcher, "With a quick flick, Akeem knocks your weapon aside and stabs your stomach!", DamageCategory::Skill, "Akeem", "stab");
    assert_match(&mut matcher, "You watch helplessly as Akeem smashes your kneecap!", DamageCategory::Skill, "Akeem", "stab");
    assert_match(&mut matcher, "OOF!  Akeem feints, throwing you offguard as he PUMMELS your midriff!", DamageCategory::Skill, "Akeem", "stab");
}

#[test]
fn scythe_swipe_skill_example() {
    let mut matcher = matcher();
    assert_match(&mut matcher, "Reaver slashes a ragged wound across your chest.", DamageCategory::Skill, "Reaver", "scythe swipe");
}

#[test]
fn spell_examples_from_fixture() {
    let mut matcher = matcher();
    for (line, spell) in [
        ("A magic missile hits you.", "magic missile"),
        ("A chill touch hits you.", "chill touch"),
        ("A firebolt hits you.", "firebolt"),
        ("A suffocation hits you.", "suffocation"),
        ("A thorn spray hits you.", "thorn spray"),
        ("A chaos bolt hits you.", "chaos bolt"),
        ("A venom strike hits you.", "venom strike"),
        ("A psi blast hits you.", "psi blast"),
        ("A fire blast hits you.", "fire blast"),
        ("A blast lightning hits you.", "blast lightning"),
        ("A shocking grasp hits you.", "shocking grasp"),
        ("An icebolt hits you.", "icebolt"),
    ] {
        assert_match(&mut matcher, line, DamageCategory::Spell, "", spell);
    }
}

#[test]
fn skill_bash_wins_over_melee_ambiguity() {
    let mut matcher = matcher();
    let candidate = matcher.match_incoming("Holy man's bash sends you sprawling.").unwrap();
    assert_eq!(candidate.category, DamageCategory::Skill);
    assert_eq!(candidate.message_verb, "bash");
}

#[test]
fn skill_push_wins_over_monk_melee_push() {
    let mut matcher = matcher();
    let candidate = matcher.match_incoming("Holy man pushes you.").unwrap();
    assert_eq!(candidate.category, DamageCategory::Skill);
    assert_eq!(candidate.message_verb, "push");
}

#[test]
fn stab_skill_beats_outgoing_you_prefix() {
    let mut matcher = matcher();
    let candidate = matcher
        .match_incoming("You watch helplessly as Akeem smashes your kneecap!")
        .unwrap();
    assert_eq!(candidate.category, DamageCategory::Skill);
}

#[test]
fn family_recency_prefers_last_family() {
    let mut matcher = matcher();
    matcher.match_incoming("Holy man bitchslaps you.").unwrap();
    assert_eq!(matcher.last_family(), Some(5));

    let line = format_incoming_line("Holy man", "boot");
    matcher.match_incoming(&line).unwrap();
    assert_eq!(matcher.last_family(), Some(5));
}

#[test]
fn reset_clears_family_recency() {
    let mut matcher = matcher();
    matcher.match_incoming("Holy man bitchslaps you.").unwrap();
    matcher.reset();
    assert_eq!(matcher.last_family(), None);
}

#[test]
fn outgoing_sanity_checks_from_example_fight() {
    let matcher = matcher();
    let (verb, target) = matcher.match_outgoing_sanity("You puncture Holy man.").unwrap();
    assert_eq!(verb, "puncture");
    assert_eq!(target, "Holy man");

    let (verb, target) = matcher.match_outgoing_sanity("You lightly cut Holy man.").unwrap();
    assert_eq!(verb, "lightly cut");
    assert_eq!(target, "Holy man");
}

#[test]
fn outgoing_lines_are_not_incoming_candidates() {
    let mut matcher = matcher();
    assert_no_match(&mut matcher, "You puncture Holy man.");
    assert_no_match(&mut matcher, "You pierce Holy man.");
    assert_no_match(&mut matcher, "You cut Holy man.");
}

#[test]
fn longest_verb_wins_within_family() {
    let mut matcher = matcher();
    assert_match(&mut matcher, "Orc lightly strikes you.", DamageCategory::Melee, "Orc", "lightly strike");
    assert_match(&mut matcher, "Orc savagely triple-kicks you.", DamageCategory::Melee, "Orc", "savagely triple-kick");
}

#[test]
fn case_insensitive_incoming_match() {
    let mut matcher = matcher();
    assert_match(&mut matcher, "holy man BITCHSLAPS you.", DamageCategory::Melee, "holy man", "bitchslap");
}

#[test]
fn monk_push_catalog_verb_matches_melee_when_bare() {
    let mut matcher = matcher();
    let candidate = matcher.match_melee_for_test("Orc push you.").expect("monk push melee verb");
    assert_eq!(candidate.message_verb, "push");
    assert_eq!(candidate.category, DamageCategory::Melee);
}

#[test]
fn monk_push_conjugated_line_is_skill_not_melee() {
    let mut matcher = matcher();
    let candidate = matcher.match_incoming("Holy man pushes you.").unwrap();
    assert_eq!(candidate.category, DamageCategory::Skill);
    assert_eq!(candidate.message_verb, "push");
}

#[test]
fn outgoing_sanity_for_every_catalog_verb() {
    let matcher = matcher();
    for entry in catalog().entries() {
        let line = format!("You {} Holy man.", entry.canonical);
        let (verb, target) = matcher
            .match_outgoing_sanity(&line)
            .unwrap_or_else(|| panic!("outgoing sanity failed for {}", entry.canonical));
        assert_eq!(verb, entry.canonical);
        assert_eq!(target, "Holy man");
    }
}

#[test]
fn all_caps_catalog_verbs_match_incoming() {
    let mut matcher = matcher();
    for verb in [
        "BRUTALLY TEAR",
        "SAVAGELY SHRED",
        "REALLY WHACK",
        "BARBARICALLY BASH",
        "DEVASTATINGLY HEAD-THROW",
    ] {
        let line = format_incoming_line("Dragon", verb);
        let candidate = matcher.match_melee_for_test(&line).unwrap();
        assert_eq!(candidate.message_verb, verb);
    }
}

#[test]
fn comma_phrase_verbs_match_bare_incoming() {
    let mut matcher = matcher();
    for (verb, line) in [
        ("evade, and then reverse", "Monk evade, and then reverse you."),
        (
            "pummel, with dozens of chain punches,",
            "Monk pummel, with dozens of chain punches, you.",
        ),
    ] {
        let candidate = matcher.match_melee_for_test(line).unwrap();
        assert_eq!(candidate.message_verb, verb);
    }
}

#[test]
fn spell_cast_lines_do_not_match() {
    let mut matcher = matcher();
    for line in [
        "Ghost hound utters the magic words 'ghht zur sanc'",
        "Good pixie claps his hands and says 'cah zur fehh'",
        "Knight fills up his cheeks with air and exhales 'zot zur fehh'",
    ] {
        assert_no_match(&mut matcher, line);
    }
}

#[test]
fn longest_match_beats_embedded_shorter_verb() {
    let mut matcher = matcher();
    assert_match(&mut matcher, "Orc heavily bashes you.", DamageCategory::Melee, "Orc", "heavily bash");
    assert_match(&mut matcher, "Orc BARBARICALLY BASHES you.", DamageCategory::Melee, "Orc", "BARBARICALLY BASH");
}

#[test]
fn feint_with_newline_in_name_does_not_match() {
    let mut matcher = matcher();
    assert_no_match(&mut matcher, "OOF! Ak\neem feints, throwing you offguard as he PUMMELS your midriff!");
}

#[test]
fn readability_rejects_only_headers_with_for_after_the_brackets() {
    assert!(is_readable(&fixture_document()));
    assert!(is_readable("# Hit messages for slash weapons (slash)\n1: bash\n"));
    assert!(is_readable("# Notes without brackets for later\n"));
    assert!(!is_readable("# Hit (x) messages for slash weapons\n"));
    assert!(is_readable(""));
}
