use batrs::combat_damage::aggregate::{EffectiveBounds, EventFacts};
use batrs::combat_damage::rollup::{confirmed_tallies, estimated_tallies, group_batches, VerbTally};

fn isolated(verb: &str, hp_delta: i32) -> EventFacts {
    EventFacts {
        batch_id: 1,
        damage_category: "melee".to_string(),
        message_verb: verb.to_string(),
        hp_delta,
        candidate_count: 1,
    }
}

fn ambiguous(verb: &str, hp_delta: i32, batch_id: i64, candidate_count: i32) -> EventFacts {
    EventFacts {
        batch_id,
        damage_category: "melee".to_string(),
        message_verb: verb.to_string(),
        hp_delta,
        candidate_count,
    }
}

fn find<'a>(tallies: &'a [VerbTally], verb: &str) -> Option<&'a VerbTally> {
    tallies.iter().find(|tally| tally.verb == verb)
}

#[test]
fn confirmed_tally_of_single_isolated_hit() {
    let rows = vec![isolated("perforate", 68)];
    let tallies = confirmed_tallies(&rows);
    assert_eq!(tallies.len(), 1);
    let perforate = find(&tallies, "perforate").unwrap();
    assert_eq!(perforate.obs, 1);
    assert_eq!(perforate.min, 68);
    assert_eq!(perforate.max, 68);
    assert!(!perforate.loose);
    assert!(group_batches(&rows).is_empty());
}

#[test]
fn confirmed_tallies_count_isolated_rows_only() {
    let rows = vec![isolated("bitchslap", 20), isolated("bitchslap", 24), ambiguous("boot", 30, 1, 2)];
    let tallies = confirmed_tallies(&rows);
    let bitchslap = find(&tallies, "bitchslap").unwrap();
    assert_eq!(bitchslap.obs, 2);
    assert_eq!(bitchslap.min, 20);
    assert_eq!(bitchslap.max, 24);
    assert!(find(&tallies, "boot").is_none());
}

#[test]
fn estimated_tally_keeps_loose_bounds() {
    let contributions = vec![("boot".to_string(), EffectiveBounds { min: 0, max: 30, loose: true })];
    let tallies = estimated_tallies(&contributions);
    let boot = find(&tallies, "boot").unwrap();
    assert_eq!(boot.obs, 1);
    assert_eq!(boot.min, 0);
    assert_eq!(boot.max, 30);
    assert!(boot.loose);
}

#[test]
fn estimated_tally_takes_least_min_and_greatest_max() {
    let contributions = vec![
        ("kick".to_string(), EffectiveBounds { min: 12, max: 12, loose: false }),
        ("kick".to_string(), EffectiveBounds { min: 0, max: 0, loose: false }),
        ("kick".to_string(), EffectiveBounds { min: 0, max: 40, loose: true }),
        ("bash".to_string(), EffectiveBounds { min: 7, max: 7, loose: false }),
    ];
    let tallies = estimated_tallies(&contributions);
    assert_eq!(tallies.len(), 2);
    let kick = find(&tallies, "kick").unwrap();
    assert_eq!((kick.obs, kick.min, kick.max, kick.loose), (3, 0, 40, true));
    let bash = find(&tallies, "bash").unwrap();
    assert_eq!((bash.obs, bash.min, bash.max, bash.loose), (1, 7, 7, false));
}

#[test]
fn batches_group_ambiguous_rows_in_row_order() {
    let rows = vec![
        ambiguous("pat", 21, 4, 2),
        isolated("boot", 10),
        ambiguous("slap", 9, 5, 2),
        ambiguous("savagely triple-kick", 21, 4, 2),
        ambiguous("kick", 9, 5, 2),
    ];
    let mut groups = group_batches(&rows);
    groups.sort();
    assert_eq!(groups, vec![vec![0, 3], vec![2, 4]]);
}

#[test]
fn no_batches_without_ambiguous_rows() {
    let rows = vec![isolated("boot", 10), isolated("kick", 3)];
    assert!(group_batches(&rows).is_empty());
    assert!(confirmed_tallies(&[]).is_empty());
    assert!(estimated_tallies(&[]).is_empty());
}
