use batrs::combat_damage::aggregate::{
    known_mins_from_isolated, EventFacts, extrapolate_batch, BatchCandidate, EffectiveBounds, EventSortColumn, FilterParams,
    LandingSortColumn, SortDirection, TimeRange,
};

fn melee(verb: &str) -> BatchCandidate {
    BatchCandidate { category: "melee".to_string(), verb: verb.to_string() }
}

fn key(verb: &str) -> (String, String) {
    ("melee".to_string(), verb.to_string())
}

#[test]
fn extrapolation_assigns_full_delta_when_known_min_matches() {
    let candidates = vec![melee("bitchslap"), melee("boot")];
    let known_mins = vec![(key("bitchslap"), 22)];
    let bounds = extrapolate_batch(22, &candidates, &known_mins);
    assert_eq!(
        bounds,
        vec![
            EffectiveBounds { min: 22, max: 22, loose: false },
            EffectiveBounds { min: 0, max: 0, loose: false },
        ]
    );
}

#[test]
fn extrapolation_keeps_loose_bounds_when_sum_known_min_exceeds_delta() {
    let candidates = vec![melee("bitchslap"), melee("boot")];
    let known_mins = vec![(key("bitchslap"), 20), (key("boot"), 18)];
    let bounds = extrapolate_batch(22, &candidates, &known_mins);
    assert!(bounds.iter().all(|bound| bound.loose && bound.min == 0 && bound.max == 22));
}

#[test]
fn extrapolation_keeps_loose_bounds_when_unresolved() {
    let candidates = vec![melee("boot")];
    let bounds = extrapolate_batch(30, &candidates, &Vec::new());
    assert_eq!(bounds, vec![EffectiveBounds { min: 0, max: 30, loose: true }]);
}

#[test]
fn extrapolation_of_an_empty_batch_is_empty() {
    assert!(extrapolate_batch(10, &[], &[]).is_empty());
}

#[test]
fn time_range_round_trips_through_its_name() {
    for r in [TimeRange::Hours24, TimeRange::Days7, TimeRange::All] {
        assert_eq!(TimeRange::parse(Some(r.as_str())), r);
    }
    assert_eq!(TimeRange::parse(Some("bogus")), TimeRange::All);
    assert_eq!(TimeRange::parse(None), TimeRange::All);
}

#[test]
fn filter_params_drop_empty_player() {
    let f = FilterParams::from_query(Some("7d"), Some(""));
    assert_eq!(f.range, TimeRange::Days7);
    assert_eq!(f.player, None);
    let f = FilterParams::from_query(None, Some("Odefu"));
    assert_eq!(f.range, TimeRange::All);
    assert_eq!(f.player, Some("Odefu".to_string()));
}

#[test]
fn sort_params_parse_known_names_only() {
    assert_eq!(SortDirection::parse(Some("desc")), SortDirection::Desc);
    assert_eq!(SortDirection::parse(Some("DESC")), SortDirection::Asc);
    assert_eq!(LandingSortColumn::parse(Some("est_avg")), LandingSortColumn::EstAvg);
    assert_eq!(LandingSortColumn::parse(Some("nope")), LandingSortColumn::Verb);
    assert_eq!(EventSortColumn::parse(Some("weight")), EventSortColumn::Weight);
    assert_eq!(EventSortColumn::parse(None), EventSortColumn::RecordedAt);
}

fn facts(batch: i64, verb: &str, hp: i32, cc: i32) -> EventFacts {
    EventFacts {
        batch_id: batch,
        damage_category: "melee".to_string(),
        message_verb: verb.to_string(),
        hp_delta: hp,
        candidate_count: cc,
    }
}

#[test]
fn known_minima_come_from_isolated_hits_only() {
    let rows = vec![
        facts(1, "boot", 30, 1),
        facts(2, "boot", 12, 2),
        facts(3, "bitchslap", 22, 1),
        facts(4, "boot", 18, 1),
        facts(5, "bitchslap", 25, 1),
    ];
    let mins = known_mins_from_isolated(&rows);
    assert_eq!(mins, vec![(key("boot"), 18), (key("bitchslap"), 22)]);
    let bounds = extrapolate_batch(22, &[melee("bitchslap"), melee("boot")], &mins);
    assert_eq!(bounds[0], EffectiveBounds { min: 22, max: 22, loose: false });
    assert!(known_mins_from_isolated(&[facts(1, "x", 5, 3)]).is_empty());
}
