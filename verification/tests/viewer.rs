use batrs::combat_damage::aggregate::{FilterParams, TimeRange};
use batrs::combat_damage::viewer::{
    build_event_sort_href, build_filter_query, build_landing_sort_href, build_query_string,
    html_escape, parse_port_from_args, percent_encode_path, ViewerQuery, BIND_ADDR, DEFAULT_PORT,
};

#[test]
fn default_port_is_6464() {
    assert_eq!(parse_port_from_args(vec!["batrs".to_string()]), 6464);
}

#[test]
fn port_flag_overrides_default() {
    assert_eq!(
        parse_port_from_args(vec!["batrs".to_string(), "--port".to_string(), "8080".to_string()]),
        8080
    );
}

#[test]
fn bind_addr_is_localhost() {
    assert_eq!(BIND_ADDR, "127.0.0.1");
}

#[test]
fn bad_port_values_are_skipped() {
    let args = vec![
        "--port".to_string(),
        "70000".to_string(),
        "--port".to_string(),
        "+81".to_string(),
    ];
    assert_eq!(parse_port_from_args(args), 81);
    assert_eq!(parse_port_from_args(vec!["--port".to_string()]), DEFAULT_PORT);
    assert_eq!(
        parse_port_from_args(vec!["--port".to_string(), "--port".to_string(), "9".to_string()]),
        DEFAULT_PORT
    );
}

#[test]
fn html_escape_covers_the_four_specials() {
    assert_eq!(html_escape("a<b>&\"c\"'"), "a&lt;b&gt;&amp;&quot;c&quot;'");
    assert_eq!(html_escape("&amp;"), "&amp;amp;");
}

#[test]
fn percent_encoding_is_bytewise() {
    assert_eq!(percent_encode_path("hit hard"), "hit%20hard");
    assert_eq!(percent_encode_path("a-b_c.d~e"), "a-b_c.d~e");
    assert_eq!(percent_encode_path("ä/?"), "%C3%A4%2F%3F");
}

fn filters(range: TimeRange, player: Option<&str>) -> FilterParams {
    FilterParams { range, player: player.map(|p| p.to_string()) }
}

#[test]
fn filter_query_keeps_range_and_player() {
    assert_eq!(build_filter_query(&filters(TimeRange::All, None)), "");
    assert_eq!(build_filter_query(&filters(TimeRange::Days7, Some("Odefu Lee"))), "?range=7d&player=Odefu%20Lee");
    assert_eq!(
        build_query_string("/", &filters(TimeRange::Hours24, None), Some("verb"), Some("asc")),
        "/?range=24h&sort=verb&dir=asc"
    );
    assert_eq!(build_query_string("/", &filters(TimeRange::All, None), None, None), "/");
}

#[test]
fn sort_links_flip_the_current_column() {
    let f = filters(TimeRange::Days7, Some("Odefu"));
    let q = ViewerQuery::default();
    assert_eq!(build_landing_sort_href(&f, "verb", &q), "/?range=7d&player=Odefu&sort=verb&dir=desc");
    assert_eq!(build_landing_sort_href(&f, "conf_obs", &q), "/?range=7d&player=Odefu&sort=conf_obs&dir=desc");
    let q = ViewerQuery { sort: Some("conf_obs".to_string()), dir: Some("desc".to_string()), ..ViewerQuery::default() };
    assert_eq!(build_landing_sort_href(&f, "conf_obs", &q), "/?range=7d&player=Odefu&sort=conf_obs&dir=asc");
    assert_eq!(build_landing_sort_href(&filters(TimeRange::All, None), "verb", &q), "/?sort=verb&dir=asc");
    let q = ViewerQuery::default();
    assert_eq!(
        build_event_sort_href("melee", "hit hard", &filters(TimeRange::All, None), "recorded_at", &q),
        "/events/melee/hit%20hard?sort=recorded_at&dir=asc"
    );
    assert_eq!(
        build_event_sort_href("melee", "boot", &filters(TimeRange::All, None), "player", &q),
        "/events/melee/boot?sort=player&dir=asc"
    );
}

use batrs::combat_damage::viewer::{render_drill_down, render_filters, render_landing, EventRow, VerbRow};

fn verb_row(verb: &str) -> VerbRow {
    VerbRow {
        verb: verb.to_string(),
        confirmed_obs: 2,
        confirmed_min: Some(20),
        confirmed_max: Some(24),
        confirmed_avg: Some("22.0".to_string()),
        estimated_obs: 1,
        estimated_min: Some(0),
        estimated_max: None,
        estimated_avg: None,
        estimated_loose: true,
    }
}

#[test]
fn empty_landing_has_all_sections_and_hints() {
    let f = filters(TimeRange::All, None);
    let body = render_landing(&f, &[], &[], &[], &[], &ViewerQuery::default());
    for needle in ["Melee", "Skill", "Spell", "Confirmed", "Estimated", "No melee damage recorded yet.", "All players</option>"] {
        assert!(body.contains(needle), "{needle}");
    }
    assert!(!body.contains("bitchslap"));
    assert!(body.starts_with("<!DOCTYPE html>"));
    assert!(body.ends_with("</script></body></html>"));
}

#[test]
fn landing_rows_link_to_their_drill_down_and_keep_filters() {
    let f = filters(TimeRange::Days7, Some("Odefu"));
    let body = render_landing(&f, &["Odefu".to_string()], &[verb_row("hit hard")], &[], &[], &ViewerQuery::default());
    assert!(body.contains("value=\"7d\" selected"));
    assert!(body.contains("<option value=\"Odefu\" selected>Odefu</option>"));
    assert!(body.contains("<td><a href=\"/events/melee/hit%20hard?range=7d&player=Odefu\">hit hard</a></td>"));
    assert!(body.contains("<td class=\"numeric\">2</td><td class=\"numeric\">20</td><td class=\"numeric\">24</td><td class=\"numeric\">22.0</td>"));
    assert!(body.contains("<td class=\"numeric loose\">0</td><td class=\"numeric loose\">—</td>"));
    assert!(body.contains("player=Odefu"));
    assert!(body.contains("range=7d"));
}

#[test]
fn filter_form_escapes_player_names() {
    let f = filters(TimeRange::All, None);
    let html = render_filters(&f, &["<b>".to_string()], "/x");
    assert!(html.starts_with("<form class=\"filters\" method=\"get\" action=\"/x\">"));
    assert!(html.contains("<option value=\"all\" selected>All time</option>"));
    assert!(html.contains("<option value=\"&lt;b&gt;\">&lt;b&gt;</option>"));
}

fn event(batch: i64, cc: i32, text: &str) -> EventRow {
    EventRow {
        batch_id: batch,
        recorded_at: "2026-08-06T08:06:57Z".to_string(),
        player: "Odefu".to_string(),
        hp_delta: 22,
        damage_min: 0,
        damage_max: 22,
        source_name: "Holy man".to_string(),
        weight: "0.50".to_string(),
        candidate_count: cc,
        message_text: text.to_string(),
    }
}

#[test]
fn drill_down_shows_events_and_batches() {
    let f = filters(TimeRange::All, None);
    let q = ViewerQuery::default();
    let empty = render_drill_down("melee", "bitchslaps", &f, &[], &[], &q);
    assert!(empty.contains("No events for this verb."));
    assert!(empty.contains("href=\"/"));
    let events = vec![event(7, 2, "Holy man bitchslaps you."), event(7, 2, "Holy man boots you."), event(8, 1, "x")];
    let body = render_drill_down("melee", "bitchslap", &f, &[], &events, &q);
    assert!(body.contains("Holy man bitchslaps you. <span class=\"batch-label\">(batch 7)</span>"));
    assert!(body.contains("batch-group"));
    assert!(body.contains("0–22"));
    assert!(body.contains("<td class=\"numeric\">22</td>"));
    assert!(body.contains("<td>x</td></tr>"));
    assert!(body.contains("<p class=\"back-link\"><a href=\"/\">&larr; Back</a></p>"));
    assert!(body.contains("<th><a href=\"/events/melee/bitchslap?sort=recorded_at&dir=asc\">Recorded at</a></th>"));
}
