//! The local web viewer of recorded damage: its command line, links and
//! escaping, and the HTML of its pages.
use crate::combat_damage::aggregate::{FilterParams, TimeRange};
use crate::combat_damage::catalog::lines_view;
use crate::command::str_eq;
use crate::text::{
    chars_of, i64_text, int_text, is_prefix, parse_unsigned, parse_unsigned_chars, push_all,
    push_str_chars, string_of,
};
use vstd::prelude::*;
use vstd::utf8::encode_utf8;

verus! {

/// The port the viewer listens on unless told otherwise.
pub const DEFAULT_PORT: u16 = 6464;

/// The viewer only listens on the local machine.
pub const BIND_ADDR: &'static str = "127.0.0.1";

/// The query of a viewer page: filters and sort.
#[derive(Debug, Clone, Default)]
pub struct ViewerQuery {
    pub range: Option<String>,
    pub player: Option<String>,
    pub sort: Option<String>,
    pub dir: Option<String>,
}

/// The port that the arguments ask for: the first `--port` followed by a valid
/// port number wins; a `--port` with a bad value is skipped together with it.
pub open spec fn port_from(args: Seq<Seq<char>>, i: int) -> u16
    decreases args.len() - i,
{
    if i < 0 || i >= args.len() {
        DEFAULT_PORT
    } else if args[i] == "--port"@ && i + 1 < args.len() {
        match parse_unsigned(args[i + 1], 65535) {
            Some(p) => p as u16,
            None => port_from(args, i + 2),
        }
    } else {
        port_from(args, i + 1)
    }
}

proof fn lemma_no_flag_from(args: Seq<Seq<char>>, i: int)
    requires
        0 <= i,
        forall|j: int| 0 <= j < args.len() ==> args[j] != "--port"@,
    ensures
        port_from(args, i) == DEFAULT_PORT,
    decreases args.len() - i,
{
    if i < args.len() {
        lemma_no_flag_from(args, i + 1);
    }
}

/// Without a `--port` argument the viewer listens on the default port.
pub proof fn law_default_port_without_flag(args: Seq<Seq<char>>)
    requires
        forall|j: int| 0 <= j < args.len() ==> args[j] != "--port"@,
    ensures
        port_from(args, 0) == DEFAULT_PORT,
{
    lemma_no_flag_from(args, 0);
}

/// The port given on the command line, else the default.
pub fn parse_port_from_args(args: Vec<String>) -> (port: u16)
    ensures
        port == port_from(args@.map_values(|a: String| a@), 0),
{
    let ghost av = args@.map_values(|a: String| a@);
    let mut i: usize = 0;
    while i < args.len()
        invariant
            i <= args@.len() + 1,
            av == args@.map_values(|a: String| a@),
            port_from(av, 0) == port_from(av, i as int),
        decreases args.len() + 1 - i,
    {
        if str_eq(args[i].as_str(), "--port") && i + 1 < args.len() {
            let v = chars_of(args[i + 1].as_str());
            match parse_unsigned_chars(v.as_slice(), 65535) {
                Some(p) => {
                    return p as u16;
                },
                None => {},
            }
            i = i + 2;
        } else {
            i = i + 1;
        }
    }
    DEFAULT_PORT
}

/// How a character is written in HTML text and attribute values.
pub open spec fn html_char(c: char) -> Seq<char> {
    if c == '&' {
        "&amp;"@
    } else if c == '<' {
        "&lt;"@
    } else if c == '>' {
        "&gt;"@
    } else if c == '"' {
        "&quot;"@
    } else {
        seq![c]
    }
}

/// Text with the HTML special characters escaped.
pub open spec fn html_escape_spec(s: Seq<char>) -> Seq<char>
    decreases s.len(),
{
    if s.len() == 0 {
        seq![]
    } else {
        html_escape_spec(s.drop_last()) + html_char(s.last())
    }
}

fn push_html_escaped(out: &mut Vec<char>, s: &str)
    ensures
        final(out)@ == old(out)@ + html_escape_spec(s@),
{
    let cs = chars_of(s);
    let ghost start = out@;
    let mut i: usize = 0;
    while i < cs.len()
        invariant
            i <= cs@.len(),
            cs@ == s@,
            out@ == start + html_escape_spec(cs@.take(i as int)),
        decreases cs.len() - i,
    {
        assert(cs@.take(i + 1).drop_last() =~= cs@.take(i as int));
        let c = cs[i];
        let ghost before = out@;
        if c == '&' {
            push_str_chars(out, "&amp;");
        } else if c == '<' {
            push_str_chars(out, "&lt;");
        } else if c == '>' {
            push_str_chars(out, "&gt;");
        } else if c == '"' {
            push_str_chars(out, "&quot;");
        } else {
            out.push(c);
        }
        assert(out@ =~= before + html_char(c));
        i = i + 1;
    }
    assert(cs@.take(cs@.len() as int) =~= cs@);
}

/// Escapes `&`, `<`, `>` and `"` for HTML.
pub fn html_escape(value: &str) -> (r: String)
    ensures
        r@ == html_escape_spec(value@),
{
    let mut out: Vec<char> = Vec::new();
    push_html_escaped(&mut out, value);
    assert(out@ =~= html_escape_spec(value@));
    string_of(out.as_slice())
}

/// Bytes kept as they are in a URL path: letters, digits and `-_.~`.
pub open spec fn unreserved(b: u8) -> bool {
    (65 <= b <= 90) || (97 <= b <= 122) || (48 <= b <= 57) || b == 45 || b == 95 || b == 46
        || b == 126
}

/// The upper-case hexadecimal digit for `n`.
pub open spec fn upper_hex(n: int) -> char {
    "0123456789ABCDEF"@[n]
}

/// How a byte is written in a URL path.
pub open spec fn pct_byte(b: u8) -> Seq<char> {
    if unreserved(b) {
        seq![b as char]
    } else if b == 32 {
        "%20"@
    } else {
        seq!['%', upper_hex(b as int / 16), upper_hex(b as int % 16)]
    }
}

/// Bytes written for a URL path.
pub open spec fn pct_bytes(bs: Seq<u8>) -> Seq<char>
    decreases bs.len(),
{
    if bs.len() == 0 {
        seq![]
    } else {
        pct_bytes(bs.drop_last()) + pct_byte(bs.last())
    }
}

/// Text percent-encoded, byte by byte of its UTF-8 form.
pub open spec fn pct_text(s: Seq<char>) -> Seq<char> {
    pct_bytes(encode_utf8(s))
}

fn push_percent_encoded(out: &mut Vec<char>, value: &str)
    ensures
        final(out)@ == old(out)@ + pct_text(value@),
{
    let bytes = value.as_bytes();
    let hex = chars_of("0123456789ABCDEF");
    proof {
        reveal_strlit("0123456789ABCDEF");
    }
    let ghost start = out@;
    let mut i: usize = 0;
    while i < bytes.len()
        invariant
            i <= bytes@.len(),
            bytes@ == encode_utf8(value@),
            hex@ == "0123456789ABCDEF"@,
            hex@.len() == 16,
            out@ == start + pct_bytes(bytes@.take(i as int)),
        decreases bytes.len() - i,
    {
        assert(bytes@.take(i + 1).drop_last() =~= bytes@.take(i as int));
        let b = bytes[i];
        let ghost before = out@;
        if (65 <= b && b <= 90) || (97 <= b && b <= 122) || (48 <= b && b <= 57) || b == 45 || b
            == 95 || b == 46 || b == 126 {
            out.push(b as char);
        } else if b == 32 {
            push_str_chars(out, "%20");
        } else {
            out.push('%');
            out.push(hex[(b / 16) as usize]);
            out.push(hex[(b % 16) as usize]);
        }
        assert(out@ =~= before + pct_byte(b));
        i = i + 1;
    }
    assert(bytes@.take(bytes@.len() as int) =~= bytes@);
}

/// Percent-encodes a path segment.
pub fn percent_encode_path(value: &str) -> (r: String)
    ensures
        r@ == pct_text(value@),
{
    let mut out: Vec<char> = Vec::new();
    push_percent_encoded(&mut out, value);
    assert(out@ =~= pct_text(value@));
    string_of(out.as_slice())
}

/// Query parts joined by `&`.
pub open spec fn join_amp(parts: Seq<Seq<char>>) -> Seq<char>
    decreases parts.len(),
{
    if parts.len() == 0 {
        seq![]
    } else if parts.len() == 1 {
        parts[0]
    } else {
        join_amp(parts.drop_last()) + seq!['&'] + parts.last()
    }
}

fn join_amp_exec(parts: &Vec<Vec<char>>) -> (r: Vec<char>)
    ensures
        r@ == join_amp(lines_view(parts@)),
{
    let ghost pv = lines_view(parts@);
    let mut out: Vec<char> = Vec::new();
    let mut i: usize = 0;
    while i < parts.len()
        invariant
            i <= pv.len(),
            pv == lines_view(parts@),
            out@ == join_amp(pv.take(i as int)),
        decreases parts.len() - i,
    {
        assert(pv.take(i + 1).drop_last() =~= pv.take(i as int));
        if i > 0 {
            out.push('&');
        }
        push_all(&mut out, parts[i].as_slice());
        proof {
            if i == 0 {
                assert(pv.take(1) =~= seq![pv[0]]);
            }
        }
        i = i + 1;
    }
    assert(pv.take(pv.len() as int) =~= pv);
    out
}

/// The query parts of the filters: the range unless it is all time, and the
/// player if one is chosen.
pub open spec fn filter_parts(f: FilterParams) -> Seq<Seq<char>> {
    let a: Seq<Seq<char>> = if f.range != TimeRange::All {
        seq!["range="@ + f.range.name_spec()]
    } else {
        seq![]
    };
    match f.player {
        Some(p) => a.push("player="@ + pct_text(p@)),
        None => a,
    }
}

fn filter_parts_exec(filters: &FilterParams) -> (r: Vec<Vec<char>>)
    ensures
        lines_view(r@) == filter_parts(*filters),
{
    let mut parts: Vec<Vec<char>> = Vec::new();
    if filters.range != TimeRange::All {
        let mut p = chars_of("range=");
        push_str_chars(&mut p, filters.range.as_str());
        parts.push(p);
    }
    match &filters.player {
        Some(player) => {
            let mut p = chars_of("player=");
            push_percent_encoded(&mut p, player.as_str());
            parts.push(p);
        },
        None => {},
    }
    assert(lines_view(parts@) =~= filter_parts(*filters));
    parts
}

/// The query that keeps the filters: `?` and the parts, or nothing.
pub open spec fn filter_query_spec(f: FilterParams) -> Seq<char> {
    if filter_parts(f).len() == 0 {
        seq![]
    } else {
        seq!['?'] + join_amp(filter_parts(f))
    }
}

/// The query string that keeps the filters.
pub fn build_filter_query(filters: &FilterParams) -> (r: String)
    ensures
        r@ == filter_query_spec(*filters),
{
    let parts = filter_parts_exec(filters);
    if parts.len() == 0 {
        return string_of(&[]);
    }
    let mut out: Vec<char> = Vec::new();
    out.push('?');
    let j = join_amp_exec(&parts);
    push_all(&mut out, j.as_slice());
    string_of(out.as_slice())
}

/// An optional text as a sequence.
pub open spec fn str_opt(v: Option<&str>) -> Option<Seq<char>> {
    match v {
        Some(s) => Some(s@),
        None => None,
    }
}

/// A part `name=value` for an optional value.
pub open spec fn opt_part(name: Seq<char>, v: Option<Seq<char>>) -> Seq<Seq<char>> {
    match v {
        Some(s) => seq![name + s],
        None => seq![],
    }
}

/// A link to `path` that keeps the filters, sort and direction.
pub open spec fn query_string_spec(
    path: Seq<char>,
    f: FilterParams,
    sort: Option<Seq<char>>,
    dir: Option<Seq<char>>,
) -> Seq<char> {
    let parts = filter_parts(f) + opt_part("sort="@, sort) + opt_part("dir="@, dir);
    if parts.len() == 0 {
        path
    } else {
        path + seq!['?'] + join_amp(parts)
    }
}

fn push_opt_part(parts: &mut Vec<Vec<char>>, name: &str, v: Option<&str>)
    ensures
        lines_view(final(parts)@) == lines_view(old(parts)@) + opt_part(name@, str_opt(v)),
{
    let ghost before = lines_view(parts@);
    match v {
        Some(s) => {
            let mut p = chars_of(name);
            push_str_chars(&mut p, s);
            parts.push(p);
        },
        None => {},
    }
    assert(lines_view(parts@) =~= before + opt_part(name@, str_opt(v)));
}

/// A link to `path` that keeps the filters, sort and direction.
pub fn build_query_string(path: &str, filters: &FilterParams, sort: Option<&str>, dir: Option<&str>) -> (r:
    String)
    ensures
        r@ == query_string_spec(path@, *filters, str_opt(sort), str_opt(dir)),
{
    let mut parts = filter_parts_exec(filters);
    push_opt_part(&mut parts, "sort=", sort);
    push_opt_part(&mut parts, "dir=", dir);
    let mut out = chars_of(path);
    if parts.len() > 0 {
        out.push('?');
        let j = join_amp_exec(&parts);
        push_all(&mut out, j.as_slice());
    }
    string_of(out.as_slice())
}

fn opt_string_is(v: &Option<String>, lit: &str) -> (r: bool)
    ensures
        r == (v matches Some(s) && s@ == lit@),
{
    match v {
        Some(s) => str_eq(s.as_str(), lit),
        None => false,
    }
}

/// The current sort column: the query's, else `default`.
pub open spec fn current_sort(q: ViewerQuery, default: Seq<char>) -> Seq<char> {
    match q.sort {
        Some(s) => s@,
        None => default,
    }
}

/// The direction a landing-table header link sorts in: the current column
/// flips (descending unless it already is), a new column starts ascending
/// for the verb and descending for numbers.
pub open spec fn landing_next_dir(q: ViewerQuery, column: Seq<char>) -> Seq<char> {
    if current_sort(q, "verb"@) == column {
        if q.dir matches Some(d) && d@ == "desc"@ {
            "asc"@
        } else {
            "desc"@
        }
    } else if column == "verb"@ {
        "asc"@
    } else {
        "desc"@
    }
}

/// The direction a drill-down header link sorts in: the current column flips
/// (ascending unless it already is), a new column starts descending for the
/// time and ascending otherwise.
pub open spec fn event_next_dir(q: ViewerQuery, column: Seq<char>) -> Seq<char> {
    if current_sort(q, "recorded_at"@) == column {
        if q.dir matches Some(d) && d@ == "asc"@ {
            "desc"@
        } else {
            "asc"@
        }
    } else if column == "recorded_at"@ {
        "desc"@
    } else {
        "asc"@
    }
}

/// The query of a sort link: the filters, then the column and direction.
pub open spec fn sort_query(f: FilterParams, column: Seq<char>, dir: Seq<char>) -> Seq<char> {
    join_amp(filter_parts(f) + seq!["sort="@ + column, "dir="@ + dir])
}

fn sort_query_exec(filters: &FilterParams, column: &str, dir: &str) -> (r: Vec<char>)
    ensures
        r@ == sort_query(*filters, column@, dir@),
{
    let mut parts = filter_parts_exec(filters);
    let ghost fp = lines_view(parts@);
    let mut s = chars_of("sort=");
    push_str_chars(&mut s, column);
    parts.push(s);
    let mut d = chars_of("dir=");
    push_str_chars(&mut d, dir);
    parts.push(d);
    assert(lines_view(parts@) =~= fp + seq!["sort="@ + column@, "dir="@ + dir@]);
    join_amp_exec(&parts)
}

fn sort_is(q: &ViewerQuery, default: &str, column: &str) -> (r: bool)
    ensures
        r == (current_sort(*q, default@) == column@),
{
    match &q.sort {
        Some(s) => str_eq(s.as_str(), column),
        None => str_eq(default, column),
    }
}

/// The link of a landing-table header.
pub fn build_landing_sort_href(filters: &FilterParams, column: &str, query: &ViewerQuery) -> (r: String)
    ensures
        r@ == "/?"@ + sort_query(*filters, column@, landing_next_dir(*query, column@)),
{
    let next_dir = if sort_is(query, "verb", column) {
        if opt_string_is(&query.dir, "desc") {
            "asc"
        } else {
            "desc"
        }
    } else if str_eq(column, "verb") {
        "asc"
    } else {
        "desc"
    };
    let mut out = chars_of("/?");
    let q = sort_query_exec(filters, column, next_dir);
    push_all(&mut out, q.as_slice());
    string_of(out.as_slice())
}

/// The link of a drill-down header.
pub fn build_event_sort_href(
    category: &str,
    verb: &str,
    filters: &FilterParams,
    column: &str,
    query: &ViewerQuery,
) -> (r: String)
    ensures
        r@ == "/events/"@ + category@ + seq!['/'] + pct_text(verb@) + seq!['?'] + sort_query(
            *filters,
            column@,
            event_next_dir(*query, column@),
        ),
{
    let next_dir = if sort_is(query, "recorded_at", column) {
        if opt_string_is(&query.dir, "asc") {
            "desc"
        } else {
            "asc"
        }
    } else if str_eq(column, "recorded_at") {
        "desc"
    } else {
        "asc"
    };
    let mut out = chars_of("/events/");
    push_str_chars(&mut out, category);
    out.push('/');
    push_percent_encoded(&mut out, verb);
    out.push('?');
    let q = sort_query_exec(filters, column, next_dir);
    push_all(&mut out, q.as_slice());
    string_of(out.as_slice())
}


/// The script that makes header links reload the page.
pub const SORT_SCRIPT: &'static str = "<script>document.querySelectorAll('th a').forEach((link)=>link.addEventListener('click',(event)=>{event.preventDefault();window.location=link.href;}));</script>";

/// The script that makes header links reload the page.
pub fn render_sort_script() -> (r: &'static str)
    ensures
        r@ == SORT_SCRIPT@,
{
    SORT_SCRIPT
}

/// A landing-table row: a verb's confirmed and estimated damage. The averages
/// are the decimal text shown (one decimal place).
#[derive(Debug, Clone, PartialEq, Eq)]
pub struct VerbRow {
    pub verb: String,
    pub confirmed_obs: i64,
    pub confirmed_min: Option<i32>,
    pub confirmed_max: Option<i32>,
    pub confirmed_avg: Option<String>,
    pub estimated_obs: i64,
    pub estimated_min: Option<i32>,
    pub estimated_max: Option<i32>,
    pub estimated_avg: Option<String>,
    pub estimated_loose: bool,
}

/// A drill-down row: one recorded hit. The weight is the decimal text shown
/// (two decimal places).
#[derive(Debug, Clone, PartialEq, Eq)]
pub struct EventRow {
    pub batch_id: i64,
    pub recorded_at: String,
    pub player: String,
    pub hp_delta: i32,
    pub damage_min: i32,
    pub damage_max: i32,
    pub source_name: String,
    pub weight: String,
    pub candidate_count: i32,
    pub message_text: String,
}

/// ` selected` when `on`.
pub open spec fn selected_attr(on: bool) -> Seq<char> {
    if on {
        " selected"@
    } else {
        seq![]
    }
}

/// One option of a select.
pub open spec fn option_html(value: Seq<char>, on: bool, label: Seq<char>) -> Seq<char> {
    "<option value=\""@ + value + "\""@ + selected_attr(on) + ">"@ + label + "</option>"@
}

/// The options of the player select, one per player.
pub open spec fn player_options(players: Seq<Seq<char>>, chosen: Option<Seq<char>>) -> Seq<char>
    decreases players.len(),
{
    if players.len() == 0 {
        seq![]
    } else {
        let p = players.last();
        player_options(players.drop_last(), chosen) + option_html(
            html_escape_spec(p),
            chosen == Some(p),
            html_escape_spec(p),
        )
    }
}

/// The chosen player's name, if one is chosen.
pub open spec fn chosen_player(f: FilterParams) -> Option<Seq<char>> {
    match f.player {
        Some(p) => Some(p@),
        None => None,
    }
}

/// The filter form: a time range select, a player select and a submit button.
pub open spec fn filters_html(f: FilterParams, players: Seq<Seq<char>>, action: Seq<char>) -> Seq<char> {
    let chosen = chosen_player(f);
    "<form class=\"filters\" method=\"get\" action=\""@ + action + "\">"@
        + "<label>Time range<select name=\"range\">"@
        + option_html("all"@, f.range.name_spec() == "all"@, "All time"@)
        + option_html("24h"@, f.range.name_spec() == "24h"@, "Last 24h"@)
        + option_html("7d"@, f.range.name_spec() == "7d"@, "Last 7d"@)
        + "</select></label><label>Player<select name=\"player\">"@
        + option_html(seq![], f.player is None, "All players"@)
        + player_options(players, chosen)
        + "</select></label><button type=\"submit\">Apply</button></form>"@
}

fn push_option(out: &mut Vec<char>, value: &str, on: bool, label: &str)
    ensures
        final(out)@ == old(out)@ + option_html(value@, on, label@),
{
    let ghost before = out@;
    push_str_chars(out, "<option value=\"");
    push_str_chars(out, value);
    push_str_chars(out, "\"");
    if on {
        push_str_chars(out, " selected");
    }
    push_str_chars(out, ">");
    push_str_chars(out, label);
    push_str_chars(out, "</option>");
    assert(out@ =~= before + option_html(value@, on, label@));
}

fn push_escaped_option(out: &mut Vec<char>, player: &str, on: bool)
    ensures
        final(out)@ == old(out)@ + option_html(html_escape_spec(player@), on, html_escape_spec(player@)),
{
    let ghost before = out@;
    push_str_chars(out, "<option value=\"");
    push_html_escaped(out, player);
    push_str_chars(out, "\"");
    if on {
        push_str_chars(out, " selected");
    }
    push_str_chars(out, ">");
    push_html_escaped(out, player);
    push_str_chars(out, "</option>");
    assert(out@ =~= before + option_html(html_escape_spec(player@), on, html_escape_spec(player@)));
}

fn player_is(filters: &FilterParams, p: &String) -> (r: bool)
    ensures
        r == (chosen_player(*filters) == Some(p@)),
{
    match &filters.player {
        Some(q) => str_eq(q.as_str(), p.as_str()),
        None => false,
    }
}

/// The filter form of a page whose form submits to `action`.
pub fn render_filters(filters: &FilterParams, players: &[String], action: &str) -> (r: String)
    ensures
        r@ == filters_html(*filters, players@.map_values(|p: String| p@), action@),
{
    let ghost pv = players@.map_values(|p: String| p@);
    let ghost chosen = chosen_player(*filters);
    let mut out = chars_of("<form class=\"filters\" method=\"get\" action=\"");
    push_str_chars(&mut out, action);
    push_str_chars(&mut out, "\">");
    push_str_chars(&mut out, "<label>Time range<select name=\"range\">");
    let range = filters.range.as_str();
    push_option(&mut out, "all", str_eq(range, "all"), "All time");
    push_option(&mut out, "24h", str_eq(range, "24h"), "Last 24h");
    push_option(&mut out, "7d", str_eq(range, "7d"), "Last 7d");
    push_str_chars(&mut out, "</select></label><label>Player<select name=\"player\">");
    push_option(&mut out, "", filters.player.is_none(), "All players");
    let ghost head = out@;
    let mut i: usize = 0;
    while i < players.len()
        invariant
            i <= players@.len(),
            pv == players@.map_values(|p: String| p@),
            chosen == chosen_player(*filters),
            out@ == head + player_options(pv.take(i as int), chosen),
        decreases players.len() - i,
    {
        assert(pv.take(i + 1).drop_last() =~= pv.take(i as int));
        let on = player_is(filters, &players[i]);
        push_escaped_option(&mut out, players[i].as_str(), on);
        i = i + 1;
    }
    assert(pv.take(pv.len() as int) =~= pv);
    push_str_chars(&mut out, "</select></label><button type=\"submit\">Apply</button></form>");
    proof {
        assert(""@ =~= Seq::<char>::empty()) by {
            reveal_strlit("");
        }
    }
    assert(out@ =~= filters_html(*filters, pv, action@));
    string_of(out.as_slice())
}


/// A numeric cell.
pub open spec fn numeric_cell(v: int) -> Seq<char> {
    "<td class=\"numeric\">"@ + int_text(v) + "</td>"@
}

/// The class of a numeric cell, marked loose when its bounds are only the batch's.
pub open spec fn numeric_class(loose: bool) -> Seq<char> {
    if loose {
        "numeric loose"@
    } else {
        "numeric"@
    }
}

/// A numeric cell that may be empty (shown as a dash).
pub open spec fn optional_cell(v: Option<Seq<char>>, loose: bool) -> Seq<char> {
    "<td class=\""@ + numeric_class(loose) + "\">"@ + match v {
        Some(t) => t,
        None => "—"@,
    } + "</td>"@
}

pub open spec fn opt_int_text(v: Option<i32>) -> Option<Seq<char>> {
    match v {
        Some(n) => Some(int_text(n as int)),
        None => None,
    }
}

pub open spec fn opt_text(v: Option<String>) -> Option<Seq<char>> {
    match v {
        Some(t) => Some(t@),
        None => None,
    }
}

/// The verb cell of a landing-table row, linked to the verb's drill-down.
pub open spec fn verb_link_html(category: Seq<char>, verb: Seq<char>, f: FilterParams) -> Seq<char> {
    "<td><a href=\""@ + "/events/"@ + category + seq!['/'] + pct_text(verb) + filter_query_spec(f) + "\">"@
        + html_escape_spec(verb) + "</a></td>"@
}

/// The confirmed figures of a landing-table row.
pub open spec fn confirmed_cells(r: VerbRow) -> Seq<char> {
    numeric_cell(r.confirmed_obs as int) + optional_cell(opt_int_text(r.confirmed_min), false)
        + optional_cell(opt_int_text(r.confirmed_max), false) + optional_cell(opt_text(r.confirmed_avg), false)
}

/// The estimated figures of a landing-table row, marked loose when they are.
pub open spec fn estimated_cells(r: VerbRow) -> Seq<char> {
    numeric_cell(r.estimated_obs as int) + optional_cell(opt_int_text(r.estimated_min), r.estimated_loose)
        + optional_cell(opt_int_text(r.estimated_max), r.estimated_loose) + optional_cell(
        opt_text(r.estimated_avg),
        r.estimated_loose,
    )
}

/// One row of a landing table: the verb, then the confirmed and the estimated figures.
pub open spec fn verb_row_html(category: Seq<char>, r: VerbRow, f: FilterParams) -> Seq<char> {
    "<tr>"@ + verb_link_html(category, r.verb@, f) + confirmed_cells(r) + estimated_cells(r) + "</tr>"@
}

pub open spec fn verb_rows_html(category: Seq<char>, rows: Seq<VerbRow>, f: FilterParams) -> Seq<char>
    decreases rows.len(),
{
    if rows.len() == 0 {
        seq![]
    } else {
        verb_rows_html(category, rows.drop_last(), f) + verb_row_html(category, rows.last(), f)
    }
}

/// A header cell of a landing table that sorts by its column.
pub open spec fn landing_header(f: FilterParams, q: ViewerQuery, col: Seq<char>, label: Seq<char>) -> Seq<char> {
    let class = if is_prefix("conf_"@, col) {
        "confirmed"@
    } else {
        "estimated"@
    };
    "<th class=\""@ + class + "\"><a href=\""@ + "/?"@ + sort_query(f, col, landing_next_dir(q, col))
        + "\">"@ + label + "</a></th>"@
}

/// The first header row of a landing table and the start of the second.
pub open spec fn table_top_html(title: Seq<char>, f: FilterParams, q: ViewerQuery) -> Seq<char> {
    "<h2>"@ + title + "</h2><table><thead><tr><th rowspan=\"2\">"@ + "<a href=\""@ + "/?"@ + sort_query(
        f,
        "verb"@,
        landing_next_dir(q, "verb"@),
    ) + "\">Verb</a></th>"@ + "<th colspan=\"4\" class=\"confirmed\">Confirmed</th>"@
        + "<th colspan=\"4\" class=\"estimated\">Estimated</th></tr><tr>"@
}

/// The sort headers of the confirmed figures.
pub open spec fn confirmed_headers(f: FilterParams, q: ViewerQuery) -> Seq<char> {
    landing_header(f, q, "conf_obs"@, "Obs"@) + landing_header(f, q, "conf_min"@, "Min"@) + landing_header(
        f,
        q,
        "conf_max"@,
        "Max"@,
    ) + landing_header(f, q, "conf_avg"@, "Avg"@)
}

/// The sort headers of the estimated figures.
pub open spec fn estimated_headers(f: FilterParams, q: ViewerQuery) -> Seq<char> {
    landing_header(f, q, "est_obs"@, "Obs"@) + landing_header(f, q, "est_min"@, "Min"@) + landing_header(
        f,
        q,
        "est_max"@,
        "Max"@,
    ) + landing_header(f, q, "est_avg"@, "Avg"@)
}

/// A landing table's body: a row per verb, or a hint when there are none.
pub open spec fn table_body_html(category: Seq<char>, empty_hint: Seq<char>, rows: Seq<VerbRow>, f: FilterParams) -> Seq<char> {
    if rows.len() == 0 {
        "</tbody></table><p class=\"empty-hint\">"@ + empty_hint + "</p>"@
    } else {
        verb_rows_html(category, rows, f) + "</tbody></table>"@
    }
}

/// A landing table: the title, two header rows of sort links, and the body.
pub open spec fn category_table_html(
    title: Seq<char>,
    category: Seq<char>,
    empty_hint: Seq<char>,
    rows: Seq<VerbRow>,
    f: FilterParams,
    q: ViewerQuery,
) -> Seq<char> {
    table_top_html(title, f, q) + confirmed_headers(f, q) + estimated_headers(f, q) + "</tr></thead><tbody>"@
        + table_body_html(category, empty_hint, rows, f)
}

fn push_numeric_cell(out: &mut Vec<char>, v: i64)
    ensures
        final(out)@ == old(out)@ + numeric_cell(v as int),
{
    let ghost before = out@;
    push_str_chars(out, "<td class=\"numeric\">");
    let t = i64_text(v);
    push_str_chars(out, t.as_str());
    push_str_chars(out, "</td>");
    assert(out@ =~= before + numeric_cell(v as int));
}

fn push_optional_cell(out: &mut Vec<char>, v: Option<&str>, loose: bool)
    ensures
        final(out)@ == old(out)@ + optional_cell(
            match v {
                Some(t) => Some(t@),
                None => None,
            },
            loose,
        ),
{
    let ghost before = out@;
    push_str_chars(out, "<td class=\"");
    if loose {
        push_str_chars(out, "numeric loose");
    } else {
        push_str_chars(out, "numeric");
    }
    push_str_chars(out, "\">");
    match v {
        Some(t) => push_str_chars(out, t),
        None => push_str_chars(out, "—"),
    }
    push_str_chars(out, "</td>");
    assert(out@ =~= before + optional_cell(
        match v {
            Some(t) => Some(t@),
            None => None,
        },
        loose,
    ));
}

fn push_optional_int_cell(out: &mut Vec<char>, v: Option<i32>, loose: bool)
    ensures
        final(out)@ == old(out)@ + optional_cell(opt_int_text(v), loose),
{
    match v {
        Some(n) => {
            let t = i64_text(n as i64);
            push_optional_cell(out, Some(t.as_str()), loose);
        },
        None => push_optional_cell(out, None, loose),
    }
}

fn push_optional_text_cell(out: &mut Vec<char>, v: &Option<String>, loose: bool)
    ensures
        final(out)@ == old(out)@ + optional_cell(opt_text(*v), loose),
{
    match v {
        Some(t) => push_optional_cell(out, Some(t.as_str()), loose),
        None => push_optional_cell(out, None, loose),
    }
}

fn push_verb_link(out: &mut Vec<char>, category: &str, verb: &str, filters: &FilterParams)
    ensures
        final(out)@ == old(out)@ + verb_link_html(category@, verb@, *filters),
{
    let ghost before = out@;
    push_str_chars(out, "<td><a href=\"");
    push_str_chars(out, "/events/");
    push_str_chars(out, category);
    out.push('/');
    push_percent_encoded(out, verb);
    let fq = build_filter_query(filters);
    push_str_chars(out, fq.as_str());
    push_str_chars(out, "\">");
    push_html_escaped(out, verb);
    push_str_chars(out, "</a></td>");
    assert(out@ =~= before + verb_link_html(category@, verb@, *filters));
}

fn push_confirmed_cells(out: &mut Vec<char>, r: &VerbRow)
    ensures
        final(out)@ == old(out)@ + confirmed_cells(*r),
{
    let ghost before = out@;
    push_numeric_cell(out, r.confirmed_obs);
    push_optional_int_cell(out, r.confirmed_min, false);
    push_optional_int_cell(out, r.confirmed_max, false);
    push_optional_text_cell(out, &r.confirmed_avg, false);
    assert(out@ =~= before + confirmed_cells(*r));
}

fn push_estimated_cells(out: &mut Vec<char>, r: &VerbRow)
    ensures
        final(out)@ == old(out)@ + estimated_cells(*r),
{
    let ghost before = out@;
    push_numeric_cell(out, r.estimated_obs);
    push_optional_int_cell(out, r.estimated_min, r.estimated_loose);
    push_optional_int_cell(out, r.estimated_max, r.estimated_loose);
    push_optional_text_cell(out, &r.estimated_avg, r.estimated_loose);
    assert(out@ =~= before + estimated_cells(*r));
}

fn push_verb_row(out: &mut Vec<char>, category: &str, r: &VerbRow, filters: &FilterParams)
    ensures
        final(out)@ == old(out)@ + verb_row_html(category@, *r, *filters),
{
    let ghost before = out@;
    push_str_chars(out, "<tr>");
    push_verb_link(out, category, r.verb.as_str(), filters);
    push_confirmed_cells(out, r);
    push_estimated_cells(out, r);
    push_str_chars(out, "</tr>");
    assert(out@ =~= before + verb_row_html(category@, *r, *filters));
}

fn push_landing_header(out: &mut Vec<char>, filters: &FilterParams, query: &ViewerQuery, col: &str, label: &str)
    ensures
        final(out)@ == old(out)@ + landing_header(*filters, *query, col@, label@),
{
    let ghost before = out@;
    let cc = chars_of(col);
    let conf = chars_of("conf_");
    push_str_chars(out, "<th class=\"");
    if crate::text::starts_with_chars(cc.as_slice(), conf.as_slice()) {
        push_str_chars(out, "confirmed");
    } else {
        push_str_chars(out, "estimated");
    }
    push_str_chars(out, "\"><a href=\"");
    let href = build_landing_sort_href(filters, col, query);
    push_str_chars(out, href.as_str());
    push_str_chars(out, "\">");
    push_str_chars(out, label);
    push_str_chars(out, "</a></th>");
    assert(out@ =~= before + landing_header(*filters, *query, col@, label@));
}

fn push_table_top(out: &mut Vec<char>, title: &str, filters: &FilterParams, query: &ViewerQuery)
    ensures
        final(out)@ == old(out)@ + table_top_html(title@, *filters, *query),
{
    let ghost before = out@;
    push_str_chars(out, "<h2>");
    push_str_chars(out, title);
    push_str_chars(out, "</h2><table><thead><tr><th rowspan=\"2\">");
    let verb_href = build_landing_sort_href(filters, "verb", query);
    push_str_chars(out, "<a href=\"");
    push_str_chars(out, verb_href.as_str());
    push_str_chars(out, "\">Verb</a></th>");
    push_str_chars(out, "<th colspan=\"4\" class=\"confirmed\">Confirmed</th>");
    push_str_chars(out, "<th colspan=\"4\" class=\"estimated\">Estimated</th></tr><tr>");
    assert(out@ =~= before + table_top_html(title@, *filters, *query));
}

fn push_confirmed_headers(out: &mut Vec<char>, filters: &FilterParams, query: &ViewerQuery)
    ensures
        final(out)@ == old(out)@ + confirmed_headers(*filters, *query),
{
    let ghost before = out@;
    push_landing_header(out, filters, query, "conf_obs", "Obs");
    push_landing_header(out, filters, query, "conf_min", "Min");
    push_landing_header(out, filters, query, "conf_max", "Max");
    push_landing_header(out, filters, query, "conf_avg", "Avg");
    assert(out@ =~= before + confirmed_headers(*filters, *query));
}

fn push_estimated_headers(out: &mut Vec<char>, filters: &FilterParams, query: &ViewerQuery)
    ensures
        final(out)@ == old(out)@ + estimated_headers(*filters, *query),
{
    let ghost before = out@;
    push_landing_header(out, filters, query, "est_obs", "Obs");
    push_landing_header(out, filters, query, "est_min", "Min");
    push_landing_header(out, filters, query, "est_max", "Max");
    push_landing_header(out, filters, query, "est_avg", "Avg");
    assert(out@ =~= before + estimated_headers(*filters, *query));
}

fn push_table_body(out: &mut Vec<char>, category: &str, empty_hint: &str, rows: &[VerbRow], filters: &FilterParams)
    ensures
        final(out)@ == old(out)@ + table_body_html(category@, empty_hint@, rows@, *filters),
{
    let ghost head = out@;
    if rows.len() == 0 {
        push_str_chars(out, "</tbody></table><p class=\"empty-hint\">");
        push_str_chars(out, empty_hint);
        push_str_chars(out, "</p>");
        assert(out@ =~= head + table_body_html(category@, empty_hint@, rows@, *filters));
        return;
    }
    let mut i: usize = 0;
    while i < rows.len()
        invariant
            i <= rows@.len(),
            out@ == head + verb_rows_html(category@, rows@.take(i as int), *filters),
        decreases rows.len() - i,
    {
        assert(rows@.take(i + 1).drop_last() =~= rows@.take(i as int));
        push_verb_row(out, category, &rows[i], filters);
        i = i + 1;
    }
    assert(rows@.take(rows@.len() as int) =~= rows@);
    push_str_chars(out, "</tbody></table>");
    assert(out@ =~= head + table_body_html(category@, empty_hint@, rows@, *filters));
}

/// A landing table for one category of damage.
pub fn render_category_table(
    title: &str,
    category: &str,
    empty_hint: &str,
    rows: &[VerbRow],
    filters: &FilterParams,
    query: &ViewerQuery,
) -> (r: String)
    ensures
        r@ == category_table_html(title@, category@, empty_hint@, rows@, *filters, *query),
{
    let mut out: Vec<char> = Vec::new();
    push_table_top(&mut out, title, filters, query);
    push_confirmed_headers(&mut out, filters, query);
    push_estimated_headers(&mut out, filters, query);
    push_str_chars(&mut out, "</tr></thead><tbody>");
    push_table_body(&mut out, category, empty_hint, rows, filters);
    assert(out@ =~= category_table_html(title@, category@, empty_hint@, rows@, *filters, *query));
    string_of(out.as_slice())
}

/// The page head shared by the viewer's pages, up to the body.
pub open spec fn page_head(title: Seq<char>) -> Seq<char> {
    "<!DOCTYPE html><html lang=\"en\"><head><meta charset=\"utf-8\">"@ + "<title>"@ + title
        + "</title><link rel=\"stylesheet\" href=\"/style.css\">"@
}

/// The landing page: the filter form and a table for melee, skill and spell damage.
pub open spec fn landing_html(
    f: FilterParams,
    players: Seq<Seq<char>>,
    melee: Seq<VerbRow>,
    skill: Seq<VerbRow>,
    spell: Seq<VerbRow>,
    q: ViewerQuery,
) -> Seq<char> {
    page_head("Combat damage"@) + "</head><body><h1>Combat damage</h1>"@ + filters_html(f, players, "/"@)
        + category_table_html("Melee"@, "melee"@, "No melee damage recorded yet."@, melee, f, q)
        + category_table_html("Skill"@, "skill"@, "No skill damage recorded yet."@, skill, f, q)
        + category_table_html("Spell"@, "spell"@, "No spell damage recorded yet."@, spell, f, q)
        + SORT_SCRIPT@ + "</body></html>"@
}

/// The landing page.
pub fn render_landing(
    filters: &FilterParams,
    players: &[String],
    melee: &[VerbRow],
    skill: &[VerbRow],
    spell: &[VerbRow],
    query: &ViewerQuery,
) -> (r: String)
    ensures
        r@ == landing_html(*filters, players@.map_values(|p: String| p@), melee@, skill@, spell@, *query),
{
    let mut out = chars_of("<!DOCTYPE html><html lang=\"en\"><head><meta charset=\"utf-8\">");
    push_str_chars(&mut out, "<title>");
    push_str_chars(&mut out, "Combat damage");
    push_str_chars(&mut out, "</title><link rel=\"stylesheet\" href=\"/style.css\">");
    push_str_chars(&mut out, "</head><body><h1>Combat damage</h1>");
    let f = render_filters(filters, players, "/");
    push_str_chars(&mut out, f.as_str());
    let m = render_category_table("Melee", "melee", "No melee damage recorded yet.", melee, filters, query);
    push_str_chars(&mut out, m.as_str());
    let k = render_category_table("Skill", "skill", "No skill damage recorded yet.", skill, filters, query);
    push_str_chars(&mut out, k.as_str());
    let p = render_category_table("Spell", "spell", "No spell damage recorded yet.", spell, filters, query);
    push_str_chars(&mut out, p.as_str());
    push_str_chars(&mut out, render_sort_script());
    push_str_chars(&mut out, "</body></html>");
    assert(out@ =~= landing_html(*filters, players@.map_values(|p: String| p@), melee@, skill@, spell@, *query));
    string_of(out.as_slice())
}


/// How many events belong to batch `b`.
pub open spec fn batch_count(events: Seq<EventRow>, b: i64) -> nat
    decreases events.len(),
{
    if events.len() == 0 {
        0
    } else {
        batch_count(events.drop_last(), b) + if events.last().batch_id == b {
            1nat
        } else {
            0nat
        }
    }
}

/// The damage shown for an event: its bounds when it shared its batch, else
/// the hit points lost.
pub open spec fn damage_text(e: EventRow) -> Seq<char> {
    if e.candidate_count > 1 {
        int_text(e.damage_min as int) + "–"@ + int_text(e.damage_max as int)
    } else {
        int_text(e.hp_delta as int)
    }
}

/// The batch label of an event whose batch shows more than one row.
pub open spec fn batch_note(e: EventRow, events: Seq<EventRow>) -> Seq<char> {
    if batch_count(events, e.batch_id) > 1 {
        " <span class=\"batch-label\">(batch "@ + int_text(e.batch_id as int) + ")</span>"@
    } else {
        seq![]
    }
}

/// The first cells of a drill-down row: time, player and damage.
pub open spec fn event_row_start(e: EventRow) -> Seq<char> {
    "<tr"@ + (if e.candidate_count > 1 {
        " class=\"batch-group\""@
    } else {
        seq![]
    }) + ">"@ + "<td>"@ + html_escape_spec(e.recorded_at@) + "</td>"@ + "<td>"@ + html_escape_spec(
        e.player@,
    ) + "</td>"@ + "<td class=\"numeric"@ + (if e.candidate_count > 1 {
        " loose"@
    } else {
        seq![]
    }) + "\">"@ + damage_text(e) + "</td>"@
}

/// The last cells of a drill-down row: source, weight, candidates and message.
pub open spec fn event_row_end(e: EventRow, events: Seq<EventRow>) -> Seq<char> {
    "<td>"@ + html_escape_spec(e.source_name@) + "</td>"@ + "<td class=\"numeric\">"@ + e.weight@
        + "</td>"@ + "<td class=\"numeric\">"@ + int_text(e.candidate_count as int) + "</td>"@ + "<td>"@
        + html_escape_spec(e.message_text@) + batch_note(e, events) + "</td>"@ + "</tr>"@
}

pub open spec fn event_rows_html(rows: Seq<EventRow>, events: Seq<EventRow>) -> Seq<char>
    decreases rows.len(),
{
    if rows.len() == 0 {
        seq![]
    } else {
        event_rows_html(rows.drop_last(), events) + event_row_start(rows.last()) + event_row_end(
            rows.last(),
            events,
        )
    }
}

/// A drill-down header cell that sorts by its column.
pub open spec fn event_header(
    category: Seq<char>,
    verb: Seq<char>,
    f: FilterParams,
    q: ViewerQuery,
    col: Seq<char>,
    label: Seq<char>,
) -> Seq<char> {
    "<th><a href=\""@ + "/events/"@ + category + seq!['/'] + pct_text(verb) + seq!['?'] + sort_query(
        f,
        col,
        event_next_dir(q, col),
    ) + "\">"@ + label + "</a></th>"@
}

/// The drill-down header cells.
pub open spec fn event_headers(category: Seq<char>, verb: Seq<char>, f: FilterParams, q: ViewerQuery) -> Seq<char> {
    event_header(category, verb, f, q, "recorded_at"@, "Recorded at"@) + event_header(
        category,
        verb,
        f,
        q,
        "player"@,
        "Player"@,
    ) + event_header(category, verb, f, q, "hp_delta"@, "HP delta"@) + event_header(
        category,
        verb,
        f,
        q,
        "source_name"@,
        "Source"@,
    ) + event_header(category, verb, f, q, "weight"@, "Weight"@) + event_header(
        category,
        verb,
        f,
        q,
        "candidate_count"@,
        "Candidates"@,
    ) + event_header(category, verb, f, q, "message_text"@, "Message"@)
}

/// The top of a drill-down page: head, back link, heading and filter form.
pub open spec fn drill_top_html(
    category: Seq<char>,
    verb: Seq<char>,
    f: FilterParams,
    players: Seq<Seq<char>>,
    q: ViewerQuery,
) -> Seq<char> {
    page_head("Combat damage events"@) + "</head><body>"@ + "<p class=\"back-link\"><a href=\""@
        + query_string_spec("/"@, f, opt_text(q.sort), opt_text(q.dir)) + "\">&larr; Back</a></p>"@
        + "<h1>"@ + html_escape_spec(category) + " / "@ + html_escape_spec(verb) + "</h1>"@ + filters_html(
        f,
        players,
        "/events/"@ + category + seq!['/'] + verb,
    )
}

/// The body of the drill-down table: a row per event, or a hint.
pub open spec fn drill_body_html(events: Seq<EventRow>) -> Seq<char> {
    if events.len() == 0 {
        "</tbody></table><p class=\"empty-hint\">No events for this verb.</p>"@
    } else {
        event_rows_html(events, events) + "</tbody></table>"@
    }
}

/// The drill-down page of one verb: its events with sort links.
pub open spec fn drill_down_html(
    category: Seq<char>,
    verb: Seq<char>,
    f: FilterParams,
    players: Seq<Seq<char>>,
    events: Seq<EventRow>,
    q: ViewerQuery,
) -> Seq<char> {
    drill_top_html(category, verb, f, players, q) + "<table><thead><tr>"@ + event_headers(category, verb, f, q)
        + "</tr></thead><tbody>"@ + drill_body_html(events) + SORT_SCRIPT@ + "</body></html>"@
}

fn count_batch(events: &[EventRow], b: i64) -> (r: usize)
    ensures
        r == batch_count(events@, b),
{
    let mut n: usize = 0;
    let mut i: usize = 0;
    while i < events.len()
        invariant
            i <= events@.len(),
            n == batch_count(events@.take(i as int), b),
            n <= i,
        decreases events.len() - i,
    {
        assert(events@.take(i + 1).drop_last() =~= events@.take(i as int));
        if events[i].batch_id == b {
            n = n + 1;
        }
        i = i + 1;
    }
    assert(events@.take(events@.len() as int) =~= events@);
    n
}

fn push_int(out: &mut Vec<char>, v: i64)
    ensures
        final(out)@ == old(out)@ + int_text(v as int),
{
    let t = i64_text(v);
    push_str_chars(out, t.as_str());
}

fn push_event_row_start(out: &mut Vec<char>, e: &EventRow)
    ensures
        final(out)@ == old(out)@ + event_row_start(*e),
{
    let ghost before = out@;
    push_str_chars(out, "<tr");
    if e.candidate_count > 1 {
        push_str_chars(out, " class=\"batch-group\"");
    }
    push_str_chars(out, ">");
    push_str_chars(out, "<td>");
    push_html_escaped(out, e.recorded_at.as_str());
    push_str_chars(out, "</td>");
    push_str_chars(out, "<td>");
    push_html_escaped(out, e.player.as_str());
    push_str_chars(out, "</td>");
    push_str_chars(out, "<td class=\"numeric");
    if e.candidate_count > 1 {
        push_str_chars(out, " loose");
    }
    push_str_chars(out, "\">");
    let ghost mid = out@;
    if e.candidate_count > 1 {
        push_int(out, e.damage_min as i64);
        push_str_chars(out, "–");
        push_int(out, e.damage_max as i64);
    } else {
        push_int(out, e.hp_delta as i64);
    }
    assert(out@ =~= mid + damage_text(*e));
    push_str_chars(out, "</td>");
    assert(out@ =~= before + event_row_start(*e));
}

fn push_event_row_end(out: &mut Vec<char>, e: &EventRow, events: &[EventRow])
    ensures
        final(out)@ == old(out)@ + event_row_end(*e, events@),
{
    let ghost before = out@;
    push_str_chars(out, "<td>");
    push_html_escaped(out, e.source_name.as_str());
    push_str_chars(out, "</td>");
    push_str_chars(out, "<td class=\"numeric\">");
    push_str_chars(out, e.weight.as_str());
    push_str_chars(out, "</td>");
    push_str_chars(out, "<td class=\"numeric\">");
    push_int(out, e.candidate_count as i64);
    push_str_chars(out, "</td>");
    push_str_chars(out, "<td>");
    push_html_escaped(out, e.message_text.as_str());
    let ghost mid = out@;
    if count_batch(events, e.batch_id) > 1 {
        push_str_chars(out, " <span class=\"batch-label\">(batch ");
        push_int(out, e.batch_id);
        push_str_chars(out, ")</span>");
    }
    assert(out@ =~= mid + batch_note(*e, events@));
    push_str_chars(out, "</td>");
    push_str_chars(out, "</tr>");
    assert(out@ =~= before + event_row_end(*e, events@));
}

fn push_event_header(
    out: &mut Vec<char>,
    category: &str,
    verb: &str,
    filters: &FilterParams,
    query: &ViewerQuery,
    col: &str,
    label: &str,
)
    ensures
        final(out)@ == old(out)@ + event_header(category@, verb@, *filters, *query, col@, label@),
{
    let ghost before = out@;
    push_str_chars(out, "<th><a href=\"");
    let href = build_event_sort_href(category, verb, filters, col, query);
    push_str_chars(out, href.as_str());
    push_str_chars(out, "\">");
    push_str_chars(out, label);
    push_str_chars(out, "</a></th>");
    assert(out@ =~= before + event_header(category@, verb@, *filters, *query, col@, label@));
}

fn push_event_headers(out: &mut Vec<char>, category: &str, verb: &str, filters: &FilterParams, query: &ViewerQuery)
    ensures
        final(out)@ == old(out)@ + event_headers(category@, verb@, *filters, *query),
{
    let ghost before = out@;
    push_event_header(out, category, verb, filters, query, "recorded_at", "Recorded at");
    push_event_header(out, category, verb, filters, query, "player", "Player");
    push_event_header(out, category, verb, filters, query, "hp_delta", "HP delta");
    push_event_header(out, category, verb, filters, query, "source_name", "Source");
    push_event_header(out, category, verb, filters, query, "weight", "Weight");
    push_event_header(out, category, verb, filters, query, "candidate_count", "Candidates");
    push_event_header(out, category, verb, filters, query, "message_text", "Message");
    assert(out@ =~= before + event_headers(category@, verb@, *filters, *query));
}

fn opt_str(v: &Option<String>) -> (r: Option<&str>)
    ensures
        str_opt(r) == opt_text(*v),
{
    match v {
        Some(s) => Some(s.as_str()),
        None => None,
    }
}

#[verifier::rlimit(40)]
fn push_drill_top(
    out: &mut Vec<char>,
    category: &str,
    verb: &str,
    filters: &FilterParams,
    players: &[String],
    query: &ViewerQuery,
)
    ensures
        final(out)@ == old(out)@ + drill_top_html(
            category@,
            verb@,
            *filters,
            players@.map_values(|p: String| p@),
            *query,
        ),
{
    let ghost before = out@;
    let back_href = build_query_string("/", filters, opt_str(&query.sort), opt_str(&query.dir));
    push_str_chars(out, "<!DOCTYPE html><html lang=\"en\"><head><meta charset=\"utf-8\">");
    push_str_chars(out, "<title>");
    push_str_chars(out, "Combat damage events");
    push_str_chars(out, "</title><link rel=\"stylesheet\" href=\"/style.css\">");
    push_str_chars(out, "</head><body>");
    push_str_chars(out, "<p class=\"back-link\"><a href=\"");
    push_str_chars(out, back_href.as_str());
    push_str_chars(out, "\">&larr; Back</a></p>");
    push_str_chars(out, "<h1>");
    push_html_escaped(out, category);
    push_str_chars(out, " / ");
    push_html_escaped(out, verb);
    push_str_chars(out, "</h1>");
    let ghost heading = out@;
    assert(heading =~= before + page_head("Combat damage events"@) + "</head><body>"@ + "<p class=\"back-link\"><a href=\""@
        + query_string_spec("/"@, *filters, opt_text(query.sort), opt_text(query.dir)) + "\">&larr; Back</a></p>"@
        + "<h1>"@ + html_escape_spec(category@) + " / "@ + html_escape_spec(verb@) + "</h1>"@);
    let mut action = chars_of("/events/");
    push_str_chars(&mut action, category);
    action.push('/');
    push_str_chars(&mut action, verb);
    let action_s = string_of(action.as_slice());
    let f = render_filters(filters, players, action_s.as_str());
    assert(action_s@ =~= "/events/"@ + category@ + seq!['/'] + verb@);
    push_str_chars(out, f.as_str());
    assert(out@ =~= heading + f@);
    assert(out@ =~= before + drill_top_html(
        category@,
        verb@,
        *filters,
        players@.map_values(|p: String| p@),
        *query,
    ));
}

fn push_drill_body(out: &mut Vec<char>, events: &[EventRow])
    ensures
        final(out)@ == old(out)@ + drill_body_html(events@),
{
    let ghost head = out@;
    if events.len() == 0 {
        push_str_chars(out, "</tbody></table><p class=\"empty-hint\">No events for this verb.</p>");
        return;
    }
    let mut i: usize = 0;
    while i < events.len()
        invariant
            i <= events@.len(),
            out@ == head + event_rows_html(events@.take(i as int), events@),
        decreases events.len() - i,
    {
        assert(events@.take(i + 1).drop_last() =~= events@.take(i as int));
        let ghost mid = out@;
        push_event_row_start(out, &events[i]);
        push_event_row_end(out, &events[i], events);
        assert(out@ =~= mid + event_row_start(events@[i as int]) + event_row_end(events@[i as int], events@));
        i = i + 1;
    }
    assert(events@.take(events@.len() as int) =~= events@);
    push_str_chars(out, "</tbody></table>");
    assert(out@ =~= head + drill_body_html(events@));
}

/// The drill-down page of one verb.
pub fn render_drill_down(
    category: &str,
    verb: &str,
    filters: &FilterParams,
    players: &[String],
    events: &[EventRow],
    query: &ViewerQuery,
) -> (r: String)
    ensures
        r@ == drill_down_html(
            category@,
            verb@,
            *filters,
            players@.map_values(|p: String| p@),
            events@,
            *query,
        ),
{
    let mut out: Vec<char> = Vec::new();
    push_drill_top(&mut out, category, verb, filters, players, query);
    push_str_chars(&mut out, "<table><thead><tr>");
    push_event_headers(&mut out, category, verb, filters, query);
    push_str_chars(&mut out, "</tr></thead><tbody>");
    push_drill_body(&mut out, events);
    push_str_chars(&mut out, render_sort_script());
    push_str_chars(&mut out, "</body></html>");
    assert(out@ =~= drill_down_html(
        category@,
        verb@,
        *filters,
        players@.map_values(|p: String| p@),
        events@,
        *query,
    ));
    string_of(out.as_slice())
}

} // verus!
