//! Player configuration: the settings table and guild list, the older
//! hand-written format they are migrated from, and safe file names.
use crate::ansi::segment::strings_view;
use crate::ansi::sgr::split_on;
use crate::keyed::{lemma_map_of_insert_at, lemma_map_of_take_step, lemma_map_of_update_at, map_of};
use crate::combat_damage::catalog::{
    first_index_exec, first_index_from, last_index_exec, last_index_of, lines_of, lines_view,
    split_lines,
};
use crate::text::{
    chars_eq, chars_of, is_prefix, is_suffix, lemma_seq_less_irrefl, lemma_seq_less_total,
    lemma_seq_less_trans, seq_less, seq_less_exec, string_of, sub_chars, trim_chars, trim_seq,
};
use vstd::prelude::*;

verus! {

/// Characters kept in a file name.
pub open spec fn name_char_ok(c: char) -> bool {
    ('a' <= c && c <= 'z') || ('A' <= c && c <= 'Z') || ('0' <= c && c <= '9') || c == '_' || c == '-'
}

/// `s` without leading and trailing underscores.
pub open spec fn trim_underscores(s: Seq<char>) -> Seq<char>
    decreases s.len(),
{
    if s.len() > 0 && s[0] == '_' {
        trim_underscores(s.drop_first())
    } else if s.len() > 0 && s.last() == '_' {
        trim_underscores(s.drop_last())
    } else {
        s
    }
}

/// A player's name as a file name: other characters become underscores, outer
/// underscores go, and an empty result is `player`.
pub open spec fn sanitize_spec(name: Seq<char>) -> Seq<char> {
    let mapped = name.map_values(|c: char| if name_char_ok(c) { c } else { '_' });
    let t = trim_underscores(mapped);
    if t.len() == 0 {
        "player"@
    } else {
        t
    }
}

fn trim_underscores_exec(s: &[char]) -> (r: Vec<char>)
    ensures
        r@ == trim_underscores(s@),
{
    let mut a: usize = 0;
    let mut b: usize = s.len();
    assert(s@.subrange(0, s@.len() as int) =~= s@);
    while a < b && s[a] == '_'
        invariant
            a <= b <= s@.len(),
            trim_underscores(s@) == trim_underscores(s@.subrange(a as int, b as int)),
            b == s@.len(),
        decreases b - a,
    {
        assert(s@.subrange(a as int, b as int).drop_first() =~= s@.subrange(a + 1, b as int));
        a = a + 1;
    }
    while a < b && s[b - 1] == '_'
        invariant
            a <= b <= s@.len(),
            trim_underscores(s@) == trim_underscores(s@.subrange(a as int, b as int)),
            a < b ==> s@[a as int] != '_',
        decreases b - a,
    {
        assert(s@.subrange(a as int, b as int).drop_last() =~= s@.subrange(a as int, b - 1));
        assert(s@.subrange(a as int, b as int)[0] == s@[a as int]);
        b = b - 1;
    }
    proof {
        if a < b {
            assert(s@.subrange(a as int, b as int)[0] == s@[a as int]);
            assert(s@.subrange(a as int, b as int).last() == s@[b - 1]);
        }
    }
    sub_chars(s, a, b)
}

/// A player's name as a file name.
pub fn sanitize_name(name: &str) -> (r: String)
    ensures
        r@ == sanitize_spec(name@),
{
    let chars = chars_of(name);
    let mut mapped: Vec<char> = Vec::new();
    let mut i: usize = 0;
    while i < chars.len()
        invariant
            i <= chars@.len(),
            chars@ == name@,
            mapped@ == name@.take(i as int).map_values(|c: char| if name_char_ok(c) { c } else { '_' }),
        decreases chars.len() - i,
    {
        let c = chars[i];
        let ok = ('a' <= c && c <= 'z') || ('A' <= c && c <= 'Z') || ('0' <= c && c <= '9') || c
            == '_' || c == '-';
        mapped.push(if ok { c } else { '_' });
        assert(mapped@ =~= name@.take(i + 1).map_values(|c: char| if name_char_ok(c) { c } else { '_' }));
        i = i + 1;
    }
    assert(name@.take(name@.len() as int) =~= name@);
    let t = trim_underscores_exec(mapped.as_slice());
    if t.len() == 0 {
        "player".to_string()
    } else {
        string_of(t.as_slice())
    }
}

pub open spec fn is_quote(c: char) -> bool {
    c == '"' || c == '\''
}

/// `s` without leading and trailing quote characters (`"` and `'`).
pub open spec fn trim_quotes(s: Seq<char>) -> Seq<char>
    decreases s.len(),
{
    if s.len() > 0 && is_quote(s[0]) {
        trim_quotes(s.drop_first())
    } else if s.len() > 0 && is_quote(s.last()) {
        trim_quotes(s.drop_last())
    } else {
        s
    }
}

/// The pieces that are not empty.
pub open spec fn nonempty_only(p: Seq<Seq<char>>) -> Seq<Seq<char>>
    decreases p.len(),
{
    if p.len() == 0 {
        seq![]
    } else if p.last().len() == 0 {
        nonempty_only(p.drop_last())
    } else {
        nonempty_only(p.drop_last()).push(p.last())
    }
}

/// The items of a bracketed list `[a, "b", 'c']`: the text between the first `[`
/// and the last `]`, split at commas, each item trimmed of whitespace and then of
/// quotes, empty items left out.
pub open spec fn bracket_items(value: Seq<char>) -> Option<Seq<Seq<char>>> {
    let v = trim_seq(value);
    match (first_index_from(v, '[', 0), last_index_of(v, ']')) {
        (Some(s), Some(e)) => if e <= s {
            None
        } else {
            Some(
                nonempty_only(
                    split_on(v.subrange(s + 1, e), ',').map_values(|p: Seq<char>| item_of(p)),
                ),
            )
        },
        _ => None,
    }
}

fn trim_quotes_exec(s: &[char]) -> (r: Vec<char>)
    ensures
        r@ == trim_quotes(s@),
{
    let mut a: usize = 0;
    let mut b: usize = s.len();
    assert(s@.subrange(0, s@.len() as int) =~= s@);
    while a < b && (s[a] == '"' || s[a] == '\'')
        invariant
            a <= b <= s@.len(),
            trim_quotes(s@) == trim_quotes(s@.subrange(a as int, b as int)),
            b == s@.len(),
        decreases b - a,
    {
        assert(s@.subrange(a as int, b as int).drop_first() =~= s@.subrange(a + 1, b as int));
        a = a + 1;
    }
    while a < b && (s[b - 1] == '"' || s[b - 1] == '\'')
        invariant
            a <= b <= s@.len(),
            trim_quotes(s@) == trim_quotes(s@.subrange(a as int, b as int)),
            a < b ==> !is_quote(s@[a as int]),
        decreases b - a,
    {
        assert(s@.subrange(a as int, b as int).drop_last() =~= s@.subrange(a as int, b - 1));
        assert(s@.subrange(a as int, b as int)[0] == s@[a as int]);
        b = b - 1;
    }
    proof {
        if a < b {
            assert(s@.subrange(a as int, b as int)[0] == s@[a as int]);
            assert(s@.subrange(a as int, b as int).last() == s@[b - 1]);
        }
    }
    sub_chars(s, a, b)
}

proof fn lemma_split_nonempty(s: Seq<char>, sep: char)
    ensures
        split_on(s, sep).len() >= 1,
    decreases s.len(),
{
    if s.len() > 0 {
        lemma_split_nonempty(s.drop_last(), sep);
    }
}

pub open spec fn item_of(p: Seq<char>) -> Seq<char> {
    trim_quotes(trim_seq(p))
}

/// The items of a comma-separated list, each trimmed of whitespace and quotes,
/// the empty ones left out.
fn list_items(inner: &[char]) -> (r: Vec<String>)
    ensures
        strings_view(r@) == nonempty_only(split_on(inner@, ',').map_values(|p: Seq<char>| item_of(p))),
{
    let mut out: Vec<String> = Vec::new();
    let mut cur: Vec<char> = Vec::new();
    let mut k: usize = 0;
    proof {
        assert(inner@.take(0) =~= Seq::<char>::empty());
        assert(strings_view(out@) =~= nonempty_only(
            split_on(inner@.take(0), ',').drop_last().map_values(|p: Seq<char>| item_of(p)),
        ));
    }
    while k < inner.len()
        invariant
            k <= inner@.len(),
            split_on(inner@.take(k as int), ',').len() >= 1,
            strings_view(out@) == nonempty_only(
                split_on(inner@.take(k as int), ',').drop_last().map_values(
                    |p: Seq<char>| item_of(p),
                ),
            ),
            cur@ == split_on(inner@.take(k as int), ',').last(),
        decreases inner.len() - k,
    {
        let c = inner[k];
        let ghost before = inner@.take(k as int);
        let ghost after = inner@.take(k + 1);
        proof {
            assert(after.drop_last() =~= before);
            lemma_split_nonempty(after, ',');
        }
        if c == ',' {
            let ghost p = split_on(before, ',');
            let t = trim_chars(cur.as_slice());
            let item = trim_quotes_exec(t.as_slice());
            let ghost old = strings_view(out@);
            if item.len() > 0 {
                out.push(string_of(item.as_slice()));
                assert(strings_view(out@) =~= old.push(item@));
            }
            proof {
                let m = p.map_values(|q: Seq<char>| item_of(q));
                assert(split_on(after, ',').drop_last() =~= p);
                assert(m.drop_last() =~= p.drop_last().map_values(|q: Seq<char>| item_of(q)));
                assert(m.last() == item_of(cur@));
            }
            cur = Vec::new();
        } else {
            cur.push(c);
            proof {
                let p = split_on(before, ',');
                assert(split_on(after, ',').drop_last() =~= p.drop_last());
            }
        }
        k = k + 1;
    }
    proof {
        assert(inner@.take(inner@.len() as int) =~= inner@);
        lemma_split_nonempty(inner@, ',');
        let p = split_on(inner@, ',');
        let m = p.map_values(|q: Seq<char>| item_of(q));
        assert(m.drop_last() =~= p.drop_last().map_values(|q: Seq<char>| item_of(q)));
    }
    let t = trim_chars(cur.as_slice());
    let item = trim_quotes_exec(t.as_slice());
    let ghost old = strings_view(out@);
    if item.len() > 0 {
        out.push(string_of(item.as_slice()));
        assert(strings_view(out@) =~= old.push(item@));
    }
    out
}

/// The items of a bracketed list, if the value has `[` before its last `]`.
pub fn parse_bracket_string_array(value: &str) -> (r: Option<Vec<String>>)
    ensures
        match bracket_items(value@) {
            Some(items) => r matches Some(v) && strings_view(v@) == items,
            None => r is None,
        },
{
    let v = trim_chars(chars_of(value).as_slice());
    let ghost tv = trim_seq(value@);
    assert(v@ == tv);
    let s = match first_index_exec(v.as_slice(), '[') {
        Some(s) => s,
        None => {
            return None;
        },
    };
    let e = match last_index_exec(v.as_slice(), ']') {
        Some(e) => e,
        None => {
            return None;
        },
    };
    assert(first_index_from(tv, '[', 0) == Some(s as int));
    assert(last_index_of(tv, ']') == Some(e as int));
    if e <= s {
        assert(bracket_items(value@) is None);
        return None;
    }
    let inner = sub_chars(v.as_slice(), s + 1, e);
    let items = list_items(inner.as_slice());
    assert(bracket_items(value@) == Some(
        nonempty_only(split_on(tv.subrange(s + 1, e as int), ',').map_values(|p: Seq<char>| item_of(p))),
    ));
    Some(items)
}

/// Why settings text is refused.
#[derive(Debug, PartialEq, Eq)]
pub enum SettingsError {
    EmptyKey,
    DuplicateKey(String),
    MissingEquals(String),
    InvalidValue(String),
    /// Reading or writing the file failed; the message says how.
    Io(String),
}

/// A refusal as plain values.
pub enum SettingsErrorView {
    EmptyKey,
    DuplicateKey(Seq<char>),
    MissingEquals(Seq<char>),
    InvalidValue(Seq<char>),
}

pub open spec fn error_is(e: SettingsError, v: SettingsErrorView) -> bool {
    match (e, v) {
        (SettingsError::EmptyKey, SettingsErrorView::EmptyKey) => true,
        (SettingsError::DuplicateKey(a), SettingsErrorView::DuplicateKey(b)) => a@ == b,
        (SettingsError::MissingEquals(a), SettingsErrorView::MissingEquals(b)) => a@ == b,
        (SettingsError::InvalidValue(a), SettingsErrorView::InvalidValue(b)) => a@ == b,
        _ => false,
    }
}

/// `s` with each backslash-escaped `q` read as `q`, left to right.
pub open spec fn unescape_quote(s: Seq<char>, q: char) -> Seq<char>
    decreases s.len(),
{
    if s.len() == 0 {
        seq![]
    } else if s.len() >= 2 && s[0] == '\\' && s[1] == q {
        seq![q] + unescape_quote(s.skip(2), q)
    } else {
        seq![s[0]] + unescape_quote(s.drop_first(), q)
    }
}

/// A value of the older format: a double- or single-quoted string, trimmed,
/// with escaped quotes of its kind read; anything else is refused as it stands
/// after trimming.
pub open spec fn scalar_spec(value: Seq<char>) -> Result<Seq<char>, Seq<char>> {
    let v = trim_seq(value);
    if v.len() >= 2 && v[0] == '"' && v.last() == '"' {
        Ok(unescape_quote(v.subrange(1, v.len() - 1), '"'))
    } else if v.len() >= 2 && v[0] == '\'' && v.last() == '\'' {
        Ok(unescape_quote(v.subrange(1, v.len() - 1), '\''))
    } else {
        Err(v)
    }
}

fn unescape_quote_exec(s: &[char], q: char) -> (r: Vec<char>)
    ensures
        r@ == unescape_quote(s@, q),
{
    let mut out: Vec<char> = Vec::new();
    let mut i: usize = 0;
    assert(s@.skip(0) =~= s@);
    while i < s.len()
        invariant
            i <= s@.len(),
            unescape_quote(s@, q) == out@ + unescape_quote(s@.skip(i as int), q),
        decreases s.len() - i,
    {
        let ghost rest = s@.skip(i as int);
        if i + 1 < s.len() && s[i] == '\\' && s[i + 1] == q {
            out.push(q);
            proof {
                assert(rest.skip(2) =~= s@.skip(i + 2));
                assert(out@ + unescape_quote(s@.skip(i + 2), q) =~= out@.drop_last() + (seq![q]
                    + unescape_quote(rest.skip(2), q)));
            }
            i = i + 2;
        } else {
            out.push(s[i]);
            proof {
                assert(rest.drop_first() =~= s@.skip(i + 1));
                assert(out@ + unescape_quote(s@.skip(i + 1), q) =~= out@.drop_last() + (seq![s@[i as int]]
                    + unescape_quote(rest.drop_first(), q)));
            }
            i = i + 1;
        }
    }
    proof {
        assert(s@.skip(i as int) =~= Seq::<char>::empty());
        assert(out@ + Seq::<char>::empty() =~= out@);
    }
    out
}

/// Reads a quoted value of the older format.
pub fn parse_legacy_settings_scalar(value: &str) -> (r: Result<String, SettingsError>)
    ensures
        match scalar_spec(value@) {
            Ok(v) => r matches Ok(s) && s@ == v,
            Err(t) => r matches Err(SettingsError::InvalidValue(s)) && s@ == t,
        },
{
    let v = trim_chars(chars_of(value).as_slice());
    let n = v.len();
    if n >= 2 && v[0] == '"' && v[n - 1] == '"' {
        let inner = sub_chars(v.as_slice(), 1, n - 1);
        let u = unescape_quote_exec(inner.as_slice(), '"');
        return Ok(string_of(u.as_slice()));
    }
    if n >= 2 && v[0] == '\'' && v[n - 1] == '\'' {
        let inner = sub_chars(v.as_slice(), 1, n - 1);
        let u = unescape_quote_exec(inner.as_slice(), '\'');
        return Ok(string_of(u.as_slice()));
    }
    Err(SettingsError::InvalidValue(string_of(v.as_slice())))
}

/// Whether a trimmed line is a table header `[...]`.
pub open spec fn is_header_spec(line: Seq<char>) -> bool {
    line.len() > 0 && line[0] == '[' && line.last() == ']'
}

pub fn is_table_header(line: &str) -> (r: bool)
    ensures
        r == is_header_spec(line@),
{
    let c = chars_of(line);
    c.len() > 0 && c[0] == '[' && c[c.len() - 1] == ']'
}

/// A line without its comment: the text before the first `#`.
pub open spec fn before_hash(line: Seq<char>) -> Seq<char> {
    match first_index_from(line, '#', 0) {
        Some(i) => line.take(i),
        None => line,
    }
}

fn before_hash_exec(line: &[char]) -> (r: Vec<char>)
    ensures
        r@ == before_hash(line@),
{
    match first_index_exec(line, '#') {
        Some(i) => {
            let r = sub_chars(line, 0, i);
            assert(r@ =~= line@.take(i as int));
            r
        },
        None => sub_chars(line, 0, line.len()),
    }
}

/// What a line says of the guild list: nothing, unless its uncommented text
/// starts with `guilds`; then the text after the first `=`, trimmed, or no
/// value when there is no `=`.
pub open spec fn guild_line(line: Seq<char>) -> Option<Option<Seq<char>>> {
    let t = trim_seq(before_hash(line));
    if !is_prefix("guilds"@, t) {
        None
    } else {
        match first_index_from(t, '=', 0) {
            None => Some(None),
            Some(i) => Some(Some(trim_seq(t.skip(i + 1)))),
        }
    }
}

/// The guild list of the first guilds line from line `k` on: its bracketed
/// items, or none when it has no `=` or no brackets.
pub open spec fn guilds_from(lines: Seq<Seq<char>>, k: int) -> Option<Seq<Seq<char>>>
    decreases lines.len() - k,
{
    if k < 0 || k >= lines.len() {
        None
    } else {
        match guild_line(lines[k]) {
            None => guilds_from(lines, k + 1),
            Some(None) => Some(seq![]),
            Some(Some(v)) => Some(
                match bracket_items(v) {
                    Some(x) => x,
                    None => seq![],
                },
            ),
        }
    }
}

fn guild_line_exec(line: &[char]) -> (r: Option<Option<Vec<char>>>)
    ensures
        match guild_line(line@) {
            None => r is None,
            Some(None) => r matches Some(None),
            Some(Some(v)) => r matches Some(Some(x)) && x@ == v,
        },
{
    let t = trim_chars(before_hash_exec(line).as_slice());
    let g = chars_of("guilds");
    if !crate::text::starts_with_chars(t.as_slice(), g.as_slice()) {
        return None;
    }
    match first_index_exec(t.as_slice(), '=') {
        None => Some(None),
        Some(i) => {
            assert(t@.len() == t.len());
            let rest = sub_chars(t.as_slice(), i + 1, t.len());
            assert(rest@ =~= t@.skip(i + 1));
            Some(Some(trim_chars(rest.as_slice())))
        },
    }
}

/// The guild list of the older format: the first `guilds` line decides.
pub fn parse_guilds(config: &str) -> (r: Option<Vec<String>>)
    ensures
        match guilds_from(lines_of(config@), 0) {
            Some(g) => r matches Some(v) && strings_view(v@) == g,
            None => r is None,
        },
{
    let lines = split_lines(chars_of(config).as_slice());
    let ghost lv = lines_view(lines@);
    let mut k: usize = 0;
    while k < lines.len()
        invariant
            k <= lines@.len(),
            lv == lines_view(lines@),
            lv == lines_of(config@),
            guilds_from(lv, 0) == guilds_from(lv, k as int),
        decreases lines.len() - k,
    {
        assert(lines@[k as int]@ == lv[k as int]);
        match guild_line_exec(lines[k].as_slice()) {
            None => {},
            Some(None) => {
                let v: Vec<String> = Vec::new();
                assert(strings_view(v@) =~= Seq::<Seq<char>>::empty());
                return Some(v);
            },
            Some(Some(value)) => {
                let s = string_of(value.as_slice());
                return match parse_bracket_string_array(&s) {
                    Some(items) => Some(items),
                    None => {
                        let v: Vec<String> = Vec::new();
                        assert(strings_view(v@) =~= Seq::<Seq<char>>::empty());
                        Some(v)
                    },
                };
            },
        }
        k = k + 1;
    }
    None
}

/// One setting: its key and value.
#[derive(Debug, Clone, PartialEq, Eq)]
pub struct SettingEntry {
    pub key: String,
    pub value: String,
}

pub open spec fn entries_view(v: Seq<SettingEntry>) -> Seq<(Seq<char>, Seq<char>)> {
    v.map_values(|e: SettingEntry| (e.key@, e.value@))
}

/// The `[settings]` table of the older format, and a guild list found in it.
#[derive(Debug)]
pub struct ParsedSettingsSection {
    pub entries: Vec<SettingEntry>,
    pub guilds_from_settings_table: Option<Vec<String>>,
}

/// Where reading the older format stands.
pub struct SettingsRead {
    pub entries: Seq<(Seq<char>, Seq<char>)>,
    pub guilds: Option<Seq<Seq<char>>>,
    pub seen: Seq<Seq<char>>,
    pub in_settings: bool,
    pub found: bool,
}

/// Reading goes on, or stops with a refusal.
pub enum ReadOutcome {
    Go(SettingsRead),
    Stop(SettingsErrorView),
}

pub open spec fn read_start() -> SettingsRead {
    SettingsRead { entries: seq![], guilds: None, seen: seq![], in_settings: false, found: false }
}

/// What the guild key's value makes the guild list: a bracketed list, or a
/// quoted value that holds one, or a quoted non-empty name alone.
pub open spec fn guild_value(st: SettingsRead, raw: Seq<char>) -> ReadOutcome {
    match bracket_items(raw) {
        Some(l) => ReadOutcome::Go(SettingsRead { guilds: Some(l), ..st }),
        None => match scalar_spec(raw) {
            Ok(s) => match bracket_items(s) {
                Some(l) => ReadOutcome::Go(SettingsRead { guilds: Some(l), ..st }),
                None => if s.len() > 0 {
                    ReadOutcome::Go(SettingsRead { guilds: Some(seq![s]), ..st })
                } else {
                    ReadOutcome::Go(st)
                },
            },
            Err(_) => ReadOutcome::Stop(SettingsErrorView::InvalidValue(raw)),
        },
    }
}

/// One line of the older format. Comments and blank lines are skipped; a
/// table header enters or leaves the settings table; inside it every line is
/// `key = value` with a new, non-empty key and a quoted value.
pub open spec fn settings_line(st: SettingsRead, line: Seq<char>) -> ReadOutcome {
    let t = trim_seq(before_hash(line));
    if t.len() == 0 {
        ReadOutcome::Go(st)
    } else if is_header_spec(t) {
        let ins = t == "[settings]"@;
        ReadOutcome::Go(SettingsRead { in_settings: ins, found: st.found || ins, ..st })
    } else if !st.in_settings {
        ReadOutcome::Go(st)
    } else {
        match first_index_from(t, '=', 0) {
            None => ReadOutcome::Stop(SettingsErrorView::MissingEquals(t)),
            Some(i) => {
                let key = trim_seq(t.take(i));
                let value = t.skip(i + 1);
                if key.len() == 0 {
                    ReadOutcome::Stop(SettingsErrorView::EmptyKey)
                } else if st.seen.contains(key) {
                    ReadOutcome::Stop(SettingsErrorView::DuplicateKey(key))
                } else {
                    let st1 = SettingsRead { seen: st.seen.push(key), ..st };
                    if key == "guilds"@ {
                        guild_value(st1, trim_seq(value))
                    } else {
                        match scalar_spec(trim_seq(value)) {
                            Ok(v) => ReadOutcome::Go(
                                SettingsRead { entries: st1.entries.push((key, v)), ..st1 },
                            ),
                            Err(bad) => ReadOutcome::Stop(SettingsErrorView::InvalidValue(bad)),
                        }
                    }
                }
            },
        }
    }
}

/// The settings table read from line `k` on: its entries and guild list when the
/// text has a `[settings]` header, nothing when it has none, or the first refusal.
pub open spec fn settings_from(lines: Seq<Seq<char>>, k: int, st: SettingsRead) -> Result<
    Option<(Seq<(Seq<char>, Seq<char>)>, Option<Seq<Seq<char>>>)>,
    SettingsErrorView,
>
    decreases lines.len() - k,
{
    if k < 0 || k >= lines.len() {
        if st.found {
            Ok(Some((st.entries, st.guilds)))
        } else {
            Ok(None)
        }
    } else {
        match settings_line(st, lines[k]) {
            ReadOutcome::Go(next) => settings_from(lines, k + 1, next),
            ReadOutcome::Stop(e) => Err(e),
        }
    }
}

/// The settings read so far.
struct SettingsAcc {
    entries: Vec<SettingEntry>,
    guilds: Option<Vec<String>>,
    seen: Vec<String>,
    in_settings: bool,
    found: bool,
}

pub open spec fn guilds_view(g: Option<Vec<String>>) -> Option<Seq<Seq<char>>> {
    match g {
        Some(v) => Some(strings_view(v@)),
        None => None,
    }
}

spec fn acc_view(a: SettingsAcc) -> SettingsRead {
    SettingsRead {
        entries: entries_view(a.entries@),
        guilds: guilds_view(a.guilds),
        seen: strings_view(a.seen@),
        in_settings: a.in_settings,
        found: a.found,
    }
}

fn seen_contains(seen: &Vec<String>, key: &[char]) -> (r: bool)
    ensures
        r == strings_view(seen@).contains(key@),
{
    let mut i: usize = 0;
    while i < seen.len()
        invariant
            i <= seen@.len(),
            forall|j: int| 0 <= j < i ==> strings_view(seen@)[j] != key@,
        decreases seen.len() - i,
    {
        let sk = chars_of(&seen[i]);
        if chars_eq(sk.as_slice(), key) {
            assert(strings_view(seen@)[i as int] == key@);
            return true;
        }
        i = i + 1;
    }
    false
}

fn guild_value_exec(acc: &mut SettingsAcc, raw: &[char]) -> (r: Result<(), SettingsError>)
    ensures
        match guild_value(acc_view(*old(acc)), raw@) {
            ReadOutcome::Go(next) => r is Ok && acc_view(*final(acc)) == next,
            ReadOutcome::Stop(e) => r matches Err(x) && error_is(x, e),
        },
{
    let raw_s = string_of(raw);
    if let Some(l) = parse_bracket_string_array(&raw_s) {
        acc.guilds = Some(l);
        return Ok(());
    }
    match parse_legacy_settings_scalar(&raw_s) {
        Ok(s) => {
            if let Some(l) = parse_bracket_string_array(&s) {
                acc.guilds = Some(l);
            } else if chars_of(&s).len() > 0 {
                let mut v: Vec<String> = Vec::new();
                let ghost sv = s@;
                v.push(s);
                assert(strings_view(v@) =~= seq![sv]);
                acc.guilds = Some(v);
            }
            Ok(())
        },
        Err(_) => Err(SettingsError::InvalidValue(raw_s)),
    }
}

#[verifier::rlimit(40)]
fn settings_line_exec(acc: &mut SettingsAcc, line: &[char]) -> (r: Result<(), SettingsError>)
    ensures
        match settings_line(acc_view(*old(acc)), line@) {
            ReadOutcome::Go(next) => r is Ok && acc_view(*final(acc)) == next,
            ReadOutcome::Stop(e) => r matches Err(x) && error_is(x, e),
        },
{
    let t = trim_chars(before_hash_exec(line).as_slice());
    if t.len() == 0 {
        return Ok(());
    }
    if t[0] == '[' && t[t.len() - 1] == ']' {
        let header = chars_of("[settings]");
        let ins = chars_eq(t.as_slice(), header.as_slice());
        acc.in_settings = ins;
        if ins {
            acc.found = true;
        }
        return Ok(());
    }
    if !acc.in_settings {
        return Ok(());
    }
    let i = match first_index_exec(t.as_slice(), '=') {
        Some(i) => i,
        None => {
            return Err(SettingsError::MissingEquals(string_of(t.as_slice())));
        },
    };
    assert(t@.len() == t.len());
    let key_raw = sub_chars(t.as_slice(), 0, i);
    assert(key_raw@ =~= t@.take(i as int));
    let key = trim_chars(key_raw.as_slice());
    let value = sub_chars(t.as_slice(), i + 1, t.len());
    assert(value@ =~= t@.skip(i + 1));
    if key.len() == 0 {
        return Err(SettingsError::EmptyKey);
    }
    if seen_contains(&acc.seen, key.as_slice()) {
        return Err(SettingsError::DuplicateKey(string_of(key.as_slice())));
    }
    let ghost old_seen = strings_view(acc.seen@);
    acc.seen.push(string_of(key.as_slice()));
    assert(strings_view(acc.seen@) =~= old_seen.push(key@));
    let gk = chars_of("guilds");
    let vt = trim_chars(value.as_slice());
    if chars_eq(key.as_slice(), gk.as_slice()) {
        return guild_value_exec(acc, vt.as_slice());
    }
    let vs = string_of(vt.as_slice());
    match parse_legacy_settings_scalar(&vs) {
        Ok(v) => {
            let ghost old_entries = entries_view(acc.entries@);
            let e = SettingEntry { key: string_of(key.as_slice()), value: v };
            let ghost ev = (e.key@, e.value@);
            acc.entries.push(e);
            assert(entries_view(acc.entries@) =~= old_entries.push(ev));
            Ok(())
        },
        Err(e) => Err(e),
    }
}

/// Reads the `[settings]` table of the older format.
pub fn parse_settings(config: &str) -> (r: Result<Option<ParsedSettingsSection>, SettingsError>)
    ensures
        match settings_from(lines_of(config@), 0, read_start()) {
            Ok(Some((es, g))) => r matches Ok(Some(p)) && entries_view(p.entries@) == es
                && guilds_view(p.guilds_from_settings_table) == g,
            Ok(None) => r matches Ok(None),
            Err(e) => r matches Err(x) && error_is(x, e),
        },
{
    let lines = split_lines(chars_of(config).as_slice());
    let ghost lv = lines_view(lines@);
    let mut acc = SettingsAcc {
        entries: Vec::new(),
        guilds: None,
        seen: Vec::new(),
        in_settings: false,
        found: false,
    };
    assert(entries_view(acc.entries@) =~= Seq::<(Seq<char>, Seq<char>)>::empty());
    assert(strings_view(acc.seen@) =~= Seq::<Seq<char>>::empty());
    let mut k: usize = 0;
    while k < lines.len()
        invariant
            k <= lines@.len(),
            lv == lines_view(lines@),
            lv == lines_of(config@),
            settings_from(lv, 0, read_start()) == settings_from(lv, k as int, acc_view(acc)),
        decreases lines.len() - k,
    {
        assert(lines@[k as int]@ == lv[k as int]);
        match settings_line_exec(&mut acc, lines[k].as_slice()) {
            Ok(()) => {},
            Err(e) => {
                return Err(e);
            },
        }
        k = k + 1;
    }
    if acc.found {
        Ok(Some(ParsedSettingsSection { entries: acc.entries, guilds_from_settings_table: acc.guilds }))
    } else {
        Ok(None)
    }
}


/// Key and value pairs as sequences.
pub open spec fn pairs_view(v: Seq<(String, String)>) -> Seq<(Seq<char>, Seq<char>)> {
    v.map_values(|p: (String, String)| (p.0@, p.1@))
}

/// Keys in strictly increasing order.
pub open spec fn keys_sorted(s: Seq<(Seq<char>, Seq<char>)>) -> bool {
    forall|i: int, j: int| #![trigger s[i], s[j]] 0 <= i < j < s.len() ==> seq_less(s[i].0, s[j].0)
}

/// Whether a stored key comes before `k`.
fn key_before(a: &String, k: &[char]) -> (r: bool)
    ensures
        r == seq_less(a@, k@),
{
    let ac = chars_of(a);
    seq_less_exec(ac.as_slice(), k)
}

/// Puts `key` with `value` into a list kept sorted by key, replacing the value
/// where the key is there already.
fn sorted_upsert(s: &mut Vec<(String, String)>, key: String, value: String)
    requires
        keys_sorted(pairs_view(old(s)@)),
    ensures
        keys_sorted(pairs_view(final(s)@)),
        map_of(pairs_view(final(s)@)) == map_of(pairs_view(old(s)@)).insert(key@, value@),
{
    let ghost ov = pairs_view(s@);
    let kc = chars_of(&key);
    let mut p: usize = 0;
    while p < s.len() && key_before(&s[p].0, kc.as_slice())
        invariant
            p <= s@.len(),
            ov == pairs_view(s@),
            kc@ == key@,
            keys_sorted(ov),
            forall|j: int| 0 <= j < p ==> seq_less(#[trigger] ov[j].0, key@),
        decreases s.len() - p,
    {
        p = p + 1;
    }
    let ghost x = (key@, value@);
    if p < s.len() && chars_eq(chars_of(&s[p].0).as_slice(), kc.as_slice()) {
        proof {
            assert forall|j: int| p < j < ov.len() implies #[trigger] ov[j].0 != ov[p as int].0 by {
                assert(seq_less(ov[p as int].0, ov[j].0));
                lemma_seq_less_irrefl(ov[j].0);
            }
            lemma_map_of_update_at(ov, p as int, value@);
        }
        s.remove(p);
        s.insert(p, (key, value));
        proof {
            let nv = pairs_view(s@);
            assert(nv =~= ov.update(p as int, x));
            assert forall|i: int, j: int| #![trigger nv[i], nv[j]] 0 <= i < j < nv.len() implies seq_less(
                nv[i].0,
                nv[j].0,
            ) by {
                assert(seq_less(ov[i].0, ov[j].0));
            }
        }
    } else {
        proof {
            if p < ov.len() {
                lemma_seq_less_total(ov[p as int].0, key@);
            }
            assert forall|j: int| p <= j < ov.len() implies #[trigger] ov[j].0 != x.0 by {
                if j > p {
                    assert(seq_less(ov[p as int].0, ov[j].0));
                    lemma_seq_less_trans(key@, ov[p as int].0, ov[j].0);
                    lemma_seq_less_irrefl(key@);
                }
                lemma_seq_less_irrefl(key@);
            }
            lemma_map_of_insert_at(ov, p as int, x);
        }
        s.insert(p, (key, value));
        proof {
            let nv = pairs_view(s@);
            assert(nv =~= ov.insert(p as int, x));
            assert forall|i: int, j: int| #![trigger nv[i], nv[j]] 0 <= i < j < nv.len() implies seq_less(
                nv[i].0,
                nv[j].0,
            ) by {
                if j < p {
                    assert(seq_less(ov[i].0, ov[j].0));
                } else if j == p {
                    assert(seq_less(ov[i].0, key@));
                } else if i < p {
                    assert(seq_less(ov[i].0, key@));
                    assert(seq_less(key@, ov[p as int].0));
                    lemma_seq_less_trans(ov[i].0, key@, ov[p as int].0);
                    if j - 1 > p {
                        assert(seq_less(ov[p as int].0, ov[j - 1].0));
                        lemma_seq_less_trans(ov[i].0, ov[p as int].0, ov[j - 1].0);
                    }
                } else if i == p {
                    assert(seq_less(key@, ov[p as int].0));
                    if j - 1 > p {
                        assert(seq_less(ov[p as int].0, ov[j - 1].0));
                        lemma_seq_less_trans(key@, ov[p as int].0, ov[j - 1].0);
                    }
                } else {
                    assert(seq_less(ov[i - 1].0, ov[j - 1].0));
                }
            }
        }
    }
}


/// The settings table: the rig, and the other settings by key.
#[derive(Debug, Clone, Default)]
pub struct SettingsTable {
    pub rig: String,
    pub extra: Vec<(String, String)>,
}

impl SettingsTable {
    /// A table with this rig and the other settings in key order; where a key
    /// comes twice, the later value wins.
    pub fn from_pairs(rig: String, pairs: Vec<(String, String)>) -> (t: Self)
        ensures
            t.rig == rig,
            keys_sorted(pairs_view(t.extra@)),
            map_of(pairs_view(t.extra@)) == map_of(pairs_view(pairs@)),
    {
        let mut extra: Vec<(String, String)> = Vec::new();
        let mut i: usize = 0;
        while i < pairs.len()
            invariant
                i <= pairs@.len(),
                keys_sorted(pairs_view(extra@)),
                map_of(pairs_view(extra@)) == map_of(pairs_view(pairs@).take(i as int)),
            decreases pairs.len() - i,
        {
            let k = pairs[i].0.clone();
            let v = pairs[i].1.clone();
            proof {
                lemma_map_of_take_step(pairs_view(pairs@), i as int);
            }
            sorted_upsert(&mut extra, k, v);
            i = i + 1;
        }
        assert(pairs_view(pairs@).take(pairs@.len() as int) =~= pairs_view(pairs@));
        SettingsTable { rig, extra }
    }
}

/// A player's configuration: the guild list, when one was saved, and the settings.
#[derive(Debug, Clone, Default)]
pub struct PlayerToml {
    pub guilds: Option<Vec<String>>,
    pub settings: SettingsTable,
}

/// The settings as an ordered list, as the settings dialog shows them.
#[derive(Debug, Clone, Default)]
pub struct UserSettings {
    pub entries: Vec<SettingEntry>,
}

/// The last value given for `rig`, if any.
pub open spec fn last_rig(es: Seq<(Seq<char>, Seq<char>)>) -> Option<Seq<char>>
    decreases es.len(),
{
    if es.len() == 0 {
        None
    } else if es.last().0 == "rig"@ {
        Some(es.last().1)
    } else {
        last_rig(es.drop_last())
    }
}

/// The pairs whose key is not `rig`, in order.
pub open spec fn without_rig(es: Seq<(Seq<char>, Seq<char>)>) -> Seq<(Seq<char>, Seq<char>)>
    decreases es.len(),
{
    if es.len() == 0 {
        seq![]
    } else if es.last().0 == "rig"@ {
        without_rig(es.drop_last())
    } else {
        without_rig(es.drop_last()).push(es.last())
    }
}

/// The rig that a list of settings sets: its last value, else empty.
pub open spec fn rig_of(es: Seq<(Seq<char>, Seq<char>)>) -> Seq<char> {
    match last_rig(es) {
        Some(v) => v,
        None => seq![],
    }
}

/// The first setting with key `k`.
pub open spec fn first_key(es: Seq<(Seq<char>, Seq<char>)>, k: Seq<char>) -> Option<int>
    decreases es.len(),
{
    if es.len() == 0 {
        None
    } else if es[0].0 == k {
        Some(0)
    } else {
        match first_key(es.drop_first(), k) {
            Some(i) => Some(i + 1),
            None => None,
        }
    }
}

impl UserSettings {
    /// The value of the first setting with this key.
    pub fn get(&self, key: &str) -> (r: Option<&str>)
        ensures
            match first_key(entries_view(self.entries@), key@) {
                Some(i) => r matches Some(v) && v@ == entries_view(self.entries@)[i].1,
                None => r is None,
            },
    {
        let ghost ev = entries_view(self.entries@);
        let kc = chars_of(key);
        let mut i: usize = 0;
        assert(ev.skip(0) =~= ev);
        while i < self.entries.len()
            invariant
                i <= ev.len(),
                ev == entries_view(self.entries@),
                kc@ == key@,
                first_key(ev, key@) == match first_key(ev.skip(i as int), key@) {
                    Some(j) => Some(j + i),
                    None => None,
                },
            decreases self.entries.len() - i,
        {
            assert(ev.skip(i as int).drop_first() =~= ev.skip(i + 1));
            if chars_eq(chars_of(&self.entries[i].key).as_slice(), kc.as_slice()) {
                return Some(self.entries[i].value.as_str());
            }
            i = i + 1;
        }
        None
    }
}

/// The settings table that a list of settings gives.
pub fn settings_table_from_entries(entries: &[SettingEntry]) -> (t: SettingsTable)
    ensures
        t.rig@ == rig_of(entries_view(entries@)),
        keys_sorted(pairs_view(t.extra@)),
        map_of(pairs_view(t.extra@)) == map_of(without_rig(entries_view(entries@))),
{
    let ghost ev = entries_view(entries@);
    let mut rig = String::new();
    let mut extra: Vec<(String, String)> = Vec::new();
    let rk = chars_of("rig");
    let mut n: usize = 0;
    while n < entries.len()
        invariant
            n <= ev.len(),
            ev == entries_view(entries@),
            rk@ == "rig"@,
            rig@ == rig_of(ev.take(n as int)),
            keys_sorted(pairs_view(extra@)),
            map_of(pairs_view(extra@)) == map_of(without_rig(ev.take(n as int))),
        decreases entries.len() - n,
    {
        assert(ev.take(n + 1).drop_last() =~= ev.take(n as int));
        let e = &entries[n];
        if chars_eq(chars_of(&e.key).as_slice(), rk.as_slice()) {
            rig = e.value.clone();
        } else {
            let ghost before = without_rig(ev.take(n as int));
            sorted_upsert(&mut extra, e.key.clone(), e.value.clone());
            assert(without_rig(ev.take(n + 1)).drop_last() =~= before);
        }
        n = n + 1;
    }
    assert(ev.take(ev.len() as int) =~= ev);
    SettingsTable { rig, extra }
}

/// Puts the known settings first, each once (the last value given, else its
/// default), then the others in order; says whether a known one was missing.
pub fn normalize_settings_entries(entries: Vec<SettingEntry>) -> (r: (Vec<SettingEntry>, bool))
    ensures
        entries_view(r.0@) == seq![("rig"@, rig_of(entries_view(entries@)))] + without_rig(
            entries_view(entries@),
        ),
        r.1 == (last_rig(entries_view(entries@)) is None),
{
    let ghost ev = entries_view(entries@);
    let rk = chars_of("rig");
    let mut known: Option<String> = None;
    let mut extras: Vec<SettingEntry> = Vec::new();
    let mut n: usize = 0;
    while n < entries.len()
        invariant
            n <= ev.len(),
            ev == entries_view(entries@),
            rk@ == "rig"@,
            match known {
                Some(v) => last_rig(ev.take(n as int)) == Some(v@),
                None => last_rig(ev.take(n as int)) is None,
            },
            entries_view(extras@) == without_rig(ev.take(n as int)),
        decreases entries.len() - n,
    {
        assert(ev.take(n + 1).drop_last() =~= ev.take(n as int));
        let e = &entries[n];
        if chars_eq(chars_of(&e.key).as_slice(), rk.as_slice()) {
            known = Some(e.value.clone());
        } else {
            let ghost before = entries_view(extras@);
            extras.push(SettingEntry { key: e.key.clone(), value: e.value.clone() });
            assert(entries_view(extras@) =~= before.push(ev[n as int]));
        }
        n = n + 1;
    }
    assert(ev.take(ev.len() as int) =~= ev);
    let changed = known.is_none();
    let value = match known {
        Some(v) => v,
        None => String::new(),
    };
    let mut normalized: Vec<SettingEntry> = Vec::new();
    normalized.push(SettingEntry { key: "rig".to_string(), value });
    let ghost head = entries_view(normalized@);
    let ghost tail = entries_view(extras@);
    normalized.append(&mut extras);
    assert(entries_view(normalized@) =~= head + tail);
    (normalized, changed)
}

/// The settings as a list: the rig first, then the others in key order.
pub fn player_to_user_settings(player: &PlayerToml) -> (u: UserSettings)
    ensures
        u.entries@.len() >= 1,
        entries_view(u.entries@)[0] == ("rig"@, player.settings.rig@),
        keys_sorted(entries_view(u.entries@).skip(1)),
        map_of(entries_view(u.entries@).skip(1)) == map_of(pairs_view(player.settings.extra@)),
{
    let extra = &player.settings.extra;
    let ghost xv = pairs_view(extra@);
    let mut sorted: Vec<(String, String)> = Vec::new();
    let mut n: usize = 0;
    while n < extra.len()
        invariant
            n <= xv.len(),
            xv == pairs_view(extra@),
            keys_sorted(pairs_view(sorted@)),
            map_of(pairs_view(sorted@)) == map_of(xv.take(n as int)),
        decreases extra.len() - n,
    {
        proof {
            lemma_map_of_take_step(xv, n as int);
        }
        sorted_upsert(&mut sorted, extra[n].0.clone(), extra[n].1.clone());
        n = n + 1;
    }
    assert(xv.take(xv.len() as int) =~= xv);
    let mut entries: Vec<SettingEntry> = Vec::new();
    entries.push(SettingEntry { key: "rig".to_string(), value: player.settings.rig.clone() });
    let ghost sv = pairs_view(sorted@);
    let mut i: usize = 0;
    while i < sorted.len()
        invariant
            i <= sv.len(),
            sv == pairs_view(sorted@),
            entries@.len() == i + 1,
            entries_view(entries@)[0] == ("rig"@, player.settings.rig@),
            entries_view(entries@).skip(1) == sv.take(i as int),
        decreases sorted.len() - i,
    {
        let ghost before = entries_view(entries@);
        entries.push(SettingEntry { key: sorted[i].0.clone(), value: sorted[i].1.clone() });
        assert(entries_view(entries@) =~= before.push(sv[i as int]));
        assert(entries_view(entries@).skip(1) =~= sv.take(i + 1));
        i = i + 1;
    }
    assert(sv.take(sv.len() as int) =~= sv);
    UserSettings { entries }
}


/// A list that begins with a `rig` setting has a last `rig` value.
proof fn lemma_last_rig_when_first(es: Seq<(Seq<char>, Seq<char>)>)
    requires
        es.len() >= 1,
        es[0].0 == "rig"@,
    ensures
        last_rig(es) is Some,
    decreases es.len(),
{
    if es.len() > 1 && es.last().0 != "rig"@ {
        lemma_last_rig_when_first(es.drop_last());
    }
}

/// Normalizing the settings of a saved configuration never adds anything, since
/// the rig always comes first; says whether it changed them, which it does not.
pub fn normalize_player_config(player: &mut PlayerToml) -> (changed: bool)
    ensures
        !changed,
        *final(player) == *old(player),
{
    let entries = player_to_user_settings(player).entries;
    proof {
        lemma_last_rig_when_first(entries_view(entries@));
    }
    let (normalized, changed) = normalize_settings_entries(entries);
    if changed {
        player.settings = settings_table_from_entries(normalized.as_slice());
    }
    changed
}

/// No pair that `without_rig` keeps has the key `rig`.
proof fn lemma_without_rig_clean(es: Seq<(Seq<char>, Seq<char>)>)
    ensures
        forall|i: int| 0 <= i < without_rig(es).len() ==> #[trigger] without_rig(es)[i].0 != "rig"@,
    decreases es.len(),
{
    if es.len() > 0 {
        lemma_without_rig_clean(es.drop_last());
        let w = without_rig(es);
        let d = without_rig(es.drop_last());
        assert forall|i: int| 0 <= i < w.len() implies #[trigger] w[i].0 != "rig"@ by {
            if i < d.len() {
                assert(w[i] == d[i]);
            }
        }
    }
}

/// A `rig` setting followed by settings without one: its value is the rig and
/// the rest are the other settings.
proof fn lemma_rig_then_others(v: Seq<char>, w: Seq<(Seq<char>, Seq<char>)>)
    requires
        forall|i: int| 0 <= i < w.len() ==> #[trigger] w[i].0 != "rig"@,
    ensures
        last_rig(seq![("rig"@, v)] + w) == Some(v),
        without_rig(seq![("rig"@, v)] + w) == w,
    decreases w.len(),
{
    let h = seq![("rig"@, v)];
    if w.len() == 0 {
        assert(h + w =~= h);
        assert(h.drop_last() =~= Seq::<(Seq<char>, Seq<char>)>::empty());
        assert(w =~= Seq::<(Seq<char>, Seq<char>)>::empty());
        assert(h.last().0 == "rig"@);
        assert(without_rig(h.drop_last()) =~= Seq::<(Seq<char>, Seq<char>)>::empty());
        assert(without_rig(h) == without_rig(h.drop_last()));
    } else {
        assert((h + w).drop_last() =~= h + w.drop_last());
        assert((h + w).last() == w.last());
        assert(w[w.len() - 1].0 != "rig"@);
        lemma_rig_then_others(v, w.drop_last());
        assert(w.drop_last().push(w.last()) =~= w);
        assert(without_rig(h + w) == without_rig(h + w.drop_last()).push(w.last()));
    }
}

/// The guild list that migration keeps: a list at the top of the file when the
/// settings table held one too and the top one is not empty, else the settings
/// table's; with none in the settings table, the top one.
pub open spec fn migrated_guilds(
    in_settings: Option<Seq<Seq<char>>>,
    top: Option<Seq<Seq<char>>>,
) -> Option<Seq<Seq<char>>> {
    match in_settings {
        Some(m) => {
            let t = match top {
                Some(t) => t,
                None => seq![],
            };
            Some(if t.len() > 0 { t } else { m })
        },
        None => top,
    }
}

/// Turns a configuration in the older format into the current one.
pub fn migrate_legacy_config(raw: &str) -> (r: Result<PlayerToml, SettingsError>)
    ensures
        match settings_from(lines_of(raw@), 0, read_start()) {
            Err(e) => r matches Err(x) && error_is(x, e),
            Ok(sec) => r matches Ok(p) && {
                let es = match sec {
                    Some((es, _)) => es,
                    None => seq![],
                };
                let g = match sec {
                    Some((_, g)) => g,
                    None => None,
                };
                &&& guilds_view(p.guilds) == migrated_guilds(g, guilds_from(lines_of(raw@), 0))
                &&& p.settings.rig@ == rig_of(es)
                &&& keys_sorted(pairs_view(p.settings.extra@))
                &&& map_of(pairs_view(p.settings.extra@)) == map_of(without_rig(es))
            },
        },
{
    let parsed = match parse_settings(raw) {
        Ok(p) => p,
        Err(e) => {
            return Err(e);
        },
    };
    let (migrated, entry_vec) = match parsed {
        Some(section) => (section.guilds_from_settings_table, section.entries),
        None => (None, Vec::new()),
    };
    assert(entries_view(entry_vec@) =~= match settings_from(lines_of(raw@), 0, read_start()) {
        Ok(Some((es, _))) => es,
        _ => seq![],
    });
    let guilds = match migrated {
        Some(m) => {
            let top = match parse_guilds(raw) {
                Some(t) => t,
                None => {
                    let v: Vec<String> = Vec::new();
                    assert(strings_view(v@) =~= Seq::<Seq<char>>::empty());
                    v
                },
            };
            if top.len() > 0 {
                Some(top)
            } else {
                Some(m)
            }
        },
        None => parse_guilds(raw),
    };
    let ghost es = entries_view(entry_vec@);
    let (entries, _) = normalize_settings_entries(entry_vec);
    proof {
        lemma_without_rig_clean(es);
        lemma_rig_then_others(rig_of(es), without_rig(es));
        lemma_without_rig_clean(without_rig(es));
    }
    let settings = settings_table_from_entries(entries.as_slice());
    Ok(PlayerToml { guilds, settings })
}

} // verus!
