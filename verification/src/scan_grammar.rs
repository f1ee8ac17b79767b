//! The line grammar of combat: round headers, combat-end lines and the rows
//! that `#scan all` prints.
use crate::text::{
    all_digits, chars_of, digits_value, is_ascii_digit, occurs_at, occurs_at_exec, string_of,
    sub_chars, trim_chars, trim_seq,
};
use crate::ansi::palette::TerminalColor;
use vstd::prelude::*;

verus! {

pub const PROBE_COMMAND: &'static str = "#scan all";

pub const NOT_IN_COMBAT_LINE: &'static str = "You are not in combat right now.";

pub const DEATH_COMBAT_END_LINE: &'static str = "You can see Death, clad in black, collect your corpse.";

/// Health condition parsed from a `#scan all` row.
#[derive(Debug, Clone, Copy, PartialEq, Eq)]
pub enum CombatCondition {
    Excellent,
    Good,
    SlightlyHurt,
    NoticeablyHurt,
    NotGood,
    Bad,
    VeryBad,
    NearDeath,
}

/// The phrase the game prints for each condition.
pub open spec fn phrase(c: CombatCondition) -> Seq<char> {
    match c {
        CombatCondition::Excellent => "in excellent shape"@,
        CombatCondition::Good => "in a good shape"@,
        CombatCondition::SlightlyHurt => "slightly hurt"@,
        CombatCondition::NoticeablyHurt => "noticeably hurt"@,
        CombatCondition::NotGood => "not in a good shape"@,
        CombatCondition::Bad => "in bad shape"@,
        CombatCondition::VeryBad => "in very bad shape"@,
        CombatCondition::NearDeath => "near death"@,
    }
}

/// The short label shown in the HUD.
pub open spec fn label_seq(c: CombatCondition) -> Seq<char> {
    match c {
        CombatCondition::Excellent => "excellent"@,
        CombatCondition::Good => "good"@,
        CombatCondition::SlightlyHurt => "slightly hurt"@,
        CombatCondition::NoticeablyHurt => "noticeably hurt"@,
        CombatCondition::NotGood => "not in good shape"@,
        CombatCondition::Bad => "bad shape"@,
        CombatCondition::VeryBad => "very bad shape"@,
        CombatCondition::NearDeath => "near death"@,
    }
}

/// The condition whose phrase is exactly `s`.
pub open spec fn condition_of_phrase(s: Seq<char>) -> Option<CombatCondition> {
    if s == phrase(CombatCondition::Excellent) {
        Some(CombatCondition::Excellent)
    } else if s == phrase(CombatCondition::Good) {
        Some(CombatCondition::Good)
    } else if s == phrase(CombatCondition::SlightlyHurt) {
        Some(CombatCondition::SlightlyHurt)
    } else if s == phrase(CombatCondition::NoticeablyHurt) {
        Some(CombatCondition::NoticeablyHurt)
    } else if s == phrase(CombatCondition::NotGood) {
        Some(CombatCondition::NotGood)
    } else if s == phrase(CombatCondition::Bad) {
        Some(CombatCondition::Bad)
    } else if s == phrase(CombatCondition::VeryBad) {
        Some(CombatCondition::VeryBad)
    } else if s == phrase(CombatCondition::NearDeath) {
        Some(CombatCondition::NearDeath)
    } else {
        None
    }
}

/// The condition whose phrase occurs in `s` at index `i` (phrases are tried in table order).
pub open spec fn condition_at(s: Seq<char>, i: int) -> Option<CombatCondition> {
    if occurs_at(s, phrase(CombatCondition::Excellent), i) {
        Some(CombatCondition::Excellent)
    } else if occurs_at(s, phrase(CombatCondition::Good), i) {
        Some(CombatCondition::Good)
    } else if occurs_at(s, phrase(CombatCondition::SlightlyHurt), i) {
        Some(CombatCondition::SlightlyHurt)
    } else if occurs_at(s, phrase(CombatCondition::NoticeablyHurt), i) {
        Some(CombatCondition::NoticeablyHurt)
    } else if occurs_at(s, phrase(CombatCondition::NotGood), i) {
        Some(CombatCondition::NotGood)
    } else if occurs_at(s, phrase(CombatCondition::Bad), i) {
        Some(CombatCondition::Bad)
    } else if occurs_at(s, phrase(CombatCondition::VeryBad), i) {
        Some(CombatCondition::VeryBad)
    } else if occurs_at(s, phrase(CombatCondition::NearDeath), i) {
        Some(CombatCondition::NearDeath)
    } else {
        None
    }
}

/// No character of `s` is a line feed (what `.` in a pattern accepts).
pub open spec fn no_newline(s: Seq<char>) -> bool {
    forall|i: int| 0 <= i < s.len() ==> #[trigger] s[i] != '\n'
}

/// Length of the run of `c` at the start of `s`.
pub open spec fn leading_run(s: Seq<char>, c: char) -> nat
    decreases s.len(),
{
    if s.len() > 0 && s[0] == c {
        1 + leading_run(s.drop_first(), c)
    } else {
        0
    }
}

/// Length of the run of `c` at the end of `s`.
pub open spec fn trailing_run(s: Seq<char>, c: char) -> nat
    decreases s.len(),
{
    if s.len() > 0 && s.last() == c {
        1 + trailing_run(s.drop_last(), c)
    } else {
        0
    }
}

/// Number of ASCII digits starting at index `i`.
pub open spec fn digit_run(s: Seq<char>, i: int) -> nat
    decreases s.len() - i,
{
    if 0 <= i < s.len() && is_ascii_digit(s[i]) {
        1 + digit_run(s, i + 1)
    } else {
        0
    }
}

/// A round header: stars, ` Round `, any text, a space, stars.
pub open spec fn is_round_header_spec(s: Seq<char>) -> bool {
    let a = leading_run(s, '*');
    let b = trailing_run(s, '*');
    &&& a >= 1
    &&& b >= 1
    &&& occurs_at(s, " Round "@, a as int)
    &&& a + 7 < s.len() - b
    &&& s[s.len() - b - 1] == ' '
    &&& no_newline(s.subrange(a + 7 as int, s.len() - b - 1))
}

#[verifier::opaque]
/// What follows the name in a scan row, read from index `p`: the condition,
/// the digit span of the percentage, and the span of the status, if any.
pub open spec fn row_tail(s: Seq<char>, p: int) -> Option<(CombatCondition, int, int, Option<(int, int)>)> {
    if !occurs_at(s, " is "@, p) {
        None
    } else {
        match condition_at(s, p + 4) {
            None => None,
            Some(c) => {
                let q = p + 4 + phrase(c).len();
                let ds = q + 2;
                let de = ds + digit_run(s, ds);
                let r = de + 2;
                if !occurs_at(s, " ("@, q) || de == ds || !occurs_at(s, "%)"@, de) {
                    None
                } else if r + 1 == s.len() && s[r] == '.' {
                    Some((c, ds, de, None))
                } else if occurs_at(s, " and "@, r) && r + 6 < s.len() && s.last() == '.'
                    && no_newline(s.subrange(r + 5, s.len() - 1)) {
                    Some((c, ds, de, Some((r + 5, s.len() - 1))))
                } else {
                    None
                }
            },
        }
    }
}

/// Whether the name of a scan row can end at `p`.
pub open spec fn valid_split(s: Seq<char>, p: int) -> bool {
    1 <= p < s.len() && no_newline(s.take(p)) && row_tail(s, p) is Some
}

/// Where the (greedy) name of a scan row ends: the largest valid split.
pub open spec fn scan_split(s: Seq<char>) -> Option<int> {
    if exists|p: int| valid_split(s, p) {
        Some(choose|p: int| valid_split(s, p) && forall|q: int| p < q ==> !valid_split(s, q))
    } else {
        None
    }
}

/// A scan row as plain values.
pub struct RowView {
    pub name: Seq<char>,
    pub condition: CombatCondition,
    pub percent: int,
    pub status: Option<Seq<char>>,
}

/// The row that a line describes, if it is a scan row whose percentage fits an `i32`.
pub open spec fn parse_scan_row_spec(s: Seq<char>) -> Option<RowView> {
    match scan_split(s) {
        None => None,
        Some(p) => {
            let (c, ds, de, st) = row_tail(s, p)->0;
            let v = digits_value(s.subrange(ds, de));
            if v > i32::MAX {
                None
            } else {
                Some(
                    RowView {
                        name: trim_seq(s.take(p)),
                        condition: c,
                        percent: v as int,
                        status: match st {
                            Some((a, b)) => Some(trim_seq(s.subrange(a, b))),
                            None => None,
                        },
                    },
                )
            }
        },
    }
}

/// One combatant row from a completed `#scan all` snapshot.
#[derive(Debug, Clone, PartialEq, Eq)]
pub struct CombatScanRow {
    name: String,
    condition: CombatCondition,
    percent: i32,
    status: Option<String>,
}

impl CombatScanRow {
    pub closed spec fn view_row(&self) -> RowView {
        RowView {
            name: self.name@,
            condition: self.condition,
            percent: self.percent as int,
            status: match self.status {
                Some(s) => Some(s@),
                None => None,
            },
        }
    }

    pub fn name(&self) -> (r: &str)
        ensures
            r@ == self.view_row().name,
    {
        self.name.as_str()
    }

    pub fn condition(&self) -> (r: CombatCondition)
        ensures
            r == self.view_row().condition,
    {
        self.condition
    }

    pub fn percent(&self) -> (r: i32)
        ensures
            r == self.view_row().percent,
    {
        self.percent
    }

    pub fn status(&self) -> (r: Option<&str>)
        ensures
            match self.view_row().status {
                Some(s) => r is Some && r->0@ == s,
                None => r is None,
            },
    {
        match &self.status {
            Some(s) => Some(s.as_str()),
            None => None,
        }
    }
}

pub open spec fn rows_view(rows: Seq<CombatScanRow>) -> Seq<RowView> {
    rows.map_values(|r: CombatScanRow| r.view_row())
}

impl CombatCondition {
    /// The condition named by a phrase of the game.
    pub fn parse(text: &str) -> (r: Option<Self>)
        ensures
            r == condition_of_phrase(text@),
    {
        let t = chars_of(text);
        if phrase_is(t.as_slice(), "in excellent shape") {
            Some(CombatCondition::Excellent)
        } else if phrase_is(t.as_slice(), "in a good shape") {
            Some(CombatCondition::Good)
        } else if phrase_is(t.as_slice(), "slightly hurt") {
            Some(CombatCondition::SlightlyHurt)
        } else if phrase_is(t.as_slice(), "noticeably hurt") {
            Some(CombatCondition::NoticeablyHurt)
        } else if phrase_is(t.as_slice(), "not in a good shape") {
            Some(CombatCondition::NotGood)
        } else if phrase_is(t.as_slice(), "in bad shape") {
            Some(CombatCondition::Bad)
        } else if phrase_is(t.as_slice(), "in very bad shape") {
            Some(CombatCondition::VeryBad)
        } else if phrase_is(t.as_slice(), "near death") {
            Some(CombatCondition::NearDeath)
        } else {
            None
        }
    }

    /// The colour the HUD draws a condition in: green when healthy, cyan
    /// when hurt, yellow when in bad shape, red when near death.
    pub open spec fn color_spec(self) -> TerminalColor {
        match self {
            CombatCondition::Excellent | CombatCondition::Good => TerminalColor::Rgb(0, 187, 0),
            CombatCondition::SlightlyHurt | CombatCondition::NoticeablyHurt => TerminalColor::Rgb(0, 187, 187),
            CombatCondition::NotGood | CombatCondition::Bad => TerminalColor::Rgb(187, 187, 0),
            CombatCondition::VeryBad | CombatCondition::NearDeath => TerminalColor::Rgb(187, 0, 0),
        }
    }

    /// The colour of the condition in the HUD.
    pub fn color(self) -> (r: TerminalColor)
        ensures
            r == self.color_spec(),
    {
        match self {
            CombatCondition::Excellent | CombatCondition::Good => TerminalColor::Rgb(0, 187, 0),
            CombatCondition::SlightlyHurt | CombatCondition::NoticeablyHurt => TerminalColor::Rgb(0, 187, 187),
            CombatCondition::NotGood | CombatCondition::Bad => TerminalColor::Rgb(187, 187, 0),
            CombatCondition::VeryBad | CombatCondition::NearDeath => TerminalColor::Rgb(187, 0, 0),
        }
    }

    /// Short label for HUD rendering (may differ slightly from the game's phrase).
    pub fn label(self) -> (r: &'static str)
        ensures
            r@ == label_seq(self),
    {
        match self {
            CombatCondition::Excellent => "excellent",
            CombatCondition::Good => "good",
            CombatCondition::SlightlyHurt => "slightly hurt",
            CombatCondition::NoticeablyHurt => "noticeably hurt",
            CombatCondition::NotGood => "not in good shape",
            CombatCondition::Bad => "bad shape",
            CombatCondition::VeryBad => "very bad shape",
            CombatCondition::NearDeath => "near death",
        }
    }
}

fn phrase_is(t: &[char], p: &str) -> (r: bool)
    ensures
        r == (t@ == p@),
{
    let pv = chars_of(p);
    crate::text::chars_eq(t, pv.as_slice())
}

/// Whether `line` is exactly `lit`.
pub fn line_is(line: &str, lit: &str) -> (r: bool)
    ensures
        r == (line@ == lit@),
{
    crate::command::str_eq(line, lit)
}

/// Whether the line says that combat is over.
pub fn is_combat_end_line(line: &str) -> (r: bool)
    ensures
        r == (line@ == NOT_IN_COMBAT_LINE@ || line@ == DEATH_COMBAT_END_LINE@),
{
    line_is(line, NOT_IN_COMBAT_LINE) || line_is(line, DEATH_COMBAT_END_LINE)
}

/// Whether the line echoes the probe command.
pub fn is_probe_echo(line: &str) -> (r: bool)
    ensures
        r == (line@ == "scan all"@ || line@ == PROBE_COMMAND@),
{
    line_is(line, "scan all") || line_is(line, PROBE_COMMAND)
}

proof fn lemma_leading_run_step(s: Seq<char>, c: char, i: int)
    requires
        0 <= i < s.len(),
        s[i] == c,
    ensures
        leading_run(s.skip(i), c) == 1 + leading_run(s.skip(i + 1), c),
{
    assert(s.skip(i).drop_first() =~= s.skip(i + 1));
}

proof fn lemma_trailing_run_step(s: Seq<char>, c: char, j: int)
    requires
        0 < j <= s.len(),
        s[j - 1] == c,
    ensures
        trailing_run(s.take(j), c) == 1 + trailing_run(s.take(j - 1), c),
{
    assert(s.take(j).drop_last() =~= s.take(j - 1));
}

/// Length of the run of `c` at the start of `s`.
pub fn leading_run_exec(s: &[char], c: char) -> (k: usize)
    ensures
        k == leading_run(s@, c),
        k <= s@.len(),
{
    let mut i: usize = 0;
    assert(s@.skip(0) =~= s@);
    while i < s.len() && s[i] == c
        invariant
            i <= s@.len(),
            leading_run(s@, c) == i + leading_run(s@.skip(i as int), c),
        decreases s.len() - i,
    {
        proof {
            lemma_leading_run_step(s@, c, i as int);
        }
        i = i + 1;
    }
    proof {
        if i < s@.len() {
            assert(s@.skip(i as int)[0] == s@[i as int]);
        }
    }
    i
}

/// Length of the run of `c` at the end of `s`.
pub fn trailing_run_exec(s: &[char], c: char) -> (k: usize)
    ensures
        k == trailing_run(s@, c),
        k <= s@.len(),
{
    let mut j: usize = s.len();
    assert(s@.take(s@.len() as int) =~= s@);
    while j > 0 && s[j - 1] == c
        invariant
            j <= s@.len(),
            trailing_run(s@, c) == (s@.len() - j) + trailing_run(s@.take(j as int), c),
        decreases j,
    {
        proof {
            lemma_trailing_run_step(s@, c, j as int);
        }
        j = j - 1;
    }
    proof {
        if j > 0 {
            assert(s@.take(j as int).last() == s@[j - 1]);
        }
    }
    s.len() - j
}

/// Whether no character of `s[a..b]` is a line feed.
pub fn no_newline_exec(s: &[char], a: usize, b: usize) -> (r: bool)
    requires
        a <= b <= s@.len(),
    ensures
        r == no_newline(s@.subrange(a as int, b as int)),
{
    let mut i = a;
    while i < b
        invariant
            a <= i <= b <= s@.len(),
            forall|k: int| a <= k < i ==> s@[k] != '\n',
        decreases b - i,
    {
        if s[i] == '\n' {
            assert(s@.subrange(a as int, b as int)[i - a] == '\n');
            return false;
        }
        i = i + 1;
    }
    assert forall|k: int| 0 <= k < b - a implies #[trigger] s@.subrange(a as int, b as int)[k]
        != '\n' by {
        assert(s@.subrange(a as int, b as int)[k] == s@[a + k]);
    }
    true
}

/// Whether a line is a combat round header.
pub fn is_round_header_chars(s: &[char]) -> (r: bool)
    ensures
        r == is_round_header_spec(s@),
{
    assert(s@.len() == s.len());
    let a = leading_run_exec(s, '*');
    let b = trailing_run_exec(s, '*');
    if a < 1 || b < 1 {
        return false;
    }
    let round = chars_of(" Round ");
    proof {
        reveal_strlit(" Round ");
    }
    if !occurs_at_exec(s, round.as_slice(), a) {
        return false;
    }
    assert(round@.len() == 7);
    assert(occurs_at(s@, round@, a as int));
    assert(a + 7 <= s@.len());
    if a + 7 >= s.len() - b {
        return false;
    }
    if s[s.len() - b - 1] != ' ' {
        return false;
    }
    no_newline_exec(s, a + 7, s.len() - b - 1)
}

/// Whether a line is a combat round header (`*** Round 1 ***`).
pub fn is_round_header(line: &str) -> (r: bool)
    ensures
        r == is_round_header_spec(line@),
{
    let v = chars_of(line);
    is_round_header_chars(v.as_slice())
}

proof fn lemma_digit_run_step(s: Seq<char>, i: int)
    requires
        0 <= i < s.len(),
        is_ascii_digit(s[i]),
    ensures
        digit_run(s, i) == 1 + digit_run(s, i + 1),
{
}

/// End of the run of digits that starts at `i`.
pub fn digit_run_end(s: &[char], i: usize) -> (e: usize)
    requires
        i <= s@.len(),
    ensures
        e == i + digit_run(s@, i as int),
        e <= s@.len(),
        all_digits(s@.subrange(i as int, e as int)),
{
    let mut e = i;
    while e < s.len() && '0' <= s[e] && s[e] <= '9'
        invariant
            i <= e <= s@.len(),
            digit_run(s@, i as int) == (e - i) + digit_run(s@, e as int),
            all_digits(s@.subrange(i as int, e as int)),
        decreases s.len() - e,
    {
        proof {
            lemma_digit_run_step(s@, e as int);
        }
        e = e + 1;
        assert(all_digits(s@.subrange(i as int, e as int))) by {
            assert forall|k: int| 0 <= k < e - i implies is_ascii_digit(
                #[trigger] s@.subrange(i as int, e as int)[k],
            ) by {
                if k < e - 1 - i {
                    assert(s@.subrange(i as int, e as int)[k] == s@.subrange(i as int, e - 1)[k]);
                }
            }
        }
    }
    e
}

/// The condition whose phrase occurs at `i`, with its phrase length.
fn condition_at_exec(s: &[char], i: usize) -> (r: Option<(CombatCondition, usize)>)
    ensures
        match condition_at(s@, i as int) {
            Some(c) => r matches Some((rc, rl)) && rc == c && rl == phrase(c).len(),
            None => r is None,
        },
{
    let conds = [
        CombatCondition::Excellent,
        CombatCondition::Good,
        CombatCondition::SlightlyHurt,
        CombatCondition::NoticeablyHurt,
        CombatCondition::NotGood,
        CombatCondition::Bad,
        CombatCondition::VeryBad,
        CombatCondition::NearDeath,
    ];
    let p0 = chars_of("in excellent shape");
    if occurs_at_exec(s, p0.as_slice(), i) {
        return Some((conds[0], p0.len()));
    }
    let p1 = chars_of("in a good shape");
    if occurs_at_exec(s, p1.as_slice(), i) {
        return Some((conds[1], p1.len()));
    }
    let p2 = chars_of("slightly hurt");
    if occurs_at_exec(s, p2.as_slice(), i) {
        return Some((conds[2], p2.len()));
    }
    let p3 = chars_of("noticeably hurt");
    if occurs_at_exec(s, p3.as_slice(), i) {
        return Some((conds[3], p3.len()));
    }
    let p4 = chars_of("not in a good shape");
    if occurs_at_exec(s, p4.as_slice(), i) {
        return Some((conds[4], p4.len()));
    }
    let p5 = chars_of("in bad shape");
    if occurs_at_exec(s, p5.as_slice(), i) {
        return Some((conds[5], p5.len()));
    }
    let p6 = chars_of("in very bad shape");
    if occurs_at_exec(s, p6.as_slice(), i) {
        return Some((conds[6], p6.len()));
    }
    let p7 = chars_of("near death");
    if occurs_at_exec(s, p7.as_slice(), i) {
        return Some((conds[7], p7.len()));
    }
    None
}

/// Spans of the row tail that starts at `p`, as [`row_tail`] describes them.
fn row_tail_exec(s: &[char], p: usize) -> (r: Option<(CombatCondition, usize, usize, Option<(usize, usize)>)>)
    requires
        p <= s@.len(),
    ensures
        match row_tail(s@, p as int) {
            Some((c, ds, de, st)) => r matches Some((rc, rds, rde, rst)) && rc == c && rds == ds
                && rde == de && match st {
                Some((a, b)) => rst matches Some((ra, rb)) && ra == a && rb == b,
                None => rst is None,
            },
            None => r is None,
        },
        r matches Some((rc, rds, rde, rst)) ==> rds <= rde <= s@.len() && rde == rds + digit_run(
            s@,
            rds as int,
        ) && match rst {
            Some((a, b)) => a <= b <= s@.len(),
            None => true,
        },
{
    reveal(row_tail);
    assert(s@.len() == s.len());
    let is_ = chars_of(" is ");
    proof {
        reveal_strlit(" is ");
        reveal_strlit(" (");
        reveal_strlit("%)");
        reveal_strlit(" and ");
    }
    if !occurs_at_exec(s, is_.as_slice(), p) {
        return None;
    }
    assert(is_@.len() == 4);
    assert(occurs_at(s@, is_@, p as int));
    assert(p + 4 <= s@.len());
    let (c, plen) = match condition_at_exec(s, p + 4) {
        Some(x) => x,
        None => {
            return None;
        },
    };
    let q = p + 4 + plen;
    let open = chars_of(" (");
    if !occurs_at_exec(s, open.as_slice(), q) {
        return None;
    }
    let ds = q + 2;
    let de = digit_run_end(s, ds);
    let close = chars_of("%)");
    if de == ds || !occurs_at_exec(s, close.as_slice(), de) {
        return None;
    }
    let r = de + 2;
    if r < s.len() && s.len() - r == 1 && s[r] == '.' {
        return Some((c, ds, de, None));
    }
    let and = chars_of(" and ");
    if occurs_at_exec(s, and.as_slice(), r) && s.len() - r > 6 && s[s.len() - 1] == '.'
        && no_newline_exec(s, r + 5, s.len() - 1) {
        return Some((c, ds, de, Some((r + 5, s.len() - 1))));
    }
    None
}

/// Decimal value of `s[a..b]`, all digits, when it fits an `i32`.
fn digits_to_i32(s: &[char], a: usize, b: usize) -> (r: Option<i32>)
    requires
        a <= b <= s@.len(),
        all_digits(s@.subrange(a as int, b as int)),
    ensures
        digits_value(s@.subrange(a as int, b as int)) <= i32::MAX ==> r == Some(
            digits_value(s@.subrange(a as int, b as int)) as i32,
        ),
        digits_value(s@.subrange(a as int, b as int)) > i32::MAX ==> r is None,
{
    let part = sub_chars(s, a, b);
    if part.len() == 0 {
        assert(digits_value(part@) == 0);
        return Some(0);
    }
    let v = crate::text::parse_unsigned_chars(part.as_slice(), 2147483647);
    proof {
        assert(crate::text::unsigned_body(part@) == part@);
    }
    match v {
        Some(x) => Some(x as i32),
        None => None,
    }
}

/// The row for a line whose greedy name split is `p`.
fn build_row(s: &Vec<char>, p: usize, c: CombatCondition, ds: usize, de: usize, st: Option<(usize, usize)>) -> (r: Option<CombatScanRow>)
    requires
        scan_split(s@) == Some(p as int),
        row_tail(s@, p as int) == Some((c, ds as int, de as int, match st {
            Some((a, b)) => Some((a as int, b as int)),
            None => None::<(int, int)>,
        })),
        1 <= p < s@.len(),
        ds <= de <= s@.len(),
        de == ds + digit_run(s@, ds as int),
        match st {
            Some((a, b)) => a <= b <= s@.len(),
            None => true,
        },
    ensures
        match parse_scan_row_spec(s@) {
            Some(v) => r is Some && r->0.view_row() == v,
            None => r is None,
        },
{
    proof {
        lemma_digit_run_all(s@, ds as int, de as int);
    }
    let percent = match digits_to_i32(s.as_slice(), ds, de) {
        Some(v) => v,
        None => {
            return None;
        },
    };
    let name_part = sub_chars(s.as_slice(), 0, p);
    let name = trim_chars(name_part.as_slice());
    let status = match st {
        Some((a, b)) => {
            let part = sub_chars(s.as_slice(), a, b);
            let t = trim_chars(part.as_slice());
            Some(string_of(t.as_slice()))
        },
        None => None,
    };
    assert(name_part@ == s@.take(p as int));
    let row = CombatScanRow { name: string_of(name.as_slice()), condition: c, percent, status };
    assert(row.view_row() == parse_scan_row_spec(s@)->0);
    Some(row)
}

/// Parses a `#scan all` row such as `Guard is slightly hurt (70%) and stunned.`
pub fn parse_scan_row(line: &str) -> (r: Option<CombatScanRow>)
    ensures
        match parse_scan_row_spec(line@) {
            Some(v) => r is Some && r->0.view_row() == v,
            None => r is None,
        },
{
    let s = chars_of(line);
    let n = s.len();
    if n < 2 {
        assert forall|p: int| !valid_split(s@, p) by {}
        return None;
    }
    let mut p: usize = n - 1;
    while p >= 1
        invariant
            p < n,
            n == s@.len(),
            s@ == line@,
            forall|q: int| p < q ==> !valid_split(s@, q),
        decreases p,
    {
        if no_newline_exec(s.as_slice(), 0, p) {
            assert(s@.subrange(0, p as int) == s@.take(p as int));
            match row_tail_exec(s.as_slice(), p) {
                Some((c, ds, de, st)) => {
                    assert(valid_split(s@, p as int));
                    proof {
                        let w = choose|w: int|
                            valid_split(s@, w) && forall|q: int| w < q ==> !valid_split(s@, q);
                        assert(valid_split(s@, w) && forall|q: int| w < q ==> !valid_split(s@, q));
                        if w < p {
                        } else if w > p {
                        }
                        assert(w == p);
                    }
                    return build_row(&s, p, c, ds, de, st);
                },
                None => {},
            }
        } else {
            assert(s@.subrange(0, p as int) == s@.take(p as int));
        }
        assert(!valid_split(s@, p as int));
        p = p - 1;
    }
    assert forall|q: int| !valid_split(s@, q) by {}
    None
}

proof fn lemma_digit_run_all(s: Seq<char>, ds: int, de: int)
    requires
        0 <= ds <= s.len(),
        de == ds + digit_run(s, ds),
    ensures
        de <= s.len(),
        all_digits(s.subrange(ds, de)),
    decreases s.len() - ds,
{
    if ds < s.len() && is_ascii_digit(s[ds]) {
        lemma_digit_run_all(s, ds + 1, de);
        assert forall|k: int| 0 <= k < de - ds implies is_ascii_digit(
            #[trigger] s.subrange(ds, de)[k],
        ) by {
            if k > 0 {
                assert(s.subrange(ds, de)[k] == s.subrange(ds + 1, de)[k - 1]);
            }
        }
    }
}

} // verus!
