//! Query parameters of the damage viewer, and the bounds that a batch of
//! candidate hits puts on each candidate's damage.
use crate::command::str_eq;
use vstd::prelude::*;

verus! {

/// How far back the viewer looks.
#[derive(Debug, Clone, Copy, PartialEq, Eq, Structural)]
pub enum TimeRange {
    Hours24,
    Days7,
    All,
}

pub open spec fn opt_is(value: Option<&str>, lit: Seq<char>) -> bool {
    match value {
        Some(v) => v@ == lit,
        None => false,
    }
}

fn opt_eq(value: Option<&str>, lit: &str) -> (r: bool)
    ensures
        r == opt_is(value, lit@),
{
    match value {
        Some(v) => str_eq(v, lit),
        None => false,
    }
}

impl TimeRange {
    pub open spec fn parse_spec(value: Option<&str>) -> TimeRange {
        if opt_is(value, "24h"@) {
            TimeRange::Hours24
        } else if opt_is(value, "7d"@) {
            TimeRange::Days7
        } else {
            TimeRange::All
        }
    }

    /// `24h`, `7d`, anything else all time.
    pub fn parse(value: Option<&str>) -> (r: Self)
        ensures
            r == Self::parse_spec(value),
    {
        if opt_eq(value, "24h") {
            TimeRange::Hours24
        } else if opt_eq(value, "7d") {
            TimeRange::Days7
        } else {
            TimeRange::All
        }
    }

    pub open spec fn name_spec(self) -> Seq<char> {
        match self {
            TimeRange::Hours24 => "24h"@,
            TimeRange::Days7 => "7d"@,
            TimeRange::All => "all"@,
        }
    }

    /// The query value of the range.
    pub fn as_str(self) -> (r: &'static str)
        ensures
            r@ == self.name_spec(),
    {
        match self {
            TimeRange::Hours24 => "24h",
            TimeRange::Days7 => "7d",
            TimeRange::All => "all",
        }
    }
}

/// Reading a range back from its own query value gives the range again.
pub proof fn law_time_range_round_trip(range: TimeRange, value: &str)
    requires
        value@ == range.name_spec(),
    ensures
        TimeRange::parse_spec(Some(value)) == range,
{
    reveal_strlit("24h");
    reveal_strlit("7d");
    reveal_strlit("all");
    assert("24h"@.len() != "7d"@.len());
    assert("all"@[0] != "24h"@[0]);
    assert("all"@.len() != "7d"@.len());
}

/// The viewer's filters: a time range and, optionally, one player.
#[derive(Debug)]
pub struct FilterParams {
    pub range: TimeRange,
    pub player: Option<String>,
}

impl FilterParams {
    /// Filters from query values; an empty player name means all players.
    pub fn from_query(range: Option<&str>, player: Option<&str>) -> (r: Self)
        ensures
            r.range == TimeRange::parse_spec(range),
            match player {
                Some(p) => if p@.len() > 0 {
                    r.player matches Some(s) && s@ == p@
                } else {
                    r.player is None
                },
                None => r.player is None,
            },
    {
        let player = match player {
            Some(p) => {
                let pc = crate::text::chars_of(p);
                if pc.len() > 0 {
                    Some(p.to_string())
                } else {
                    None
                }
            },
            None => None,
        };
        FilterParams { range: TimeRange::parse(range), player }
    }
}

/// Sort order.
#[derive(Debug, Clone, Copy, PartialEq, Eq, Structural)]
pub enum SortDirection {
    Asc,
    Desc,
}

impl SortDirection {
    /// `desc`, anything else ascending.
    pub fn parse(value: Option<&str>) -> (r: Self)
        ensures
            r == if opt_is(value, "desc"@) {
                SortDirection::Desc
            } else {
                SortDirection::Asc
            },
    {
        if opt_eq(value, "desc") {
            SortDirection::Desc
        } else {
            SortDirection::Asc
        }
    }
}

/// The landing table's sort column.
#[derive(Debug, Clone, Copy, PartialEq, Eq, Structural)]
pub enum LandingSortColumn {
    Verb,
    ConfObs,
    ConfMin,
    ConfMax,
    ConfAvg,
    EstObs,
    EstMin,
    EstMax,
    EstAvg,
}

impl LandingSortColumn {
    pub open spec fn parse_spec(value: Option<&str>) -> LandingSortColumn {
        if opt_is(value, "conf_obs"@) {
            LandingSortColumn::ConfObs
        } else if opt_is(value, "conf_min"@) {
            LandingSortColumn::ConfMin
        } else if opt_is(value, "conf_max"@) {
            LandingSortColumn::ConfMax
        } else if opt_is(value, "conf_avg"@) {
            LandingSortColumn::ConfAvg
        } else if opt_is(value, "est_obs"@) {
            LandingSortColumn::EstObs
        } else if opt_is(value, "est_min"@) {
            LandingSortColumn::EstMin
        } else if opt_is(value, "est_max"@) {
            LandingSortColumn::EstMax
        } else if opt_is(value, "est_avg"@) {
            LandingSortColumn::EstAvg
        } else {
            LandingSortColumn::Verb
        }
    }

    /// The column named by a query value; anything unknown sorts by verb.
    pub fn parse(value: Option<&str>) -> (r: Self)
        ensures
            r == Self::parse_spec(value),
    {
        if opt_eq(value, "conf_obs") {
            LandingSortColumn::ConfObs
        } else if opt_eq(value, "conf_min") {
            LandingSortColumn::ConfMin
        } else if opt_eq(value, "conf_max") {
            LandingSortColumn::ConfMax
        } else if opt_eq(value, "conf_avg") {
            LandingSortColumn::ConfAvg
        } else if opt_eq(value, "est_obs") {
            LandingSortColumn::EstObs
        } else if opt_eq(value, "est_min") {
            LandingSortColumn::EstMin
        } else if opt_eq(value, "est_max") {
            LandingSortColumn::EstMax
        } else if opt_eq(value, "est_avg") {
            LandingSortColumn::EstAvg
        } else {
            LandingSortColumn::Verb
        }
    }
}

/// The drill-down table's sort column.
#[derive(Debug, Clone, Copy, PartialEq, Eq, Structural)]
pub enum EventSortColumn {
    RecordedAt,
    Player,
    HpDelta,
    SourceName,
    Weight,
    CandidateCount,
}

impl EventSortColumn {
    pub open spec fn parse_spec(value: Option<&str>) -> EventSortColumn {
        if opt_is(value, "player"@) {
            EventSortColumn::Player
        } else if opt_is(value, "hp_delta"@) {
            EventSortColumn::HpDelta
        } else if opt_is(value, "source_name"@) {
            EventSortColumn::SourceName
        } else if opt_is(value, "weight"@) {
            EventSortColumn::Weight
        } else if opt_is(value, "candidate_count"@) {
            EventSortColumn::CandidateCount
        } else {
            EventSortColumn::RecordedAt
        }
    }

    /// The column named by a query value; anything unknown sorts by time.
    pub fn parse(value: Option<&str>) -> (r: Self)
        ensures
            r == Self::parse_spec(value),
    {
        if opt_eq(value, "player") {
            EventSortColumn::Player
        } else if opt_eq(value, "hp_delta") {
            EventSortColumn::HpDelta
        } else if opt_eq(value, "source_name") {
            EventSortColumn::SourceName
        } else if opt_eq(value, "weight") {
            EventSortColumn::Weight
        } else if opt_eq(value, "candidate_count") {
            EventSortColumn::CandidateCount
        } else {
            EventSortColumn::RecordedAt
        }
    }
}

/// One candidate of a batch: its category and verb.
#[derive(Debug)]
pub struct BatchCandidate {
    pub category: String,
    pub verb: String,
}

/// The damage a candidate may have dealt, and whether the bounds are only the
/// batch's loose ones.
#[derive(Debug, Clone, Copy, PartialEq, Eq, Structural)]
pub struct EffectiveBounds {
    pub min: i32,
    pub max: i32,
    pub loose: bool,
}

/// A key of the known minima: category and verb.
pub open spec fn key_of(c: BatchCandidate) -> (Seq<char>, Seq<char>) {
    (c.category@, c.verb@)
}

/// The known minimum recorded first for a key.
pub open spec fn known_min(known: Seq<((String, String), i32)>, key: (Seq<char>, Seq<char>)) -> Option<
    i32,
>
    decreases known.len(),
{
    if known.len() == 0 {
        None
    } else {
        let ((c, v), m) = known[0];
        if (c@, v@) == key {
            Some(m)
        } else {
            known_min(known.drop_first(), key)
        }
    }
}

/// The first candidate whose known minimum is the whole loss.
pub open spec fn first_exact(cands: Seq<BatchCandidate>, known: Seq<((String, String), i32)>, hp: i32, i: int) -> Option<int>
    decreases cands.len() - i,
{
    if i < 0 || i >= cands.len() {
        None
    } else if known_min(known, key_of(cands[i])) == Some(hp) {
        Some(i)
    } else {
        first_exact(cands, known, hp, i + 1)
    }
}

/// The bounds of a batch: when a candidate's known minimum equals the whole
/// loss, every candidate with its category and verb took all of it and the
/// others none; otherwise each candidate lies loosely between nothing and the
/// whole loss.
pub open spec fn batch_bounds(cands: Seq<BatchCandidate>, known: Seq<((String, String), i32)>, hp: i32, k: int) -> EffectiveBounds {
    match first_exact(cands, known, hp, 0) {
        Some(i) => if key_of(cands[k]) == key_of(cands[i]) {
            EffectiveBounds { min: hp, max: hp, loose: false }
        } else {
            EffectiveBounds { min: 0, max: 0, loose: false }
        },
        None => EffectiveBounds { min: 0, max: hp, loose: true },
    }
}

/// The bounds are conservative: for a loss of `hp` hit points, every
/// candidate's bounds lie between nothing and the whole loss, and a bound that
/// is not loose is exact.
pub proof fn law_bounds_within_loss(cands: Seq<BatchCandidate>, known: Seq<((String, String), i32)>, hp: i32, k: int)
    requires
        0 <= hp,
        0 <= k < cands.len(),
    ensures
        0 <= batch_bounds(cands, known, hp, k).min <= batch_bounds(cands, known, hp, k).max <= hp,
        !batch_bounds(cands, known, hp, k).loose ==> batch_bounds(cands, known, hp, k).min == batch_bounds(
            cands,
            known,
            hp,
            k,
        ).max,
{
}

fn known_min_exec(known: &[((String, String), i32)], category: &str, verb: &str) -> (r: Option<i32>)
    ensures
        r == known_min(known@, (category@, verb@)),
{
    let mut i: usize = 0;
    assert(known@.skip(0) =~= known@);
    while i < known.len()
        invariant
            i <= known@.len(),
            known_min(known@, (category@, verb@)) == known_min(known@.skip(i as int), (category@, verb@)),
        decreases known.len() - i,
    {
        assert(known@.skip(i as int).drop_first() =~= known@.skip(i + 1));
        let ((c, v), m) = &known[i];
        if str_eq(c, category) && str_eq(v, verb) {
            return Some(*m);
        }
        i = i + 1;
    }
    None
}

fn find_exact(hp_delta: i32, candidates: &[BatchCandidate], known_mins: &[((String, String), i32)]) -> (r: Option<usize>)
    ensures
        r matches Some(e) ==> first_exact(candidates@, known_mins@, hp_delta, 0) == Some(e as int)
            && e < candidates@.len(),
        r is None ==> first_exact(candidates@, known_mins@, hp_delta, 0) is None,
{
    let mut i: usize = 0;
    while i < candidates.len()
        invariant
            i <= candidates@.len(),
            first_exact(candidates@, known_mins@, hp_delta, 0) == first_exact(
                candidates@,
                known_mins@,
                hp_delta,
                i as int,
            ),
        decreases candidates.len() - i,
    {
        let c = &candidates[i];
        if known_min_exec(known_mins, &c.category, &c.verb) == Some(hp_delta) {
            return Some(i);
        }
        i = i + 1;
    }
    None
}

/// The bounds on each candidate's damage in a batch that lost `hp_delta` hit points.
/// `known_mins` lists the known least damage of each category and verb; where
/// a key occurs more than once, the first entry is the one read (the list that
/// `known_mins_from_isolated` builds holds each key once).
pub fn extrapolate_batch(
    hp_delta: i32,
    candidates: &[BatchCandidate],
    known_mins: &[((String, String), i32)],
) -> (r: Vec<EffectiveBounds>)
    ensures
        r@.len() == candidates@.len(),
        forall|k: int|
            0 <= k < candidates@.len() ==> #[trigger] r@[k] == batch_bounds(
                candidates@,
                known_mins@,
                hp_delta,
                k,
            ),
{
    let exact = find_exact(hp_delta, candidates, known_mins);
    let ghost fe = first_exact(candidates@, known_mins@, hp_delta, 0);
    assert(match exact {
        Some(e) => fe == Some(e as int),
        None => fe is None,
    });
    let mut out: Vec<EffectiveBounds> = Vec::new();
    let mut k: usize = 0;
    while k < candidates.len()
        invariant
            k <= candidates@.len(),
            fe == first_exact(candidates@, known_mins@, hp_delta, 0),
            match exact {
                Some(e) => fe == Some(e as int) && e < candidates@.len(),
                None => fe is None,
            },
            out@.len() == k,
            forall|j: int|
                0 <= j < k ==> #[trigger] out@[j] == batch_bounds(candidates@, known_mins@, hp_delta, j),
        decreases candidates.len() - k,
    {
        let b = match exact {
            Some(e) => {
                let same = str_eq(&candidates[k].category, &candidates[e].category) && str_eq(
                    &candidates[k].verb,
                    &candidates[e].verb,
                );
                if same {
                    EffectiveBounds { min: hp_delta, max: hp_delta, loose: false }
                } else {
                    EffectiveBounds { min: 0, max: 0, loose: false }
                }
            },
            None => EffectiveBounds { min: 0, max: hp_delta, loose: true },
        };
        out.push(b);
        k = k + 1;
    }
    out
}


/// What the estimates read of a recorded hit.
#[derive(Debug, Clone)]
pub struct EventFacts {
    pub batch_id: i64,
    pub damage_category: String,
    pub message_verb: String,
    pub hp_delta: i32,
    pub candidate_count: i32,
}

/// The least damage of the hits with this category and verb that were alone
/// in their batch.
pub open spec fn isolated_min(rows: Seq<EventFacts>, key: (Seq<char>, Seq<char>)) -> Option<i32>
    decreases rows.len(),
{
    if rows.len() == 0 {
        None
    } else {
        let prev = isolated_min(rows.drop_last(), key);
        let r = rows.last();
        if r.candidate_count == 1 && (r.damage_category@, r.message_verb@) == key {
            match prev {
                Some(m) => Some(
                    if r.hp_delta < m {
                        r.hp_delta
                    } else {
                        m
                    },
                ),
                None => Some(r.hp_delta),
            }
        } else {
            prev
        }
    }
}

pub open spec fn known_key(e: ((String, String), i32)) -> (Seq<char>, Seq<char>) {
    (e.0.0@, e.0.1@)
}

proof fn lemma_known_min_push(known: Seq<((String, String), i32)>, x: ((String, String), i32), key: (Seq<char>, Seq<char>))
    ensures
        known_min(known.push(x), key) == match known_min(known, key) {
            Some(m) => Some(m),
            None => if known_key(x) == key {
                Some(x.1)
            } else {
                None
            },
        },
    decreases known.len(),
{
    if known.len() == 0 {
        assert(known.push(x).drop_first() =~= Seq::<((String, String), i32)>::empty());
        assert(known.push(x)[0] == x);
        assert(known_min(Seq::<((String, String), i32)>::empty(), key) is None);
        assert(known_min(known, key) is None);
    } else {
        assert(known.push(x)[0] == known[0]);
        assert(known.push(x).drop_first() =~= known.drop_first().push(x));
        lemma_known_min_push(known.drop_first(), x, key);
    }
}

proof fn lemma_known_min_update(
    known: Seq<((String, String), i32)>,
    j: int,
    y: ((String, String), i32),
    key: (Seq<char>, Seq<char>),
)
    requires
        0 <= j < known.len(),
        known_key(y) == known_key(known[j]),
        forall|i: int| 0 <= i < j ==> known_key(#[trigger] known[i]) != known_key(known[j]),
    ensures
        known_min(known.update(j, y), key) == if key == known_key(y) {
            Some(y.1)
        } else {
            known_min(known, key)
        },
    decreases known.len(),
{
    if j == 0 {
        assert(known.update(j, y).drop_first() =~= known.drop_first());
    } else {
        assert(known.update(j, y)[0] == known[0]);
        assert(known.update(j, y).drop_first() =~= known.drop_first().update(j - 1, y));
        assert forall|i: int| 0 <= i < j - 1 implies known_key(#[trigger] known.drop_first()[i]) != known_key(
            known.drop_first()[j - 1],
        ) by {
            assert(known.drop_first()[i] == known[i + 1]);
        }
        lemma_known_min_update(known.drop_first(), j - 1, y, key);
    }
}

proof fn lemma_known_min_absent(known: Seq<((String, String), i32)>, key: (Seq<char>, Seq<char>))
    requires
        forall|i: int| 0 <= i < known.len() ==> known_key(#[trigger] known[i]) != key,
    ensures
        known_min(known, key) is None,
    decreases known.len(),
{
    if known.len() > 0 {
        assert forall|i: int| 0 <= i < known.len() - 1 implies known_key(#[trigger] known.drop_first()[i]) != key by {
            assert(known.drop_first()[i] == known[i + 1]);
        }
        lemma_known_min_absent(known.drop_first(), key);
    }
}

proof fn lemma_known_min_at(known: Seq<((String, String), i32)>, j: int)
    requires
        0 <= j < known.len(),
        forall|i: int| 0 <= i < j ==> known_key(#[trigger] known[i]) != known_key(known[j]),
    ensures
        known_min(known, known_key(known[j])) == Some(known[j].1),
    decreases known.len(),
{
    if j > 0 {
        assert forall|i: int| 0 <= i < j - 1 implies known_key(#[trigger] known.drop_first()[i]) != known_key(
            known.drop_first()[j - 1],
        ) by {
            assert(known.drop_first()[i] == known[i + 1]);
        }
        lemma_known_min_at(known.drop_first(), j - 1);
    }
}

fn find_known(known: &Vec<((String, String), i32)>, category: &str, verb: &str) -> (r: Option<usize>)
    ensures
        match r {
            Some(j) => j < known@.len() && known_key(known@[j as int]) == (category@, verb@) && forall|i: int|
                0 <= i < j ==> known_key(#[trigger] known@[i]) != (category@, verb@),
            None => forall|i: int| 0 <= i < known@.len() ==> known_key(#[trigger] known@[i]) != (category@, verb@),
        },
{
    let mut i: usize = 0;
    while i < known.len()
        invariant
            i <= known@.len(),
            forall|k: int| 0 <= k < i ==> known_key(#[trigger] known@[k]) != (category@, verb@),
        decreases known.len() - i,
    {
        let ((c, v), _) = &known[i];
        if str_eq(c, category) && str_eq(v, verb) {
            return Some(i);
        }
        i = i + 1;
    }
    None
}

/// The least damage of each category and verb among the hits that were alone
/// in their batch.
pub fn known_mins_from_isolated(rows: &[EventFacts]) -> (r: Vec<((String, String), i32)>)
    ensures
        forall|key: (Seq<char>, Seq<char>)| #[trigger] known_min(r@, key) == isolated_min(rows@, key),
        forall|a: int, b: int| 0 <= a < b < r@.len() ==> known_key(#[trigger] r@[a]) != known_key(#[trigger] r@[b]),
{
    let mut out: Vec<((String, String), i32)> = Vec::new();
    let mut i: usize = 0;
    while i < rows.len()
        invariant
            i <= rows@.len(),
            forall|a: int, b: int| 0 <= a < b < out@.len() ==> known_key(#[trigger] out@[a]) != known_key(#[trigger] out@[b]),
            forall|key: (Seq<char>, Seq<char>)| #[trigger] known_min(out@, key) == isolated_min(rows@.take(i as int), key),
        decreases rows.len() - i,
    {
        let ghost prev = out@;
        assert(rows@.take(i + 1).drop_last() =~= rows@.take(i as int));
        let row = &rows[i];
        if row.candidate_count == 1 {
            let ghost rk = (row.damage_category@, row.message_verb@);
            match find_known(&out, row.damage_category.as_str(), row.message_verb.as_str()) {
                Some(j) => {
                    let current = out[j].1;
                    let m = if row.hp_delta < current {
                        row.hp_delta
                    } else {
                        current
                    };
                    let y = ((row.damage_category.clone(), row.message_verb.clone()), m);
                    proof {
                        lemma_known_min_at(prev, j as int);
                    }
                    out.set(j, y);
                    proof {
                        assert forall|key: (Seq<char>, Seq<char>)| #[trigger] known_min(out@, key) == isolated_min(
                            rows@.take(i + 1),
                            key,
                        ) by {
                            lemma_known_min_update(prev, j as int, y, key);
                            assert(out@ == prev.update(j as int, y));
                        }
                    }
                },
                None => {
                    let y = ((row.damage_category.clone(), row.message_verb.clone()), row.hp_delta);
                    proof {
                        lemma_known_min_absent(prev, rk);
                    }
                    out.push(y);
                    proof {
                        assert forall|key: (Seq<char>, Seq<char>)| #[trigger] known_min(out@, key) == isolated_min(
                            rows@.take(i + 1),
                            key,
                        ) by {
                            lemma_known_min_push(prev, y, key);
                        }
                    }
                },
            }
        }
        i = i + 1;
    }
    assert(rows@.take(rows@.len() as int) =~= rows@);
    out
}

} // verus!
