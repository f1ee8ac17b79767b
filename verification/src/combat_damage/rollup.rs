//! The per-verb counts of the viewer's landing table (how many hits, the
//! least and the most damage, whether a bound was loose) and the grouping of
//! ambiguous hits by the batch they were recorded in.
use crate::combat_damage::aggregate::{EffectiveBounds, EventFacts};
use crate::command::str_eq;
use vstd::prelude::*;

verus! {

/// The counts of one verb: observations, least and most damage, and whether
/// any of its bounds was loose.
#[derive(Debug, Clone)]
pub struct VerbTally {
    pub verb: String,
    pub obs: i64,
    pub min: i32,
    pub max: i32,
    pub loose: bool,
}

/// A tally as plain values.
pub open spec fn tally_view(t: VerbTally) -> (int, int, int, bool) {
    (t.obs as int, t.min as int, t.max as int, t.loose)
}

/// The tally of a verb in a list of tallies: the first one with that verb.
pub open spec fn tally_lookup(out: Seq<VerbTally>, verb: Seq<char>) -> Option<(int, int, int, bool)>
    decreases out.len(),
{
    if out.len() == 0 {
        None
    } else if out[0].verb@ == verb {
        Some(tally_view(out[0]))
    } else {
        tally_lookup(out.drop_first(), verb)
    }
}

/// No verb has two tallies.
pub open spec fn verbs_distinct(out: Seq<VerbTally>) -> bool {
    forall|i: int, j: int| 0 <= i < j < out.len() ==> #[trigger] out[i].verb@ != #[trigger] out[j].verb@
}

/// A tally after one more observation between `lo` and `hi`.
pub open spec fn tally_step(t: Option<(int, int, int, bool)>, lo: int, hi: int, loose: bool) -> (int, int, int, bool) {
    match t {
        None => (1, lo, hi, loose),
        Some((obs, min, max, l)) => (
            obs + 1,
            if lo < min {
                lo
            } else {
                min
            },
            if hi > max {
                hi
            } else {
                max
            },
            l || loose,
        ),
    }
}

/// The confirmed tally of a verb: its hits that were alone in their batch,
/// each with exactly the hit points lost.
pub open spec fn confirmed_tally(rows: Seq<EventFacts>, verb: Seq<char>) -> Option<(int, int, int, bool)>
    decreases rows.len(),
{
    if rows.len() == 0 {
        None
    } else {
        let prev = confirmed_tally(rows.drop_last(), verb);
        let r = rows.last();
        if r.candidate_count == 1 && r.message_verb@ == verb {
            Some(tally_step(prev, r.hp_delta as int, r.hp_delta as int, false))
        } else {
            prev
        }
    }
}

/// The estimated tally of a verb: the bounds of its hits in ambiguous batches.
pub open spec fn estimated_tally(contributions: Seq<(String, EffectiveBounds)>, verb: Seq<char>) -> Option<
    (int, int, int, bool),
>
    decreases contributions.len(),
{
    if contributions.len() == 0 {
        None
    } else {
        let prev = estimated_tally(contributions.drop_last(), verb);
        let (v, b) = contributions.last();
        if v@ == verb {
            Some(tally_step(prev, b.min as int, b.max as int, b.loose))
        } else {
            prev
        }
    }
}

proof fn lemma_lookup_at(out: Seq<VerbTally>, j: int)
    requires
        0 <= j < out.len(),
        forall|i: int| 0 <= i < j ==> (#[trigger] out[i]).verb@ != out[j].verb@,
    ensures
        tally_lookup(out, out[j].verb@) == Some(tally_view(out[j])),
    decreases j,
{
    if j > 0 {
        assert forall|i: int| 0 <= i < j - 1 implies (#[trigger] out.drop_first()[i]).verb@ != out.drop_first()[j
            - 1].verb@ by {
            assert(out.drop_first()[i] == out[i + 1]);
            assert(out[i + 1].verb@ != out[j].verb@);
        }
        assert(out[0].verb@ != out[j].verb@);
        lemma_lookup_at(out.drop_first(), j - 1);
    }
}

proof fn lemma_lookup_absent(out: Seq<VerbTally>, verb: Seq<char>)
    requires
        forall|i: int| 0 <= i < out.len() ==> (#[trigger] out[i]).verb@ != verb,
    ensures
        tally_lookup(out, verb) is None,
    decreases out.len(),
{
    if out.len() > 0 {
        assert forall|i: int| 0 <= i < out.len() - 1 implies (#[trigger] out.drop_first()[i]).verb@ != verb by {
            assert(out.drop_first()[i] == out[i + 1]);
        }
        lemma_lookup_absent(out.drop_first(), verb);
    }
}

/// In distinct tallies, a verb's lookup is the tally that has it, or nothing.
proof fn lemma_lookup_distinct(out: Seq<VerbTally>, verb: Seq<char>)
    requires
        verbs_distinct(out),
    ensures
        (exists|j: int| 0 <= j < out.len() && (#[trigger] out[j]).verb@ == verb) ==> tally_lookup(out, verb)
            == Some(tally_view(out[choose|j: int| 0 <= j < out.len() && (#[trigger] out[j]).verb@ == verb])),
        (forall|j: int| 0 <= j < out.len() ==> (#[trigger] out[j]).verb@ != verb) ==> tally_lookup(out, verb) is None,
{
    if exists|j: int| 0 <= j < out.len() && (#[trigger] out[j]).verb@ == verb {
        let j = choose|j: int| 0 <= j < out.len() && (#[trigger] out[j]).verb@ == verb;
        assert forall|i: int| 0 <= i < j implies (#[trigger] out[i]).verb@ != out[j].verb@ by {
            assert(out[i].verb@ != out[j].verb@);
        }
        lemma_lookup_at(out, j);
    } else {
        lemma_lookup_absent(out, verb);
    }
}

fn find_tally(out: &Vec<VerbTally>, verb: &str) -> (r: Option<usize>)
    ensures
        match r {
            Some(j) => j < out@.len() && out@[j as int].verb@ == verb@,
            None => forall|i: int| 0 <= i < out@.len() ==> (#[trigger] out@[i]).verb@ != verb@,
        },
{
    let mut i: usize = 0;
    while i < out.len()
        invariant
            i <= out@.len(),
            forall|k: int| 0 <= k < i ==> (#[trigger] out@[k]).verb@ != verb@,
        decreases out.len() - i,
    {
        if str_eq(out[i].verb.as_str(), verb) {
            return Some(i);
        }
        i = i + 1;
    }
    None
}

/// Counts one more observation of `verb` between `lo` and `hi`.
fn add_observation(out: &mut Vec<VerbTally>, verb: &String, lo: i32, hi: i32, loose: bool)
    requires
        verbs_distinct(old(out)@),
        forall|i: int| 0 <= i < old(out)@.len() ==> (#[trigger] old(out)@[i]).obs < i64::MAX,
    ensures
        verbs_distinct(final(out)@),
        forall|v: Seq<char>| #[trigger]
            tally_lookup(final(out)@, v) == if v == verb@ {
                Some(tally_step(tally_lookup(old(out)@, v), lo as int, hi as int, loose))
            } else {
                tally_lookup(old(out)@, v)
            },
        final(out)@.len() >= old(out)@.len(),
        forall|i: int|
            0 <= i < final(out)@.len() ==> (#[trigger] final(out)@[i]).obs <= 1 + if i < old(out)@.len() {
                old(out)@[i].obs as int
            } else {
                0
            },
{
    let ghost prev = out@;
    match find_tally(out, verb.as_str()) {
        Some(j) => {
            let obs = out[j].obs;
            let old_min = out[j].min;
            let old_max = out[j].max;
            let old_loose = out[j].loose;
            let min = if lo < old_min {
                lo
            } else {
                old_min
            };
            let max = if hi > old_max {
                hi
            } else {
                old_max
            };
            let y = VerbTally { verb: verb.clone(), obs: obs + 1, min, max, loose: old_loose || loose };
            proof {
                lemma_lookup_distinct(prev, verb@);
            }
            out.set(j, y);
            proof {
                assert(out@ == prev.update(j as int, y));
                assert forall|i: int, k: int| 0 <= i < k < out@.len() implies #[trigger] out@[i].verb@
                    != #[trigger] out@[k].verb@ by {
                    assert(prev[i].verb@ != prev[k].verb@);
                }
                assert forall|v: Seq<char>| #[trigger]
                    tally_lookup(out@, v) == if v == verb@ {
                        Some(tally_step(tally_lookup(prev, v), lo as int, hi as int, loose))
                    } else {
                        tally_lookup(prev, v)
                    } by {
                    lemma_lookup_distinct(out@, v);
                    lemma_lookup_distinct(prev, v);
                    if v == verb@ {
                        assert(out@[j as int].verb@ == v);
                    } else {
                        if exists|i: int| 0 <= i < out@.len() && (#[trigger] out@[i]).verb@ == v {
                            let i = choose|i: int| 0 <= i < out@.len() && (#[trigger] out@[i]).verb@ == v;
                            assert(prev[i].verb@ == v);
                        }
                        if exists|i: int| 0 <= i < prev.len() && (#[trigger] prev[i]).verb@ == v {
                            let i = choose|i: int| 0 <= i < prev.len() && (#[trigger] prev[i]).verb@ == v;
                            assert(out@[i].verb@ == v);
                        }
                    }
                }
            }
        },
        None => {
            let y = VerbTally { verb: verb.clone(), obs: 1, min: lo, max: hi, loose };
            out.push(y);
            proof {
                assert(out@ == prev.push(y));
                assert forall|i: int, k: int| 0 <= i < k < out@.len() implies #[trigger] out@[i].verb@
                    != #[trigger] out@[k].verb@ by {
                    if k < prev.len() {
                        assert(prev[i].verb@ != prev[k].verb@);
                    } else {
                        assert(prev[i].verb@ != verb@);
                    }
                }
                assert forall|v: Seq<char>| #[trigger]
                    tally_lookup(out@, v) == if v == verb@ {
                        Some(tally_step(tally_lookup(prev, v), lo as int, hi as int, loose))
                    } else {
                        tally_lookup(prev, v)
                    } by {
                    lemma_lookup_distinct(out@, v);
                    lemma_lookup_distinct(prev, v);
                    if v == verb@ {
                        assert(out@[prev.len() as int].verb@ == v);
                    } else {
                        if exists|i: int| 0 <= i < out@.len() && (#[trigger] out@[i]).verb@ == v {
                            let i = choose|i: int| 0 <= i < out@.len() && (#[trigger] out@[i]).verb@ == v;
                            assert(i < prev.len());
                            assert(prev[i].verb@ == v);
                        }
                        if exists|i: int| 0 <= i < prev.len() && (#[trigger] prev[i]).verb@ == v {
                            let i = choose|i: int| 0 <= i < prev.len() && (#[trigger] prev[i]).verb@ == v;
                            assert(out@[i].verb@ == v);
                        }
                    }
                }
            }
        },
    }
}

/// The confirmed tally of each verb: one tally per verb that has a hit alone
/// in its batch, with the count, least and most of those hits' damage.
pub fn confirmed_tallies(rows: &[EventFacts]) -> (r: Vec<VerbTally>)
    requires
        rows@.len() < i64::MAX,
    ensures
        verbs_distinct(r@),
        forall|verb: Seq<char>| #[trigger] tally_lookup(r@, verb) == confirmed_tally(rows@, verb),
{
    let mut out: Vec<VerbTally> = Vec::new();
    let mut i: usize = 0;
    while i < rows.len()
        invariant
            i <= rows@.len(),
            rows@.len() < i64::MAX,
            verbs_distinct(out@),
            forall|k: int| 0 <= k < out@.len() ==> (#[trigger] out@[k]).obs <= i,
            forall|verb: Seq<char>| #[trigger] tally_lookup(out@, verb) == confirmed_tally(rows@.take(i as int), verb),
        decreases rows.len() - i,
    {
        assert(rows@.take(i + 1).drop_last() =~= rows@.take(i as int));
        let row = &rows[i];
        if row.candidate_count == 1 {
            add_observation(&mut out, &row.message_verb, row.hp_delta, row.hp_delta, false);
        }
        i = i + 1;
    }
    assert(rows@.take(rows@.len() as int) =~= rows@);
    out
}

/// The estimated tally of each verb: one tally per verb that has a hit in an
/// ambiguous batch, with the count, the least lower bound, the greatest upper
/// bound, and whether any bound was loose.
pub fn estimated_tallies(contributions: &[(String, EffectiveBounds)]) -> (r: Vec<VerbTally>)
    requires
        contributions@.len() < i64::MAX,
    ensures
        verbs_distinct(r@),
        forall|verb: Seq<char>| #[trigger] tally_lookup(r@, verb) == estimated_tally(contributions@, verb),
{
    let mut out: Vec<VerbTally> = Vec::new();
    let mut i: usize = 0;
    while i < contributions.len()
        invariant
            i <= contributions@.len(),
            contributions@.len() < i64::MAX,
            verbs_distinct(out@),
            forall|k: int| 0 <= k < out@.len() ==> (#[trigger] out@[k]).obs <= i,
            forall|verb: Seq<char>| #[trigger]
                tally_lookup(out@, verb) == estimated_tally(contributions@.take(i as int), verb),
        decreases contributions.len() - i,
    {
        assert(contributions@.take(i + 1).drop_last() =~= contributions@.take(i as int));
        let (verb, bounds) = &contributions[i];
        add_observation(&mut out, verb, bounds.min, bounds.max, bounds.loose);
        i = i + 1;
    }
    assert(contributions@.take(contributions@.len() as int) =~= contributions@);
    out
}

/// The batch of a group: that of its first row.
pub open spec fn group_batch(rows: Seq<EventFacts>, group: Seq<usize>) -> i64 {
    rows[group[0] as int].batch_id
}

/// `groups` holds, for each batch with an ambiguous hit among the rows, the
/// indices of that batch's ambiguous rows in row order, one group per batch.
pub open spec fn is_batch_grouping(rows: Seq<EventFacts>, groups: Seq<Vec<usize>>) -> bool {
    &&& forall|g: int| 0 <= g < groups.len() ==> (#[trigger] groups[g])@.len() > 0
    &&& forall|g: int, a: int|
        0 <= g < groups.len() && 0 <= a < groups[g]@.len() ==> {
            let k = #[trigger] groups[g]@[a] as int;
            &&& k < rows.len()
            &&& rows[k].candidate_count > 1
            &&& rows[k].batch_id == group_batch(rows, groups[g]@)
        }
    &&& forall|g: int, a: int, b: int|
        0 <= g < groups.len() && 0 <= a < b < groups[g]@.len() ==> #[trigger] groups[g]@[a] < #[trigger] groups[g]@[b]
    &&& forall|g: int, h: int|
        0 <= g < h < groups.len() ==> group_batch(rows, #[trigger] groups[g]@) != group_batch(rows, #[trigger] groups[h]@)
    &&& forall|k: int|
        0 <= k < rows.len() && (#[trigger] rows[k]).candidate_count > 1 ==> exists|g: int, a: int|
            0 <= g < groups.len() && 0 <= a < groups[g]@.len() && #[trigger] groups[g]@[a] == k
}

/// The grouping of the ambiguous rows before `i`.
#[verifier::opaque]
pub open spec fn grouping_upto(rows: Seq<EventFacts>, groups: Seq<Vec<usize>>, i: int) -> bool {
    &&& forall|g: int| 0 <= g < groups.len() ==> (#[trigger] groups[g])@.len() > 0
    &&& forall|g: int, a: int|
        0 <= g < groups.len() && 0 <= a < groups[g]@.len() ==> {
            let k = #[trigger] groups[g]@[a] as int;
            &&& k < i
            &&& rows[k].candidate_count > 1
            &&& rows[k].batch_id == group_batch(rows, groups[g]@)
        }
    &&& forall|g: int, a: int, b: int|
        0 <= g < groups.len() && 0 <= a < b < groups[g]@.len() ==> #[trigger] groups[g]@[a] < #[trigger] groups[g]@[b]
    &&& forall|g: int, h: int|
        0 <= g < h < groups.len() ==> group_batch(rows, #[trigger] groups[g]@) != group_batch(rows, #[trigger] groups[h]@)
    &&& forall|k: int|
        0 <= k < i && (#[trigger] rows[k]).candidate_count > 1 ==> exists|g: int, a: int|
            0 <= g < groups.len() && 0 <= a < groups[g]@.len() && #[trigger] groups[g]@[a] == k
}

proof fn lemma_grouping_first(rows: Seq<EventFacts>, groups: Seq<Vec<usize>>, i: int)
    requires
        grouping_upto(rows, groups, i),
    ensures
        forall|g: int| 0 <= g < groups.len() ==> (#[trigger] groups[g])@.len() > 0 && groups[g]@[0] < i,
{
    reveal(grouping_upto);
    assert forall|g: int| 0 <= g < groups.len() implies (#[trigger] groups[g])@.len() > 0 && groups[g]@[0] < i by {
        assert(groups[g]@.len() > 0);
        let k = groups[g]@[0];
    }
}

proof fn lemma_grouping_skip(rows: Seq<EventFacts>, groups: Seq<Vec<usize>>, i: int)
    requires
        grouping_upto(rows, groups, i),
        0 <= i < rows.len(),
        rows[i].candidate_count <= 1,
    ensures
        grouping_upto(rows, groups, i + 1),
{
    reveal(grouping_upto);
    assert forall|k: int|
        0 <= k < i + 1 && (#[trigger] rows[k]).candidate_count > 1 implies exists|g: int, a: int|
        0 <= g < groups.len() && 0 <= a < groups[g]@.len() && #[trigger] groups[g]@[a] == k by {
        assert(k < i);
    }
}

proof fn lemma_grouping_join(rows: Seq<EventFacts>, prev: Seq<Vec<usize>>, next: Seq<Vec<usize>>, g: int, i: int)
    requires
        grouping_upto(rows, prev, i),
        0 <= i < rows.len(),
        rows.len() <= usize::MAX,
        rows[i].candidate_count > 1,
        0 <= g < prev.len(),
        group_batch(rows, prev[g]@) == rows[i].batch_id,
        next.len() == prev.len(),
        next[g]@ == prev[g]@.push(i as usize),
        forall|x: int| 0 <= x < prev.len() && x != g ==> #[trigger] next[x] == prev[x],
    ensures
        grouping_upto(rows, next, i + 1),
{
    reveal(grouping_upto);
    assert(prev[g]@.len() > 0);
    assert(next[g]@[0] == prev[g]@[0]);
    assert forall|x: int| 0 <= x < next.len() implies group_batch(rows, (#[trigger] next[x])@) == group_batch(
        rows,
        prev[x]@,
    ) by {
        if x != g {
            assert(next[x] == prev[x]);
        }
    }
    assert forall|x: int| 0 <= x < next.len() implies (#[trigger] next[x])@.len() > 0 by {
        if x != g {
            assert(next[x] == prev[x]);
        }
    }
    assert forall|x: int, a: int| 0 <= x < next.len() && 0 <= a < next[x]@.len() implies {
        let k = #[trigger] next[x]@[a] as int;
        &&& k < i + 1
        &&& rows[k].candidate_count > 1
        &&& rows[k].batch_id == group_batch(rows, next[x]@)
    } by {
        if x != g {
            assert(next[x] == prev[x]);
            assert(prev[x]@[a] == next[x]@[a]);
        } else if a < prev[g]@.len() {
            assert(prev[g]@[a] == next[g]@[a]);
        }
    }
    assert forall|x: int, a: int, b: int|
        0 <= x < next.len() && 0 <= a < b < next[x]@.len() implies #[trigger] next[x]@[a] < #[trigger] next[x]@[b] by {
        if x != g {
            assert(next[x] == prev[x]);
            assert(prev[x]@[a] == next[x]@[a]);
            assert(prev[x]@[b] == next[x]@[b]);
        } else {
            assert(prev[g]@[a] == next[g]@[a]);
            if b < prev[g]@.len() {
                assert(prev[g]@[b] == next[g]@[b]);
            } else {
                assert((prev[g]@[a] as int) < i);
            }
        }
    }
    assert forall|x: int, y: int| 0 <= x < y < next.len() implies group_batch(rows, #[trigger] next[x]@)
        != group_batch(rows, #[trigger] next[y]@) by {
        assert(group_batch(rows, prev[x]@) != group_batch(rows, prev[y]@));
    }
    assert forall|k: int|
        0 <= k < i + 1 && (#[trigger] rows[k]).candidate_count > 1 implies exists|x: int, a: int|
        0 <= x < next.len() && 0 <= a < next[x]@.len() && #[trigger] next[x]@[a] == k by {
        if k < i {
            let (x, a) = choose|x: int, a: int|
                0 <= x < prev.len() && 0 <= a < prev[x]@.len() && #[trigger] prev[x]@[a] == k;
            if x != g {
                assert(next[x] == prev[x]);
            }
            assert(next[x]@[a] == k);
        } else {
            assert(next[g]@[prev[g]@.len() as int] == k);
        }
    }
}

proof fn lemma_grouping_open(rows: Seq<EventFacts>, prev: Seq<Vec<usize>>, v: Vec<usize>, i: int)
    requires
        grouping_upto(rows, prev, i),
        0 <= i < rows.len(),
        rows.len() <= usize::MAX,
        rows[i].candidate_count > 1,
        forall|x: int| 0 <= x < prev.len() ==> group_batch(rows, (#[trigger] prev[x])@) != rows[i].batch_id,
        v@ == seq![i as usize],
    ensures
        grouping_upto(rows, prev.push(v), i + 1),
{
    reveal(grouping_upto);
    let next = prev.push(v);
    assert(group_batch(rows, v@) == rows[i].batch_id);
    assert forall|x: int, a: int| 0 <= x < next.len() && 0 <= a < next[x]@.len() implies {
        let k = #[trigger] next[x]@[a] as int;
        &&& k < i + 1
        &&& rows[k].candidate_count > 1
        &&& rows[k].batch_id == group_batch(rows, next[x]@)
    } by {
        if x < prev.len() {
            assert(next[x] == prev[x]);
        }
    }
    assert forall|x: int, a: int, b: int|
        0 <= x < next.len() && 0 <= a < b < next[x]@.len() implies #[trigger] next[x]@[a] < #[trigger] next[x]@[b] by {
        assert(x < prev.len());
        assert(next[x] == prev[x]);
    }
    assert forall|x: int, y: int| 0 <= x < y < next.len() implies group_batch(rows, #[trigger] next[x]@)
        != group_batch(rows, #[trigger] next[y]@) by {
        assert(next[x] == prev[x]);
        if y < prev.len() {
            assert(next[y] == prev[y]);
        }
    }
    assert forall|k: int|
        0 <= k < i + 1 && (#[trigger] rows[k]).candidate_count > 1 implies exists|x: int, a: int|
        0 <= x < next.len() && 0 <= a < next[x]@.len() && #[trigger] next[x]@[a] == k by {
        if k < i {
            let (x, a) = choose|x: int, a: int|
                0 <= x < prev.len() && 0 <= a < prev[x]@.len() && #[trigger] prev[x]@[a] == k;
            assert(next[x] == prev[x]);
            assert(next[x]@[a] == k);
        } else {
            assert(next[prev.len() as int]@[0] == k);
        }
    }
}

proof fn lemma_grouping_done(rows: Seq<EventFacts>, groups: Seq<Vec<usize>>)
    requires
        grouping_upto(rows, groups, rows.len() as int),
    ensures
        is_batch_grouping(rows, groups),
{
    reveal(grouping_upto);
}

/// The ambiguous rows (those recorded with other candidates) grouped by batch.
pub fn group_batches(rows: &[EventFacts]) -> (r: Vec<Vec<usize>>)
    ensures
        is_batch_grouping(rows@, r@),
{
    let mut groups: Vec<Vec<usize>> = Vec::new();
    let mut i: usize = 0;
    proof {
        reveal(grouping_upto);
    }
    while i < rows.len()
        invariant
            i <= rows@.len(),
            grouping_upto(rows@, groups@, i as int),
        decreases rows.len() - i,
    {
        let ghost prev = groups@;
        if rows[i].candidate_count > 1 {
            let batch = rows[i].batch_id;
            proof {
                lemma_grouping_first(rows@, prev, i as int);
            }
            let mut g: usize = 0;
            let mut found = false;
            while g < groups.len() && !found
                invariant
                    g <= groups@.len(),
                    groups@ == prev,
                    forall|x: int| 0 <= x < prev.len() ==> (#[trigger] prev[x])@.len() > 0 && prev[x]@[0] < i,
                    i < rows@.len(),
                    batch == rows@[i as int].batch_id,
                    !found ==> forall|x: int| 0 <= x < g ==> group_batch(rows@, (#[trigger] prev[x])@) != batch,
                    found ==> g < prev.len() && group_batch(rows@, prev[g as int]@) == batch,
                decreases groups.len() - g + if found {
                    0int
                } else {
                    1int
                },
            {
                let first = groups[g][0];
                if rows[first].batch_id == batch {
                    found = true;
                } else {
                    g = g + 1;
                }
            }
            if found {
                let mut grp = groups.remove(g);
                grp.push(i);
                groups.insert(g, grp);
                proof {
                    assert(groups@ =~= prev.update(g as int, grp));
                    lemma_grouping_join(rows@, prev, groups@, g as int, i as int);
                }
            } else {
                let mut grp: Vec<usize> = Vec::new();
                grp.push(i);
                groups.push(grp);
                proof {
                    assert(grp@ =~= seq![i]);
                    lemma_grouping_open(rows@, prev, grp, i as int);
                }
            }
        } else {
            proof {
                lemma_grouping_skip(rows@, prev, i as int);
            }
        }
        i = i + 1;
    }
    proof {
        lemma_grouping_done(rows@, groups@);
    }
    groups
}

/// A hit alone in its batch is never estimated: where every row was recorded
/// alone, there is no batch to estimate.
pub proof fn law_isolated_rows_form_no_batches(rows: Seq<EventFacts>, groups: Seq<Vec<usize>>)
    requires
        forall|k: int| 0 <= k < rows.len() ==> (#[trigger] rows[k]).candidate_count == 1,
        is_batch_grouping(rows, groups),
    ensures
        groups.len() == 0,
{
    if groups.len() > 0 {
        let k = groups[0]@[0] as int;
        assert(rows[k].candidate_count > 1);
    }
}

/// Ambiguous hits do not change the confirmed tallies.
pub proof fn law_confirmed_ignores_ambiguous(rows: Seq<EventFacts>, row: EventFacts, verb: Seq<char>)
    requires
        row.candidate_count != 1,
    ensures
        confirmed_tally(rows.push(row), verb) == confirmed_tally(rows, verb),
{
    assert(rows.push(row).drop_last() =~= rows);
}

} // verus!
