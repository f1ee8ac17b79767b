//! Lists of key and value pairs read as maps: a later pair replaces an
//! earlier one with the same key.
use vstd::prelude::*;

verus! {

/// The map that a list of pairs builds: a later pair replaces an earlier one
/// with the same key.
pub open spec fn map_of<V>(s: Seq<(Seq<char>, V)>) -> Map<Seq<char>, V>
    decreases s.len(),
{
    if s.len() == 0 {
        Map::empty()
    } else {
        map_of(s.drop_last()).insert(s.last().0, s.last().1)
    }
}

/// Inserting a pair whose key no later pair has adds it to the map.
pub proof fn lemma_map_of_insert_at<V>(s: Seq<(Seq<char>, V)>, p: int, x: (Seq<char>, V))
    requires
        0 <= p <= s.len(),
        forall|j: int| p <= j < s.len() ==> #[trigger] s[j].0 != x.0,
    ensures
        map_of(s.insert(p, x)) == map_of(s).insert(x.0, x.1),
    decreases s.len(),
{
    if p == s.len() {
        assert(s.insert(p, x).drop_last() =~= s);
    } else {
        let l = s.last();
        assert(s.insert(p, x).drop_last() =~= s.drop_last().insert(p, x));
        assert(s.insert(p, x).last() == l);
        assert(s[s.len() - 1].0 != x.0);
        lemma_map_of_insert_at(s.drop_last(), p, x);
        assert(map_of(s.drop_last()).insert(x.0, x.1).insert(l.0, l.1) =~= map_of(
            s.drop_last(),
        ).insert(l.0, l.1).insert(x.0, x.1));
    }
}

/// Replacing the value of a pair whose key no later pair has updates the map.
pub proof fn lemma_map_of_update_at<V>(s: Seq<(Seq<char>, V)>, p: int, v: V)
    requires
        0 <= p < s.len(),
        forall|j: int| p < j < s.len() ==> #[trigger] s[j].0 != s[p].0,
    ensures
        map_of(s.update(p, (s[p].0, v))) == map_of(s).insert(s[p].0, v),
    decreases s.len(),
{
    let k = s[p].0;
    let l = s.last();
    if p == s.len() - 1 {
        assert(s.update(p, (k, v)).drop_last() =~= s.drop_last());
        assert(map_of(s.drop_last()).insert(k, v) =~= map_of(s.drop_last()).insert(l.0, l.1).insert(
            k,
            v,
        ));
    } else {
        assert(s.update(p, (k, v)).drop_last() =~= s.drop_last().update(p, (k, v)));
        assert(s.update(p, (k, v)).last() == l);
        assert(s[s.len() - 1].0 != k);
        assert(s.drop_last()[p].0 == k);
        lemma_map_of_update_at(s.drop_last(), p, v);
        assert(map_of(s.drop_last()).insert(k, v).insert(l.0, l.1) =~= map_of(s.drop_last()).insert(
            l.0,
            l.1,
        ).insert(k, v));
    }
}

/// The map built by the first `n + 1` pairs adds the pair at `n` to that of the first `n`.
pub proof fn lemma_map_of_take_step<V>(s: Seq<(Seq<char>, V)>, n: int)
    requires
        0 <= n < s.len(),
    ensures
        map_of(s.take(n + 1)) == map_of(s.take(n)).insert(s[n].0, s[n].1),
{
    assert(s.take(n + 1).drop_last() =~= s.take(n));
}

/// No key occurs twice.
pub open spec fn keys_distinct<V>(s: Seq<(Seq<char>, V)>) -> bool {
    forall|i: int, j: int| #![trigger s[i], s[j]] 0 <= i < j < s.len() ==> s[i].0 != s[j].0
}

/// The map holds exactly the keys of the list.
pub proof fn lemma_map_of_dom<V>(s: Seq<(Seq<char>, V)>, k: Seq<char>)
    ensures
        map_of(s).dom().contains(k) <==> exists|i: int| 0 <= i < s.len() && #[trigger] s[i].0 == k,
    decreases s.len(),
{
    if s.len() > 0 {
        let d = s.drop_last();
        lemma_map_of_dom(d, k);
        if exists|i: int| 0 <= i < d.len() && #[trigger] d[i].0 == k {
            let i = choose|i: int| 0 <= i < d.len() && #[trigger] d[i].0 == k;
            assert(s[i].0 == k);
        }
        if exists|i: int| 0 <= i < s.len() && #[trigger] s[i].0 == k {
            let i = choose|i: int| 0 <= i < s.len() && #[trigger] s[i].0 == k;
            if i < s.len() - 1 {
                assert(d[i].0 == k);
            }
        }
    }
}

/// With distinct keys, the map gives each pair's value for its key.
pub proof fn lemma_map_of_val<V>(s: Seq<(Seq<char>, V)>, i: int)
    requires
        keys_distinct(s),
        0 <= i < s.len(),
    ensures
        map_of(s).dom().contains(s[i].0),
        map_of(s)[s[i].0] == s[i].1,
    decreases s.len(),
{
    if i < s.len() - 1 {
        let d = s.drop_last();
        assert(keys_distinct(d)) by {
            assert forall|a: int, b: int| #![trigger d[a], d[b]] 0 <= a < b < d.len() implies d[a].0 != d[b].0 by {
                assert(s[a] == d[a] && s[b] == d[b]);
            }
        }
        assert(d[i] == s[i]);
        lemma_map_of_val(d, i);
        assert(s[i].0 != s[s.len() - 1].0);
    }
}

/// With distinct keys, removing a pair removes its key.
pub proof fn lemma_map_of_remove<V>(s: Seq<(Seq<char>, V)>, i: int)
    requires
        keys_distinct(s),
        0 <= i < s.len(),
    ensures
        map_of(s.remove(i)) == map_of(s).remove(s[i].0),
        keys_distinct(s.remove(i)),
    decreases s.len(),
{
    let k = s[i].0;
    let d = s.drop_last();
    let l = s.last();
    assert(keys_distinct(d)) by {
        assert forall|a: int, b: int| #![trigger d[a], d[b]] 0 <= a < b < d.len() implies d[a].0 != d[b].0 by {
            assert(s[a] == d[a] && s[b] == d[b]);
        }
    }
    let r = s.remove(i);
    assert(keys_distinct(r)) by {
        assert forall|a: int, b: int| #![trigger r[a], r[b]] 0 <= a < b < r.len() implies r[a].0 != r[b].0 by {
            let a2 = if a < i { a } else { a + 1 };
            let b2 = if b < i { b } else { b + 1 };
            assert(r[a] == s[a2] && r[b] == s[b2]);
        }
    }
    if i == s.len() - 1 {
        assert(r =~= d);
        assert(!map_of(d).dom().contains(k)) by {
            lemma_map_of_dom(d, k);
            if exists|j: int| 0 <= j < d.len() && #[trigger] d[j].0 == k {
                let j = choose|j: int| 0 <= j < d.len() && #[trigger] d[j].0 == k;
                assert(s[j].0 == k);
            }
        }
        assert(map_of(d).insert(k, l.1).remove(k) =~= map_of(d));
    } else {
        assert(r.drop_last() =~= d.remove(i));
        assert(r.last() == l);
        assert(d[i] == s[i]);
        lemma_map_of_remove(d, i);
        assert(l.0 != k);
        assert(map_of(d).remove(k).insert(l.0, l.1) =~= map_of(d).insert(l.0, l.1).remove(k));
    }
}

} // verus!
