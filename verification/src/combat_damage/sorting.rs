//! Sorting the viewer's tables by one column, ascending or descending, with
//! rows that compare equal kept in the order they came.
use crate::text::{chars_of, lemma_seq_less_irrefl, lemma_seq_less_total, lemma_seq_less_trans, seq_less, seq_less_exec};
use vstd::prelude::*;

verus! {

/// A row's value in the sort column: text, a count, or an amount that may be
/// missing (missing amounts sort after all present ones).
#[derive(Debug, Clone)]
pub enum ColumnKey {
    Text(String),
    Count(i64),
    Amount(Option<i32>),
}

/// Whether `a` sorts strictly before `b` in ascending order.
pub open spec fn key_before(a: ColumnKey, b: ColumnKey) -> bool {
    match (a, b) {
        (ColumnKey::Text(x), ColumnKey::Text(y)) => seq_less(x@, y@),
        (ColumnKey::Count(x), ColumnKey::Count(y)) => x < y,
        (ColumnKey::Amount(x), ColumnKey::Amount(y)) => match (x, y) {
            (Some(p), Some(q)) => p < q,
            (Some(_), None) => true,
            _ => false,
        },
        _ => false,
    }
}

/// Whether `a` sorts strictly before `b` in the chosen direction.
pub open spec fn goes_before(a: ColumnKey, b: ColumnKey, descending: bool) -> bool {
    if descending {
        key_before(b, a)
    } else {
        key_before(a, b)
    }
}

/// The two keys come from the same kind of column.
pub open spec fn same_kind(a: ColumnKey, b: ColumnKey) -> bool {
    ||| (a is Text && b is Text)
    ||| (a is Count && b is Count)
    ||| (a is Amount && b is Amount)
}

/// All keys come from one kind of column.
pub open spec fn one_kind(keys: Seq<ColumnKey>) -> bool {
    forall|i: int, j: int| 0 <= i < keys.len() && 0 <= j < keys.len() ==> same_kind(#[trigger] keys[i], #[trigger] keys[j])
}

/// `order` lists each row index once, sorted by its key in the chosen
/// direction, rows with equal keys in their original order.
pub open spec fn is_stable_order(keys: Seq<ColumnKey>, order: Seq<usize>, descending: bool) -> bool {
    &&& order.len() == keys.len()
    &&& forall|i: int| 0 <= i < order.len() ==> (#[trigger] order[i]) < keys.len()
    &&& forall|i: int, j: int| 0 <= i < j < order.len() ==> #[trigger] order[i] != #[trigger] order[j]
    &&& forall|i: int, j: int|
        0 <= i < j < order.len() ==> !goes_before(keys[#[trigger] order[j] as int], keys[#[trigger] order[i] as int], descending)
    &&& forall|i: int, j: int|
        0 <= i < j < order.len() && !goes_before(keys[#[trigger] order[i] as int], keys[#[trigger] order[j] as int], descending)
            ==> order[i] < order[j]
}

proof fn lemma_key_irrefl(a: ColumnKey)
    ensures
        !key_before(a, a),
{
    if let ColumnKey::Text(x) = a {
        lemma_seq_less_irrefl(x@);
    }
}

proof fn lemma_key_trans(a: ColumnKey, b: ColumnKey, c: ColumnKey)
    requires
        key_before(a, b),
        key_before(b, c),
    ensures
        key_before(a, c),
{
    if let (ColumnKey::Text(x), ColumnKey::Text(y), ColumnKey::Text(z)) = (a, b, c) {
        lemma_seq_less_trans(x@, y@, z@);
    }
}

/// In one kind of column, `a` before `b` and `c` not before `b` put `a` before `c`.
proof fn lemma_key_negative_trans(a: ColumnKey, b: ColumnKey, c: ColumnKey)
    requires
        same_kind(b, c),
        key_before(a, b),
        !key_before(c, b),
    ensures
        key_before(a, c),
{
    match (b, c) {
        (ColumnKey::Text(y), ColumnKey::Text(z)) => {
            if y@ != z@ {
                lemma_seq_less_total(y@, z@);
                lemma_key_trans(a, b, c);
            }
        },
        _ => {},
    }
}

proof fn lemma_goes_asym(a: ColumnKey, b: ColumnKey, descending: bool)
    requires
        goes_before(a, b, descending),
    ensures
        !goes_before(b, a, descending),
{
    if descending {
        if key_before(a, b) {
            lemma_key_trans(b, a, b);
            lemma_key_irrefl(b);
        }
    } else {
        if key_before(b, a) {
            lemma_key_trans(a, b, a);
            lemma_key_irrefl(a);
        }
    }
}

proof fn lemma_goes_negative_trans(a: ColumnKey, b: ColumnKey, c: ColumnKey, descending: bool)
    requires
        same_kind(a, b),
        same_kind(b, c),
        same_kind(a, c),
        goes_before(a, b, descending),
        !goes_before(c, b, descending),
    ensures
        goes_before(a, c, descending),
{
    if descending {
        // b before a, b not after c: c before a.
        if !key_before(c, a) {
            lemma_key_negative_trans(b, a, c);
            assert(key_before(b, c));
        }
    } else {
        lemma_key_negative_trans(a, b, c);
    }
}

fn key_before_exec(a: &ColumnKey, b: &ColumnKey) -> (r: bool)
    ensures
        r == key_before(*a, *b),
{
    match (a, b) {
        (ColumnKey::Text(x), ColumnKey::Text(y)) => {
            let xs = chars_of(x.as_str());
            let ys = chars_of(y.as_str());
            seq_less_exec(xs.as_slice(), ys.as_slice())
        },
        (ColumnKey::Count(x), ColumnKey::Count(y)) => *x < *y,
        (ColumnKey::Amount(x), ColumnKey::Amount(y)) => match (x, y) {
            (Some(p), Some(q)) => *p < *q,
            (Some(_), None) => true,
            _ => false,
        },
        _ => false,
    }
}

fn goes_before_exec(a: &ColumnKey, b: &ColumnKey, descending: bool) -> (r: bool)
    ensures
        r == goes_before(*a, *b, descending),
{
    if descending {
        key_before_exec(b, a)
    } else {
        key_before_exec(a, b)
    }
}

/// The rows before `n` in stable order.
pub open spec fn sorted_prefix(keys: Seq<ColumnKey>, order: Seq<usize>, n: int, descending: bool) -> bool {
    &&& order.len() == n
    &&& forall|i: int| 0 <= i < order.len() ==> (#[trigger] order[i]) < n
    &&& forall|i: int, j: int| 0 <= i < j < order.len() ==> #[trigger] order[i] != #[trigger] order[j]
    &&& forall|i: int, j: int|
        0 <= i < j < order.len() ==> !goes_before(keys[#[trigger] order[j] as int], keys[#[trigger] order[i] as int], descending)
    &&& forall|i: int, j: int|
        0 <= i < j < order.len() && !goes_before(keys[#[trigger] order[i] as int], keys[#[trigger] order[j] as int], descending)
            ==> order[i] < order[j]
}

proof fn lemma_insert_keeps_order(keys: Seq<ColumnKey>, order: Seq<usize>, n: usize, p: int, descending: bool)
    requires
        sorted_prefix(keys, order, n as int, descending),
        n < keys.len(),
        one_kind(keys),
        0 <= p <= order.len(),
        forall|q: int| 0 <= q < p ==> !goes_before(keys[n as int], keys[#[trigger] order[q] as int], descending),
        p < order.len() ==> goes_before(keys[n as int], keys[order[p] as int], descending),
    ensures
        sorted_prefix(keys, order.insert(p, n), n + 1, descending),
{
    let o2 = order.insert(p, n);
    let kn = keys[n as int];
    assert forall|j: int| p < j < o2.len() implies goes_before(kn, keys[#[trigger] o2[j] as int], descending) by {
        assert(o2[j] == order[j - 1]);
        if j - 1 > p {
            assert(!goes_before(keys[order[j - 1] as int], keys[order[p] as int], descending));
            assert(same_kind(kn, keys[order[p] as int]));
            assert(same_kind(keys[order[p] as int], keys[order[j - 1] as int]));
            assert(same_kind(kn, keys[order[j - 1] as int]));
            lemma_goes_negative_trans(kn, keys[order[p] as int], keys[order[j - 1] as int], descending);
        }
    }
    assert forall|i: int| 0 <= i < o2.len() implies (#[trigger] o2[i]) < n + 1 by {
        if i < p {
            assert(o2[i] == order[i]);
        } else if i > p {
            assert(o2[i] == order[i - 1]);
        }
    }
    assert forall|i: int, j: int| 0 <= i < j < o2.len() implies #[trigger] o2[i] != #[trigger] o2[j] by {
        if i < p && j < p {
            assert(o2[i] == order[i] && o2[j] == order[j]);
        } else if i < p && j == p {
            assert(o2[i] == order[i]);
        } else if i < p {
            assert(o2[i] == order[i] && o2[j] == order[j - 1]);
        } else if i == p {
            assert(o2[j] == order[j - 1]);
        } else {
            assert(o2[i] == order[i - 1] && o2[j] == order[j - 1]);
        }
    }
    assert forall|i: int, j: int| 0 <= i < j < o2.len() implies !goes_before(
        keys[#[trigger] o2[j] as int],
        keys[#[trigger] o2[i] as int],
        descending,
    ) by {
        if i < p && j < p {
            assert(o2[i] == order[i] && o2[j] == order[j]);
        } else if i < p && j == p {
            assert(o2[i] == order[i]);
        } else if i < p {
            assert(o2[i] == order[i] && o2[j] == order[j - 1]);
        } else if i == p {
            lemma_goes_asym(kn, keys[o2[j] as int], descending);
        } else {
            assert(o2[i] == order[i - 1] && o2[j] == order[j - 1]);
        }
    }
    assert forall|i: int, j: int|
        0 <= i < j < o2.len() && !goes_before(keys[#[trigger] o2[i] as int], keys[#[trigger] o2[j] as int], descending)
        implies o2[i] < o2[j] by {
        if i < p && j < p {
            assert(o2[i] == order[i] && o2[j] == order[j]);
        } else if i < p && j == p {
            assert(o2[i] == order[i]);
        } else if i < p {
            assert(o2[i] == order[i] && o2[j] == order[j - 1]);
        } else if i == p {
        } else {
            assert(o2[i] == order[i - 1] && o2[j] == order[j - 1]);
        }
    }
}

/// The rows in order of their keys in one column, ascending or descending;
/// rows with equal keys keep the order they came in.
pub fn stable_order(keys: &[ColumnKey], descending: bool) -> (r: Vec<usize>)
    requires
        one_kind(keys@),
    ensures
        is_stable_order(keys@, r@, descending),
{
    let mut order: Vec<usize> = Vec::new();
    let mut n: usize = 0;
    while n < keys.len()
        invariant
            n <= keys@.len(),
            one_kind(keys@),
            sorted_prefix(keys@, order@, n as int, descending),
        decreases keys.len() - n,
    {
        let mut p: usize = 0;
        while p < order.len() && !goes_before_exec(&keys[n], &keys[order[p]], descending)
            invariant
                p <= order@.len(),
                n < keys@.len(),
                sorted_prefix(keys@, order@, n as int, descending),
                forall|q: int| 0 <= q < p ==> !goes_before(keys@[n as int], keys@[#[trigger] order@[q] as int], descending),
            decreases order.len() - p,
        {
            p = p + 1;
        }
        proof {
            lemma_insert_keeps_order(keys@, order@, n, p as int, descending);
        }
        order.insert(p, n);
        n = n + 1;
    }
    order
}

} // verus!
