//! Whole-line templates: literal text with holes that stand for runs of
//! characters on one line (`.+` and `.*` between `^` and `$`).
use crate::scan_grammar::no_newline;
use crate::text::{occurs_at, occurs_at_exec};
use vstd::prelude::*;

verus! {

/// A piece of a template.
pub enum Piece {
    /// This text exactly.
    Lit(Vec<char>),
    /// At least `min` characters, none of them a newline.
    Hole(usize),
}

/// A piece as plain values.
pub enum PieceView {
    Lit(Seq<char>),
    Hole(nat),
}

pub open spec fn piece_view(p: Piece) -> PieceView {
    match p {
        Piece::Lit(t) => PieceView::Lit(t@),
        Piece::Hole(m) => PieceView::Hole(m as nat),
    }
}

pub open spec fn pieces_view(v: Seq<Piece>) -> Seq<PieceView> {
    v.map_values(|p: Piece| piece_view(p))
}

/// Whether the first `i` pieces of `pat` can match exactly `s[..k]`.
pub open spec fn reaches(pat: Seq<PieceView>, s: Seq<char>, i: int, k: int) -> bool
    decreases i, 0int,
{
    if i <= 0 {
        k == 0
    } else if i > pat.len() || k < 0 || k > s.len() {
        false
    } else {
        match pat[i - 1] {
            PieceView::Lit(t) => k >= t.len() && occurs_at(s, t, k - t.len()) && reaches(
                pat,
                s,
                i - 1,
                k - t.len(),
            ),
            PieceView::Hole(m) => k >= m && hole_from(pat, s, i - 1, k, k - m),
        }
    }
}

/// Whether the first `p` pieces match `s[..j']` for some `j' <= j` with no newline
/// in `s[j'..k]`.
pub open spec fn hole_from(pat: Seq<PieceView>, s: Seq<char>, p: int, k: int, j: int) -> bool
    decreases p, j + 1,
{
    if j < 0 || p < 0 {
        false
    } else {
        (no_newline(s.subrange(j, k)) && reaches(pat, s, p, j)) || hole_from(pat, s, p, k, j - 1)
    }
}

proof fn lemma_hole_blocked(pat: Seq<PieceView>, s: Seq<char>, p: int, k: int, j: int)
    requires
        0 <= j < k <= s.len(),
        s[j] == '\n',
    ensures
        !hole_from(pat, s, p, k, j),
    decreases j + 1,
{
    assert(s.subrange(j, k)[0] == '\n');
    if j > 0 {
        lemma_hole_blocked_below(pat, s, p, k, j - 1, j);
    } else {
        assert(!hole_from(pat, s, p, k, -1));
    }
}

proof fn lemma_hole_blocked_below(pat: Seq<PieceView>, s: Seq<char>, p: int, k: int, x: int, nl: int)
    requires
        0 <= x <= nl < k <= s.len(),
        s[nl] == '\n',
    ensures
        !hole_from(pat, s, p, k, x),
    decreases x + 1,
{
    assert(s.subrange(x, k)[nl - x] == '\n');
    if x > 0 {
        lemma_hole_blocked_below(pat, s, p, k, x - 1, nl);
    } else {
        assert(!hole_from(pat, s, p, k, -1));
    }
}

/// Whether the whole of `s` matches the template.
pub open spec fn template_matches(pat: Seq<PieceView>, s: Seq<char>) -> bool {
    reaches(pat, s, pat.len() as int, s.len() as int)
}

/// Whether the whole of `s` matches the template.
pub fn matches_template(pat: &[Piece], s: &[char]) -> (r: bool)
    requires
        s@.len() + 1 <= usize::MAX,
    ensures
        r == template_matches(pieces_view(pat@), s@),
{
    let ghost pv = pieces_view(pat@);
    let n = s.len();
    let mut cur: Vec<bool> = Vec::new();
    let mut k: usize = 0;
    while k <= n
        invariant
            n == s@.len(),
            n + 1 <= usize::MAX,
            k <= n + 1,
            cur@.len() == k,
            forall|x: int| 0 <= x < k ==> cur@[x] == reaches(pv, s@, 0, x),
        decreases n + 1 - k,
    {
        cur.push(k == 0);
        k = k + 1;
    }
    let mut i: usize = 0;
    while i < pat.len()
        invariant
            n == s@.len(),
            n + 1 <= usize::MAX,
            i <= pat@.len(),
            pv == pieces_view(pat@),
            cur@.len() == n + 1,
            forall|x: int| 0 <= x <= n ==> cur@[x] == reaches(pv, s@, i as int, x),
        decreases pat.len() - i,
    {
        let mut next: Vec<bool> = Vec::new();
        let mut k: usize = 0;
        while k <= n
            invariant
                n == s@.len(),
                n + 1 <= usize::MAX,
                i < pat@.len(),
                pv == pieces_view(pat@),
                cur@.len() == n + 1,
                forall|x: int| 0 <= x <= n ==> cur@[x] == reaches(pv, s@, i as int, x),
                k <= n + 1,
                next@.len() == k,
                forall|x: int| 0 <= x < k ==> next@[x] == reaches(pv, s@, i + 1, x),
            decreases n + 1 - k,
        {
            let v = match &pat[i] {
                Piece::Lit(t) => {
                    if t.len() <= k {
                        let j = k - t.len();
                        occurs_at_exec(s, t.as_slice(), j) && cur[j]
                    } else {
                        false
                    }
                },
                Piece::Hole(m) => hole_reach(s, cur.as_slice(), *m, k, Ghost(pv), Ghost(i as int)),
            };
            next.push(v);
            k = k + 1;
        }
        cur = next;
        i = i + 1;
    }
    cur[n]
}

/// Whether the first `i` pieces reach some `j <= k - m` from which `s[j..k]`
/// holds no newline.
fn hole_reach(
    s: &[char],
    cur: &[bool],
    m: usize,
    k: usize,
    Ghost(pv): Ghost<Seq<PieceView>>,
    Ghost(i): Ghost<int>,
) -> (r: bool)
    requires
        k <= s@.len(),
        cur@.len() == s@.len() + 1,
        0 <= i < pv.len(),
        pv[i] == PieceView::Hole(m as nat),
        forall|x: int| 0 <= x <= s@.len() ==> cur@[x] == reaches(pv, s@, i, x),
    ensures
        r == reaches(pv, s@, i + 1, k as int),
{
    proof {
        lemma_reaches_hole(pv, s@, i, k as int, m as nat);
    }
    if m > k {
        return false;
    }
    let start: usize = k - m;
    let mut t = start;
    while t < k
        invariant
            start <= t <= k <= s@.len(),
            start + m == k,
            no_newline(s@.subrange(start as int, t as int)),
            reaches(pv, s@, i + 1, k as int) == hole_from(pv, s@, i, k as int, start as int),
        decreases k - t,
    {
        if s[t] == '\n' {
            proof {
                lemma_hole_blocked(pv, s@, i, k as int, t as int);
                lemma_hole_down(pv, s@, i, k as int, start as int, t as int);
            }
            return false;
        }
        proof {
            assert(s@.subrange(start as int, t + 1) =~= s@.subrange(start as int, t as int).push(
                s@[t as int],
            ));
        }
        t = t + 1;
    }
    let mut j: usize = start;
    loop
        invariant
            j <= start,
            start + m == k,
            k <= s@.len(),
            cur@.len() == s@.len() + 1,
            0 <= i < pv.len(),
            pv[i] == PieceView::Hole(m as nat),
            forall|x: int| 0 <= x <= s@.len() ==> cur@[x] == reaches(pv, s@, i, x),
            no_newline(s@.subrange(j as int, k as int)),
            reaches(pv, s@, i + 1, k as int) == hole_from(pv, s@, i, k as int, start as int),
            hole_from(pv, s@, i, k as int, start as int) == hole_from(pv, s@, i, k as int, j as int),
        decreases j,
    {
        if cur[j] {
            return true;
        }
        if j == 0 {
            assert(!hole_from(pv, s@, i, k as int, -1));
            return false;
        }
        if s[j - 1] == '\n' {
            proof {
                lemma_hole_blocked(pv, s@, i, k as int, j - 1);
            }
            return false;
        }
        proof {
            assert(s@.subrange(j - 1, k as int) =~= seq![s@[j - 1]] + s@.subrange(j as int, k as int));
        }
        j = j - 1;
    }
}

proof fn lemma_reaches_hole(pv: Seq<PieceView>, s: Seq<char>, i: int, k: int, m: nat)
    requires
        0 <= i < pv.len(),
        pv[i] == PieceView::Hole(m),
        0 <= k <= s.len(),
    ensures
        reaches(pv, s, i + 1, k) == (k >= m && hole_from(pv, s, i, k, k - m)),
{
    let ii = i + 1;
    assert(ii - 1 == i);
}

/// Below a newline nothing is reached, so scanning down from `start` finds nothing.
proof fn lemma_hole_down(pat: Seq<PieceView>, s: Seq<char>, p: int, k: int, start: int, nl: int)
    requires
        0 <= start <= nl < k <= s.len(),
        s[nl] == '\n',
    ensures
        !hole_from(pat, s, p, k, start),
{
    lemma_hole_blocked_below(pat, s, p, k, start, nl);
}

} // verus!
