//! The parameter list of a "select graphic rendition" escape (`ESC [ ... m`).
use crate::text::parse_unsigned;
use crate::text::parse_unsigned_chars;
use vstd::prelude::*;

verus! {

/// Index of the last `m` from `k` on before the end of the line (a `\n` ends it),
/// or `best` where there is none.
pub open spec fn last_m_from(t: Seq<char>, k: int, best: Option<int>) -> Option<int>
    decreases t.len() - k,
{
    if k < 0 || k >= t.len() || t[k] == '\n' {
        best
    } else if t[k] == 'm' {
        last_m_from(t, k + 1, Some(k))
    } else {
        last_m_from(t, k + 1, best)
    }
}

/// The parameters of the leftmost `ESC [ ... m` in `t` from index `i` on, the
/// parameters running to the last `m` on that line.
pub open spec fn sgr_body_from(t: Seq<char>, i: int) -> Option<Seq<char>>
    decreases t.len() - i,
{
    if i < 0 || i + 1 >= t.len() {
        None
    } else if t[i] == '\u{1b}' && t[i + 1] == '[' {
        match last_m_from(t, i + 2, None) {
            Some(j) => Some(t.subrange(i + 2, j)),
            None => sgr_body_from(t, i + 1),
        }
    } else {
        sgr_body_from(t, i + 1)
    }
}

/// The pieces of `s` between occurrences of `sep` (`str::split`): there is always
/// at least one piece.
pub open spec fn split_on(s: Seq<char>, sep: char) -> Seq<Seq<char>>
    decreases s.len(),
{
    if s.len() == 0 {
        seq![Seq::<char>::empty()]
    } else {
        let p = split_on(s.drop_last(), sep);
        if s.last() == sep {
            p.push(Seq::<char>::empty())
        } else {
            p.update(p.len() - 1, p.last().push(s.last()))
        }
    }
}

/// The pieces that read as a `u8`, in order.
pub open spec fn parsed_codes(pieces: Seq<Seq<char>>) -> Seq<u8>
    decreases pieces.len(),
{
    if pieces.len() == 0 {
        seq![]
    } else {
        let rest = parsed_codes(pieces.drop_last());
        match parse_unsigned(pieces.last(), 255) {
            Some(v) => rest.push(v as u8),
            None => rest,
        }
    }
}

/// The SGR codes of an escape sequence's text: its `;`-separated parameters
/// that read as a `u8`; none where the text holds no `ESC [ ... m`.
pub open spec fn sgr_codes_of_block(t: Seq<char>) -> Seq<u8> {
    match sgr_body_from(t, 0) {
        Some(body) => parsed_codes(split_on(body, ';')),
        None => seq![],
    }
}

proof fn lemma_split_nonempty(s: Seq<char>, sep: char)
    ensures
        split_on(s, sep).len() >= 1,
    decreases s.len(),
{
    if s.len() > 0 {
        lemma_split_nonempty(s.drop_last(), sep);
    }
}

/// Index of the last `m` on the line from `start` on.
fn last_m_exec(t: &[char], start: usize) -> (r: Option<usize>)
    requires
        start <= t@.len(),
    ensures
        r matches Some(j) ==> start <= j < t@.len() && last_m_from(t@, start as int, None) == Some(
            j as int,
        ),
        r is None ==> last_m_from(t@, start as int, None) is None,
{
    let mut best: Option<usize> = None;
    let mut k = start;
    while k < t.len() && t[k] != '\n'
        invariant
            start <= k <= t@.len(),
            last_m_from(t@, start as int, None) == last_m_from(
                t@,
                k as int,
                match best {
                    Some(b) => Some(b as int),
                    None => None,
                },
            ),
            best matches Some(b) ==> start <= b < k,
        decreases t.len() - k,
    {
        if t[k] == 'm' {
            best = Some(k);
        }
        k = k + 1;
    }
    best
}

/// Start and end of the parameters of the leftmost `ESC [ ... m` in `t`.
fn sgr_body_span(t: &[char]) -> (r: Option<(usize, usize)>)
    ensures
        match sgr_body_from(t@, 0) {
            Some(body) => r matches Some((a, b)) && a <= b <= t@.len() && body == t@.subrange(
                a as int,
                b as int,
            ),
            None => r is None,
        },
{
    let mut i: usize = 0;
    while i < t.len() && i + 1 < t.len()
        invariant
            i <= t@.len(),
            sgr_body_from(t@, 0) == sgr_body_from(t@, i as int),
        decreases t.len() - i,
    {
        if t[i] == '\u{1b}' && t[i + 1] == '[' {
            if let Some(j) = last_m_exec(t, i + 2) {
                return Some((i + 2, j));
            }
        }
        i = i + 1;
    }
    None
}

/// The SGR codes of an escape sequence's text.
pub fn parse_sgr_block(t: &[char]) -> (r: Vec<u8>)
    ensures
        r@ == sgr_codes_of_block(t@),
{
    let span = sgr_body_span(t);
    let (a, b) = match span {
        Some(ab) => ab,
        None => {
            return Vec::new();
        },
    };
    let ghost body = t@.subrange(a as int, b as int);
    let mut codes: Vec<u8> = Vec::new();
    let mut cur: Vec<char> = Vec::new();
    let mut k = a;
    proof {
        assert(body.take(0) =~= Seq::<char>::empty());
    }
    while k < b
        invariant
            a <= k <= b <= t@.len(),
            body == t@.subrange(a as int, b as int),
            split_on(body.take(k - a), ';').len() >= 1,
            codes@ == parsed_codes(split_on(body.take(k - a), ';').drop_last()),
            cur@ == split_on(body.take(k - a), ';').last(),
        decreases b - k,
    {
        let c = t[k];
        let ghost before = body.take(k - a);
        let ghost after = body.take(k + 1 - a);
        proof {
            assert(after.drop_last() =~= before);
            assert(after.last() == c);
            lemma_split_nonempty(after, ';');
        }
        if c == ';' {
            let ghost p = split_on(before, ';');
            if let Some(v) = parse_unsigned_chars(cur.as_slice(), 255) {
                codes.push(v as u8);
            }
            proof {
                assert(split_on(after, ';').drop_last() =~= p);
            }
            cur = Vec::new();
        } else {
            cur.push(c);
            proof {
                let p = split_on(before, ';');
                assert(split_on(after, ';').drop_last() =~= p.drop_last());
            }
        }
        k = k + 1;
    }
    proof {
        assert(body.take(b - a) =~= body);
        lemma_split_nonempty(body, ';');
    }
    if let Some(v) = parse_unsigned_chars(cur.as_slice(), 255) {
        codes.push(v as u8);
    }
    codes
}

} // verus!
