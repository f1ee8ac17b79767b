//! Third-person forms of hit verbs ("you gash" becomes "he gashes").
use crate::text::{chars_of, is_prefix, is_suffix, is_whitespace_char, is_ws, push_all, string_of};
use vstd::prelude::*;

verus! {

/// Unicode lower-casing of `s`, as `str::to_lowercase` does it.
pub uninterp spec fn unicode_lowercase(s: Seq<char>) -> Seq<char>;

/// `str::to_lowercase`.
#[verifier::external_body]
fn to_lowercase(s: &str) -> (r: String)
    ensures
        r@ == unicode_lowercase(s@),
{
    s.to_lowercase()
}

/// Whether the verb takes `es` rather than `s`: its lower-cased form ends in
/// `s`, `x`, `z`, `ch` or `sh`.
pub open spec fn needs_es(word: Seq<char>) -> bool {
    let l = unicode_lowercase(word);
    ||| is_suffix(seq!['s'], l)
    ||| is_suffix(seq!['x'], l)
    ||| is_suffix(seq!['z'], l)
    ||| is_suffix(seq!['c', 'h'], l)
    ||| is_suffix(seq!['s', 'h'], l)
}

pub open spec fn is_upper_ascii(c: char) -> bool {
    'A' <= c && c <= 'Z'
}

/// Whether the word is shouted: only ASCII capitals and hyphens, with at least
/// one capital.
pub open spec fn is_caps_word(word: Seq<char>) -> bool {
    &&& forall|i: int| 0 <= i < word.len() ==> is_upper_ascii(#[trigger] word[i]) || word[i] == '-'
    &&& exists|i: int| 0 <= i < word.len() && is_upper_ascii(#[trigger] word[i])
}

/// The word with its third-person ending, in capitals for a shouted word.
pub open spec fn conjugate_last_word_spec(word: Seq<char>) -> Seq<char> {
    let suffix = if needs_es(word) {
        if is_caps_word(word) {
            seq!['E', 'S']
        } else {
            seq!['e', 's']
        }
    } else if is_caps_word(word) {
        seq!['S']
    } else {
        seq!['s']
    };
    word + suffix
}

/// The whitespace-separated words of `s` (`str::split_whitespace`).
pub open spec fn words_of(s: Seq<char>) -> Seq<Seq<char>>
    decreases s.len(),
{
    if s.len() == 0 {
        seq![]
    } else {
        let w = words_of(s.drop_last());
        if is_ws(s.last()) {
            w
        } else if s.len() >= 2 && !is_ws(s[s.len() - 2]) {
            w.update(w.len() - 1, w.last().push(s.last()))
        } else {
            w.push(seq![s.last()])
        }
    }
}

/// Pieces joined with single spaces.
pub open spec fn join_spaced(parts: Seq<Seq<char>>) -> Seq<char>
    decreases parts.len(),
{
    if parts.len() == 0 {
        seq![]
    } else if parts.len() == 1 {
        parts[0]
    } else {
        join_spaced(parts.drop_last()) + seq![' '] + parts.last()
    }
}

/// The verb phrase with its last word conjugated and single spaces between words.
pub open spec fn conjugate_verb_spec(verb: Seq<char>) -> Seq<char> {
    let p = words_of(verb);
    if p.len() == 0 {
        seq![]
    } else {
        join_spaced(p.drop_last().push(conjugate_last_word_spec(p.last())))
    }
}

proof fn lemma_words_nonempty_after_word_char(s: Seq<char>)
    requires
        s.len() > 0,
        !is_ws(s.last()),
    ensures
        words_of(s).len() > 0,
    decreases s.len(),
{
    let w = words_of(s.drop_last());
    if s.len() >= 2 && !is_ws(s[s.len() - 2]) {
        lemma_words_nonempty_after_word_char(s.drop_last());
    }
}

fn is_upper_ascii_exec(c: char) -> (r: bool)
    ensures
        r == is_upper_ascii(c),
{
    'A' <= c && c <= 'Z'
}

fn is_caps_word_exec(w: &[char]) -> (r: bool)
    ensures
        r == is_caps_word(w@),
{
    let mut any = false;
    let mut i: usize = 0;
    while i < w.len()
        invariant
            i <= w@.len(),
            forall|k: int| 0 <= k < i ==> is_upper_ascii(#[trigger] w@[k]) || w@[k] == '-',
            any == exists|k: int| 0 <= k < i && is_upper_ascii(#[trigger] w@[k]),
        decreases w.len() - i,
    {
        let c = w[i];
        if !(is_upper_ascii_exec(c) || c == '-') {
            return false;
        }
        if is_upper_ascii_exec(c) {
            any = true;
        }
        i = i + 1;
    }
    any
}

fn ends_with1(s: &[char], a: char) -> (r: bool)
    ensures
        r == is_suffix(seq![a], s@),
{
    let mut lit: Vec<char> = Vec::new();
    lit.push(a);
    assert(lit@ =~= seq![a]);
    crate::text::ends_with_chars(s, lit.as_slice())
}

fn ends_with2(s: &[char], a: char, b: char) -> (r: bool)
    ensures
        r == is_suffix(seq![a, b], s@),
{
    let mut lit: Vec<char> = Vec::new();
    lit.push(a);
    lit.push(b);
    assert(lit@ =~= seq![a, b]);
    crate::text::ends_with_chars(s, lit.as_slice())
}

/// The word with its third-person ending.
pub fn conjugate_last_word(word: &str) -> (r: String)
    ensures
        r@ == conjugate_last_word_spec(word@),
{
    let lower = to_lowercase(word);
    let l = chars_of(&lower);
    let es = ends_with1(l.as_slice(), 's') || ends_with1(l.as_slice(), 'x') || ends_with1(
        l.as_slice(),
        'z',
    ) || ends_with2(l.as_slice(), 'c', 'h') || ends_with2(l.as_slice(), 's', 'h');
    let w = chars_of(word);
    let caps = is_caps_word_exec(w.as_slice());
    let mut out = w;
    if es {
        if caps {
            out.push('E');
            out.push('S');
        } else {
            out.push('e');
            out.push('s');
        }
    } else if caps {
        out.push('S');
    } else {
        out.push('s');
    }
    proof {
        assert(out@ =~= conjugate_last_word_spec(word@));
    }
    string_of(out.as_slice())
}

pub open spec fn words_view(v: Seq<Vec<char>>) -> Seq<Seq<char>> {
    v.map_values(|w: Vec<char>| w@)
}

/// The whitespace-separated words of `s`.
pub fn split_words(s: &[char]) -> (r: Vec<Vec<char>>)
    ensures
        words_view(r@) == words_of(s@),
{
    let mut words: Vec<Vec<char>> = Vec::new();
    let mut i: usize = 0;
    proof {
        assert(s@.take(0) =~= Seq::<char>::empty());
        assert(words_view(words@) =~= Seq::<Seq<char>>::empty());
    }
    while i < s.len()
        invariant
            i <= s@.len(),
            words_view(words@) == words_of(s@.take(i as int)),
        decreases s.len() - i,
    {
        let c = s[i];
        let ghost before = s@.take(i as int);
        let ghost after = s@.take(i + 1);
        proof {
            assert(after.drop_last() =~= before);
            assert(after.last() == c);
            if i >= 1 {
                assert(after[after.len() - 2] == s@[i - 1]);
            }
        }
        if is_whitespace_char(c) {
        } else if i >= 1 && !is_whitespace_char(s[i - 1]) {
            proof {
                lemma_words_nonempty_after_word_char(before);
                assert(before.last() == s@[i - 1]);
            }
            let ghost wv = words_view(words@);
            let mut last = words.pop().unwrap();
            last.push(c);
            words.push(last);
            proof {
                assert(words_view(words@) =~= wv.update(wv.len() - 1, wv.last().push(c)));
            }
        } else {
            let ghost wv = words_view(words@);
            let mut w: Vec<char> = Vec::new();
            w.push(c);
            words.push(w);
            proof {
                assert(words_view(words@) =~= wv.push(seq![c]));
            }
        }
        i = i + 1;
    }
    proof {
        assert(s@.take(s@.len() as int) =~= s@);
    }
    words
}

/// The verb phrase in the third person: the last word conjugated, words joined
/// by single spaces; empty for a phrase without words.
pub fn conjugate_verb(verb: &str) -> (r: String)
    ensures
        r@ == conjugate_verb_spec(verb@),
{
    let v = chars_of(verb);
    let mut parts = split_words(v.as_slice());
    if parts.len() == 0 {
        return String::new();
    }
    let ghost pv = words_view(parts@);
    let last = parts.pop().unwrap();
    let last_s = string_of(last.as_slice());
    let conj = conjugate_last_word(&last_s);
    parts.push(chars_of(&conj));
    let ghost target = pv.drop_last().push(conjugate_last_word_spec(pv.last()));
    proof {
        assert(words_view(parts@) =~= target);
    }
    let mut out: Vec<char> = Vec::new();
    let mut k: usize = 0;
    proof {
        assert(target.take(0) =~= Seq::<Seq<char>>::empty());
    }
    while k < parts.len()
        invariant
            k <= parts@.len(),
            words_view(parts@) == target,
            out@ == join_spaced(target.take(k as int)),
        decreases parts.len() - k,
    {
        proof {
            assert(target.take(k + 1).drop_last() =~= target.take(k as int));
        }
        if k > 0 {
            out.push(' ');
        }
        push_all(&mut out, parts[k].as_slice());
        proof {
            if k == 0 {
                assert(out@ =~= join_spaced(target.take(1)));
            } else {
                assert(out@ =~= join_spaced(target.take(k + 1)));
            }
        }
        k = k + 1;
    }
    proof {
        assert(target.take(parts@.len() as int) =~= target);
    }
    string_of(out.as_slice())
}

} // verus!
