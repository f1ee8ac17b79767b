//! UTF-8 byte lengths, grapheme clusters and display widths of text.
use unicode_segmentation::UnicodeSegmentation;
use unicode_width::UnicodeWidthStr;
use vstd::prelude::*;

verus! {

/// Number of bytes of the UTF-8 encoding of `c`.
pub open spec fn utf8_len(c: char) -> nat {
    let u = c as u32;
    if u < 0x80 {
        1
    } else if u < 0x800 {
        2
    } else if u < 0x10000 {
        3
    } else {
        4
    }
}

/// Number of bytes of the UTF-8 encoding of `s`.
pub open spec fn bytes_len(s: Seq<char>) -> nat
    decreases s.len(),
{
    if s.len() == 0 {
        0
    } else {
        bytes_len(s.drop_last()) + utf8_len(s.last())
    }
}

/// The character index whose byte offset in `s` is `b`, if `b` is a character boundary.
pub open spec fn char_index_at_byte(s: Seq<char>, b: int) -> Option<int> {
    if exists|i: int| 0 <= i <= s.len() && bytes_len(s.take(i)) == b {
        Some(choose|i: int| 0 <= i <= s.len() && bytes_len(s.take(i)) == b)
    } else {
        None
    }
}

/// The extended grapheme clusters of `s`, as `UnicodeSegmentation::graphemes(s, true)` yields them.
pub uninterp spec fn grapheme_clusters(s: Seq<char>) -> Seq<Seq<char>>;

/// The display width of `s`, as `UnicodeWidthStr::width` computes it.
pub uninterp spec fn text_width(s: Seq<char>) -> nat;

/// All pieces joined together.
pub open spec fn flatten(parts: Seq<Seq<char>>) -> Seq<char>
    decreases parts.len(),
{
    if parts.len() == 0 {
        Seq::empty()
    } else {
        flatten(parts.drop_last()) + parts.last()
    }
}

pub open spec fn strings_view(v: Seq<String>) -> Seq<Seq<char>> {
    v.map_values(|s: String| s@)
}

/// The extended grapheme clusters of `s` (`UnicodeSegmentation::graphemes(s, true)`).
/// Clusters are non-empty and together spell `s`; where the boundaries fall
/// is what the crate computes and is not stated here.
#[verifier::external_body]
pub(crate) fn graphemes_of(s: &str) -> (r: Vec<String>)
    ensures
        strings_view(r@) == grapheme_clusters(s@),
        flatten(strings_view(r@)) == s@,
        forall|i: int| 0 <= i < r@.len() ==> (#[trigger] r@[i])@.len() > 0,
{
    s.graphemes(true).map(|g| g.to_string()).collect()
}

/// The display width of `s` (`UnicodeWidthStr::width`).
#[verifier::external_body]
pub(crate) fn display_width(s: &str) -> (r: usize)
    ensures
        r == text_width(s@),
{
    UnicodeWidthStr::width(s)
}

/// Number of bytes of the UTF-8 encoding of `c` (`char::len_utf8`).
pub fn char_utf8_len(c: char) -> (n: usize)
    ensures
        n == utf8_len(c),
{
    let u = c as u32;
    if u < 0x80 {
        1
    } else if u < 0x800 {
        2
    } else if u < 0x10000 {
        3
    } else {
        4
    }
}

proof fn lemma_bytes_len_take_step(s: Seq<char>, i: int)
    requires
        0 <= i < s.len(),
    ensures
        bytes_len(s.take(i + 1)) == bytes_len(s.take(i)) + utf8_len(s[i]),
{
    assert(s.take(i + 1).drop_last() =~= s.take(i));
}

/// Byte lengths grow strictly with the number of characters.
pub proof fn lemma_bytes_len_mono(s: Seq<char>, i: int, j: int)
    requires
        0 <= i <= j <= s.len(),
    ensures
        bytes_len(s.take(i)) + (j - i) <= bytes_len(s.take(j)),
    decreases j - i,
{
    if i < j {
        lemma_bytes_len_mono(s, i, j - 1);
        lemma_bytes_len_take_step(s, j - 1);
    }
}

/// The character index of the byte offset of character `i` is `i`.
pub proof fn lemma_char_index_at(s: Seq<char>, i: int)
    requires
        0 <= i <= s.len(),
    ensures
        char_index_at_byte(s, bytes_len(s.take(i)) as int) == Some(i),
{
    let b = bytes_len(s.take(i)) as int;
    assert(0 <= i <= s.len() && bytes_len(s.take(i)) == b);
    let w = choose|w: int| 0 <= w <= s.len() && bytes_len(s.take(w)) == b;
    if w < i {
        lemma_bytes_len_mono(s, w, i);
    } else if w > i {
        lemma_bytes_len_mono(s, i, w);
    }
}

/// A piece list joined: its first piece, then the rest.
pub proof fn lemma_flatten_first(parts: Seq<Seq<char>>)
    requires
        parts.len() > 0,
    ensures
        flatten(parts) == parts[0] + flatten(parts.drop_first()),
    decreases parts.len(),
{
    if parts.len() == 1 {
        assert(parts.drop_last() =~= Seq::<Seq<char>>::empty());
        assert(parts.drop_first() =~= Seq::<Seq<char>>::empty());
        assert(parts[0] + Seq::<char>::empty() =~= parts[0]);
    } else {
        lemma_flatten_first(parts.drop_last());
        assert(parts.drop_last().drop_first() =~= parts.drop_first().drop_last());
        assert(parts.drop_first().last() == parts.last());
        assert(flatten(parts) =~= parts[0] + flatten(parts.drop_first()));
    }
}

/// Byte offsets of every character boundary: `r[i]` is the byte length of `s[..i]`.
pub fn byte_offsets(s: &[char]) -> (r: Vec<usize>)
    requires
        bytes_len(s@) <= usize::MAX,
    ensures
        r@.len() == s@.len() + 1,
        forall|i: int| 0 <= i <= s@.len() ==> #[trigger] r@[i] == bytes_len(s@.take(i)),
{
    let mut r: Vec<usize> = Vec::new();
    let mut total: usize = 0;
    r.push(0);
    assert(s@.take(0) =~= Seq::<char>::empty());
    let mut i: usize = 0;
    while i < s.len()
        invariant
            i <= s@.len(),
            bytes_len(s@) <= usize::MAX,
            r@.len() == i + 1,
            total == bytes_len(s@.take(i as int)),
            forall|k: int| 0 <= k <= i ==> #[trigger] r@[k] == bytes_len(s@.take(k)),
        decreases s.len() - i,
    {
        proof {
            lemma_bytes_len_take_step(s@, i as int);
            lemma_bytes_len_mono(s@, i + 1, s@.len() as int);
            assert(s@.take(s@.len() as int) =~= s@);
        }
        total = total + char_utf8_len(s[i]);
        r.push(total);
        i = i + 1;
    }
    r
}

/// The character index of byte offset `b`, if it is a boundary.
pub fn char_index_of_byte(s: &[char], b: usize) -> (r: Option<usize>)
    requires
        bytes_len(s@) <= usize::MAX,
    ensures
        match char_index_at_byte(s@, b as int) {
            Some(i) => r == Some(i as usize),
            None => r is None,
        },
        r matches Some(i) ==> i <= s@.len() && bytes_len(s@.take(i as int)) == b
            && char_index_at_byte(s@, b as int) == Some(i as int),
{
    let offs = byte_offsets(s);
    let mut i: usize = 0;
    while i < s.len()
        invariant
            i <= s@.len(),
            offs@.len() == s@.len() + 1,
            forall|k: int| 0 <= k <= s@.len() ==> #[trigger] offs@[k] == bytes_len(s@.take(k)),
            forall|k: int| 0 <= k < i ==> bytes_len(s@.take(k)) != b,
        decreases s@.len() - i,
    {
        if offs[i] == b {
            proof {
                let w = choose|w: int| 0 <= w <= s@.len() && bytes_len(s@.take(w)) == b;
                if w < i {
                } else if w > i {
                    lemma_bytes_len_mono(s@, i as int, w);
                }
            }
            return Some(i);
        }
        i = i + 1;
    }
    if offs[i] == b {
        proof {
            let w = choose|w: int| 0 <= w <= s@.len() && bytes_len(s@.take(w)) == b;
            if w < i {
            }
        }
        return Some(i);
    }
    assert forall|k: int| 0 <= k <= s@.len() implies bytes_len(s@.take(k)) != b by {}
    None
}

} // verus!
