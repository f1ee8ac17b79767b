//! A line of game output split into styled grapheme cells.
use crate::ansi::segment::{
    bytes_len, char_index_at_byte, char_index_of_byte, flatten, grapheme_clusters, graphemes_of,
    display_width, strings_view, text_width, utf8_len,
};
use crate::ansi::sgr::{parse_sgr_block, sgr_codes_of_block};
use crate::ansi::style::{apply_sgr, apply_sgr_codes, TextColor, TextStyle};
use crate::ansi::palette::{color_of, get_color, TerminalColor};
use crate::text::{chars_of, occurs_at, occurs_at_exec, sub_chars};
use std::ops::Range;
use vstd::prelude::*;
use vstd::utf8::{encode_scalar, encode_utf8};

verus! {

/// Byte spans of the ANSI escape sequences that `parse_ansi` finds in `s`, in order.
pub uninterp spec fn ansi_escape_spans(s: Seq<char>) -> Seq<(usize, usize)>;

/// The byte spans of `parse_ansi::parse_bytes` over the line's bytes, as
/// `(start, end)` of each match, in the order the crate yields them.
#[verifier::external_body]
fn ansi_escape_matches(line: &str) -> (r: Vec<(usize, usize)>)
    ensures
        r@ == ansi_escape_spans(line@),
{
    parse_ansi::parse_bytes(line.as_bytes()).map(|m| (m.start(), m.end())).collect()
}

/// One grapheme cell as plain values.
pub struct Cell {
    pub text: Seq<char>,
    pub bold: bool,
    pub color: TextColor,
}

/// A grapheme with its style.
#[derive(Debug)]
pub struct StyledChar {
    pub bold: bool,
    pub color: TextColor,
    pub character: String,
}

impl StyledChar {
    pub open spec fn cell(&self) -> Cell {
        Cell { text: self.character@, bold: self.bold, color: self.color }
    }

    /// A grapheme in the default style.
    pub fn new(c: String) -> (r: Self)
        ensures
            r.cell() == (Cell { text: c@, bold: false, color: TextColor::Default }),
    {
        StyledChar { bold: false, color: TextColor::Default, character: c }
    }

    /// Back to the default style.
    pub fn reset(&mut self)
        ensures
            final(self).cell() == (Cell {
                text: old(self).character@,
                bold: false,
                color: TextColor::Default,
            }),
    {
        self.bold = false;
        self.color = TextColor::Default;
    }

    /// Applies an SGR code list to this grapheme's style.
    pub fn process_sgr_codes(&mut self, codes: &[u8])
        ensures
            (final(self).bold, final(self).color) == apply_sgr((old(self).bold, old(self).color), codes@),
            final(self).character == old(self).character,
    {
        let (b, c) = apply_sgr_codes(self.bold, self.color, codes);
        self.bold = b;
        self.color = c;
    }
}

pub open spec fn cells_of(v: Seq<StyledChar>) -> Seq<Cell> {
    v.map_values(|c: StyledChar| c.cell())
}

pub open spec fn cell_texts(cells: Seq<Cell>) -> Seq<Seq<char>> {
    cells.map_values(|c: Cell| c.text)
}

/// The SGR codes of the escape spanning bytes `[s, e)` of `line`; none where the
/// span does not fall on character boundaries.
pub open spec fn span_codes(line: Seq<char>, s: int, e: int) -> Seq<u8> {
    match (char_index_at_byte(line, s), char_index_at_byte(line, e)) {
        (Some(i), Some(j)) => if i <= j {
            sgr_codes_of_block(line.subrange(i, j))
        } else {
            seq![]
        },
        _ => seq![],
    }
}

pub open spec fn block_codes(line: Seq<char>, spans: Seq<(usize, usize)>) -> Seq<Seq<u8>> {
    spans.map_values(|sp: (usize, usize)| { let (s, e) = sp; span_codes(line, s as int, e as int) })
}

/// Where the layout of a line stands after some graphemes.
pub struct Layout {
    pub next: int,
    pub bold: bool,
    pub color: TextColor,
    pub col8: int,
    pub cells: Seq<Cell>,
}

pub open spec fn initial_layout() -> Layout {
    Layout { next: 0, bold: false, color: TextColor::Default, col8: 0, cells: seq![] }
}

/// Applies every escape from index `next` on that ends at or before byte `b`.
pub open spec fn advance_blocks(
    spans: Seq<(usize, usize)>,
    codes: Seq<Seq<u8>>,
    next: int,
    st: (bool, TextColor),
    b: int,
) -> (int, (bool, TextColor))
    decreases spans.len() - next,
{
    if 0 <= next < spans.len() && spans[next].1 <= b {
        advance_blocks(spans, codes, next + 1, apply_sgr(st, codes[next]), b)
    } else {
        (next, st)
    }
}

/// Whether byte `b` lies inside escape `next`.
pub open spec fn inside_block(spans: Seq<(usize, usize)>, next: int, b: int) -> bool {
    0 <= next < spans.len() && spans[next].0 <= b && b < spans[next].1
}

/// `n` spaces in one style.
pub open spec fn space_cells(n: nat, bold: bool, color: TextColor) -> Seq<Cell> {
    Seq::new(n, |i: int| Cell { text: seq![' '], bold, color })
}

/// One grapheme `g` at byte `b`: escapes before it take effect; a grapheme inside
/// an escape is dropped; a tab becomes spaces up to the next stop of eight columns;
/// any other grapheme becomes a cell in the current style.
pub open spec fn layout_step(
    spans: Seq<(usize, usize)>,
    codes: Seq<Seq<u8>>,
    g: Seq<char>,
    b: int,
    l: Layout,
) -> Layout {
    let (next, st) = advance_blocks(spans, codes, l.next, (l.bold, l.color), b);
    let (bold, color) = st;
    if inside_block(spans, next, b) {
        Layout { next, bold, color, col8: l.col8, cells: l.cells }
    } else if g == seq!['\t'] {
        Layout {
            next,
            bold,
            color,
            col8: 0,
            cells: l.cells + space_cells((8 - l.col8) as nat, bold, color),
        }
    } else {
        Layout {
            next,
            bold,
            color,
            col8: (l.col8 + text_width(g)) % 8,
            cells: l.cells.push(Cell { text: g, bold, color }),
        }
    }
}

/// The layout after the first `k` graphemes.
pub open spec fn layout_upto(
    spans: Seq<(usize, usize)>,
    codes: Seq<Seq<u8>>,
    clusters: Seq<Seq<char>>,
    k: int,
) -> Layout
    decreases k,
{
    if k <= 0 {
        initial_layout()
    } else {
        layout_step(
            spans,
            codes,
            clusters[k - 1],
            bytes_len(flatten(clusters.take(k - 1))) as int,
            layout_upto(spans, codes, clusters, k - 1),
        )
    }
}

/// The styled cells of a raw line.
pub open spec fn parse_line_spec(line: Seq<char>) -> Seq<Cell> {
    let clusters = grapheme_clusters(line);
    let spans = ansi_escape_spans(line);
    layout_upto(spans, block_codes(line, spans), clusters, clusters.len() as int).cells
}

proof fn lemma_bytes_len_concat(a: Seq<char>, b: Seq<char>)
    ensures
        bytes_len(a + b) == bytes_len(a) + bytes_len(b),
    decreases b.len(),
{
    if b.len() == 0 {
        assert(a + b =~= a);
    } else {
        lemma_bytes_len_concat(a, b.drop_last());
        assert((a + b).drop_last() =~= a + b.drop_last());
    }
}

proof fn lemma_encode_scalar_len(c: char)
    ensures
        encode_scalar(c as u32).len() == utf8_len(c),
{
    let u = c as u32;
    assert(u <= 0xD7FF || (0xE000 <= u && u <= 0x10FFFF));
}

proof fn lemma_encode_len(s: Seq<char>)
    ensures
        encode_utf8(s).len() == bytes_len(s),
    decreases s.len(),
{
    if s.len() > 0 {
        lemma_encode_len(s.drop_first());
        lemma_bytes_len_concat(seq![s[0]], s.drop_first());
        assert(seq![s[0]] + s.drop_first() =~= s);
        assert(seq![s[0]].drop_last() =~= Seq::<char>::empty());
        assert(bytes_len(Seq::<char>::empty()) == 0);
        assert(bytes_len(seq![s[0]]) == utf8_len(s[0]));
        lemma_encode_scalar_len(s[0]);
    }
}

/// Number of bytes of the UTF-8 encoding of `s` (`str::len`).
pub fn byte_len(s: &str) -> (n: usize)
    ensures
        n == bytes_len(s@),
{
    let b = s.as_bytes();
    proof {
        lemma_encode_len(s@);
        assert(b@.len() == b.len());
    }
    b.len()
}

proof fn lemma_flatten_take_step(parts: Seq<Seq<char>>, k: int)
    requires
        0 <= k < parts.len(),
    ensures
        flatten(parts.take(k + 1)) == flatten(parts.take(k)) + parts[k],
{
    assert(parts.take(k + 1).drop_last() =~= parts.take(k));
}

proof fn lemma_flatten_prefix_bytes(parts: Seq<Seq<char>>, k: int)
    requires
        0 <= k <= parts.len(),
    ensures
        bytes_len(flatten(parts.take(k))) <= bytes_len(flatten(parts)),
    decreases parts.len() - k,
{
    if k == parts.len() {
        assert(parts.take(k) =~= parts);
    } else {
        lemma_flatten_prefix_bytes(parts, k + 1);
        lemma_flatten_take_step(parts, k);
        lemma_bytes_len_concat(flatten(parts.take(k)), parts[k]);
    }
}

/// The SGR codes of every escape span of `line`.
fn span_codes_all(line: &[char], spans: &[(usize, usize)]) -> (r: Vec<Vec<u8>>)
    requires
        bytes_len(line@) <= usize::MAX,
    ensures
        r@.len() == spans@.len(),
        forall|i: int| 0 <= i < spans@.len() ==> (#[trigger] r@[i])@ == block_codes(line@, spans@)[i],
{
    let mut r: Vec<Vec<u8>> = Vec::new();
    let mut k: usize = 0;
    while k < spans.len()
        invariant
            k <= spans@.len(),
            bytes_len(line@) <= usize::MAX,
            r@.len() == k,
            forall|i: int| 0 <= i < k ==> (#[trigger] r@[i])@ == block_codes(line@, spans@)[i],
        decreases spans.len() - k,
    {
        let (s, e) = spans[k];
        let codes = match (char_index_of_byte(line, s), char_index_of_byte(line, e)) {
            (Some(i), Some(j)) => if i <= j {
                let t = sub_chars(line, i, j);
                proof {
                    assert(char_index_at_byte(line@, s as int) == Some(i as int));
                    assert(char_index_at_byte(line@, e as int) == Some(j as int));
                }
                parse_sgr_block(t.as_slice())
            } else {
                Vec::new()
            },
            _ => Vec::new(),
        };
        assert(codes@ == span_codes(line@, s as int, e as int));
        r.push(codes);
        k = k + 1;
    }
    r
}

/// Lays out the graphemes of a raw line: escapes set the style and vanish, tabs
/// expand to the next stop of eight columns.
fn parse_line(line: &str) -> (r: Vec<StyledChar>)
    ensures
        cells_of(r@) == parse_line_spec(line@),
{
    let chars = chars_of(line);
    let total = byte_len(line);
    let spans = ansi_escape_matches(line);
    let codes = span_codes_all(chars.as_slice(), spans.as_slice());
    let clusters = graphemes_of(line);
    let ghost cv = strings_view(clusters@);
    let ghost cc = block_codes(line@, spans@);
    let mut out: Vec<StyledChar> = Vec::new();
    let mut next: usize = 0;
    let mut bold = false;
    let mut color = TextColor::Default;
    let mut col8: usize = 0;
    let mut b: usize = 0;
    let mut k: usize = 0;
    proof {
        assert(cv.take(0) =~= Seq::<Seq<char>>::empty());
        assert(cells_of(out@) =~= Seq::<Cell>::empty());
    }
    while k < clusters.len()
        invariant
            k <= clusters@.len(),
            cv == strings_view(clusters@),
            cv == grapheme_clusters(line@),
            flatten(cv) == line@,
            cc == block_codes(line@, spans@),
            spans@ == ansi_escape_spans(line@),
            codes@.len() == spans@.len(),
            forall|i: int| 0 <= i < spans@.len() ==> (#[trigger] codes@[i])@ == cc[i],
            total == bytes_len(line@),
            b == bytes_len(flatten(cv.take(k as int))),
            col8 < 8,
            next <= spans@.len(),
            layout_upto(spans@, cc, cv, k as int) == (Layout {
                next: next as int,
                bold,
                color,
                col8: col8 as int,
                cells: cells_of(out@),
            }),
        decreases clusters.len() - k,
    {
        let ghost before = layout_upto(spans@, cc, cv, k as int);
        let ghost st0 = (bold, color);
        let ghost n0 = next as int;
        while next < spans.len() && spans[next].1 <= b
            invariant
                next <= spans@.len(),
                codes@.len() == spans@.len(),
                forall|i: int| 0 <= i < spans@.len() ==> (#[trigger] codes@[i])@ == cc[i],
                advance_blocks(spans@, cc, n0, st0, b as int) == advance_blocks(
                    spans@,
                    cc,
                    next as int,
                    (bold, color),
                    b as int,
                ),
            decreases spans.len() - next,
        {
            let (nb, nc) = apply_sgr_codes(bold, color, codes[next].as_slice());
            bold = nb;
            color = nc;
            next = next + 1;
        }
        let g = &clusters[k];
        let inside = next < spans.len() && spans[next].0 <= b && b < spans[next].1;
        let gc = chars_of(g);
        if inside {
        } else if gc.len() == 1 && gc[0] == '\t' {
            let spaces = 8 - col8;
            let mut t: usize = 0;
            let ghost base = cells_of(out@);
            while t < spaces
                invariant
                    t <= spaces <= 8,
                    cells_of(out@) == base + space_cells(t as nat, bold, color),
                decreases spaces - t,
            {
                let sc = StyledChar { bold, color, character: String::from_str(" ") };
                proof {
                    reveal_strlit(" ");
                    assert(sc.character@ =~= seq![' ']);
                    assert(sc.cell() == Cell { text: seq![' '], bold, color });
                }
                let ghost prev = out@;
                out.push(sc);
                t = t + 1;
                proof {
                    assert(cells_of(out@) =~= cells_of(prev).push(sc.cell()));
                    assert(cells_of(out@) =~= base + space_cells(t as nat, bold, color));
                }
            }
            col8 = 0;
            proof {
                assert(gc@ =~= seq!['\t']);
            }
        } else {
            let w = display_width(g);
            let ghost base = cells_of(out@);
            out.push(StyledChar { bold, color, character: g.clone() });
            col8 = (col8 + w % 8) % 8;
            proof {
                assert(cells_of(out@) =~= base.push(Cell { text: cv[k as int], bold, color }));
                assert((before.col8 + w) % 8 == (before.col8 + w % 8) % 8) by (nonlinear_arith);
                if gc@ == seq!['\t'] {
                }
            }
        }
        proof {
            lemma_flatten_take_step(cv, k as int);
            lemma_bytes_len_concat(flatten(cv.take(k as int)), cv[k as int]);
            lemma_flatten_prefix_bytes(cv, k + 1);
        }
        let gl = byte_len(g);
        b = b + gl;
        k = k + 1;
    }
    out
}

/// A styled line of output: its plain text, one styled cell per grapheme, and
/// whether it is gagged.
#[derive(Debug)]
pub struct StyledLine {
    pub plain_line: String,
    pub styled_chars: Vec<StyledChar>,
    pub gag: bool,
}

/// `cells` with those at indices `[lo, hi)` given `style`.
pub open spec fn restyle(cells: Seq<Cell>, lo: int, hi: int, style: TextStyle) -> Seq<Cell> {
    Seq::new(
        cells.len(),
        |k: int|
            if lo <= k < hi {
                Cell { text: cells[k].text, bold: style.bold, color: style.color }
            } else {
                cells[k]
            },
    )
}

/// The byte range of the first occurrence of `part` in `plain`, empty where there is none.
pub open spec fn block_byte_range(plain: Seq<char>, part: Seq<char>) -> (int, int) {
    match crate::text::first_occurrence(plain, part) {
        Some(i) => (bytes_len(plain.take(i)) as int, (bytes_len(plain.take(i)) + bytes_len(part)) as int),
        None => (0, 0),
    }
}

pub open spec fn max_int(a: int, b: int) -> int {
    if a < b {
        b
    } else {
        a
    }
}

/// `b` clamped to the length of `s` in bytes.
pub open spec fn clamp_bytes(s: Seq<char>, b: int) -> int {
    if b < bytes_len(s) {
        b
    } else {
        bytes_len(s) as int
    }
}

/// Number of graphemes of `s` before byte `b` (clamped), where that is a boundary.
pub open spec fn prefix_grapheme_count(s: Seq<char>, b: int) -> int {
    match char_index_at_byte(s, clamp_bytes(s, b)) {
        Some(i) => grapheme_clusters(s.take(i)).len() as int,
        None => 0,
    }
}

/// Whether byte `b` (clamped) is a character boundary of `s`.
pub open spec fn is_boundary(s: Seq<char>, b: int) -> bool {
    char_index_at_byte(s, clamp_bytes(s, b)) is Some
}

/// The cells of the graphemes of `s`, all in one style.
pub open spec fn uniform_cells(clusters: Seq<Seq<char>>, style: TextStyle) -> Seq<Cell> {
    clusters.map_values(|g: Seq<char>| Cell { text: g, bold: style.bold, color: style.color })
}

/// The style that text inserted before cell `g` takes: that of the cell before it,
/// else that of the first cell, else the default style.
pub open spec fn insert_style(cells: Seq<Cell>, g: int) -> TextStyle {
    if g > 0 {
        TextStyle { color: cells[g - 1].color, bold: cells[g - 1].bold }
    } else if cells.len() > 0 {
        TextStyle { color: cells[0].color, bold: cells[0].bold }
    } else {
        TextStyle { color: TextColor::Default, bold: false }
    }
}

/// The plain text joined from cells.
fn plain_line_from_chars(chars: &[StyledChar]) -> (r: String)
    ensures
        r@ == flatten(cell_texts(cells_of(chars@))),
{
    let mut out: Vec<char> = Vec::new();
    let mut i: usize = 0;
    while i < chars.len()
        invariant
            i <= chars@.len(),
            out@ == flatten(cell_texts(cells_of(chars@)).take(i as int)),
        decreases chars.len() - i,
    {
        crate::text::push_str_chars(&mut out, &chars[i].character);
        proof {
            let t = cell_texts(cells_of(chars@));
            assert(t.take(i + 1).drop_last() =~= t.take(i as int));
        }
        i = i + 1;
    }
    proof {
        let t = cell_texts(cells_of(chars@));
        assert(t.take(chars@.len() as int) =~= t);
    }
    crate::text::string_of(out.as_slice())
}

/// Whether byte `b` (clamped to the length) is a character boundary of `s`.
pub fn is_boundary_exec(s: &str, b: usize) -> (r: bool)
    ensures
        r == is_boundary(s@, b as int),
{
    let chars = chars_of(s);
    let len = byte_len(s);
    let end = if b < len {
        b
    } else {
        len
    };
    char_index_of_byte(chars.as_slice(), end).is_some()
}

/// Number of graphemes of `plain` before byte `byte_end` (clamped to the length).
pub fn plain_prefix_grapheme_count(plain: &str, byte_end: usize) -> (r: usize)
    requires
        is_boundary(plain@, byte_end as int),
    ensures
        r == prefix_grapheme_count(plain@, byte_end as int),
{
    let chars = chars_of(plain);
    let len = byte_len(plain);
    let end = if byte_end < len {
        byte_end
    } else {
        len
    };
    let ci = match char_index_of_byte(chars.as_slice(), end) {
        Some(ci) => ci,
        None => {
            return 0;
        },
    };
    let prefix = sub_chars(chars.as_slice(), 0, ci);
    let ps = crate::text::string_of(prefix.as_slice());
    let g = graphemes_of(&ps);
    g.len()
}

/// Cells for every grapheme of `s`, all in one style.
fn uniform_styled_chars(s: &str, style: TextStyle) -> (r: Vec<StyledChar>)
    ensures
        cells_of(r@) == uniform_cells(grapheme_clusters(s@), style),
{
    let gs = graphemes_of(s);
    let mut out: Vec<StyledChar> = Vec::new();
    let mut i: usize = 0;
    while i < gs.len()
        invariant
            i <= gs@.len(),
            strings_view(gs@) == grapheme_clusters(s@),
            cells_of(out@) == uniform_cells(grapheme_clusters(s@), style).take(i as int),
        decreases gs.len() - i,
    {
        let ghost prev = out@;
        let sc = StyledChar { bold: style.bold, color: style.color, character: gs[i].clone() };
        assert(sc.character@ == grapheme_clusters(s@)[i as int]);
        out.push(sc);
        proof {
            assert(cells_of(out@) =~= cells_of(prev).push(sc.cell()));
            assert(cells_of(out@) =~= uniform_cells(grapheme_clusters(s@), style).take(i + 1));
        }
        i = i + 1;
    }
    proof {
        assert(uniform_cells(grapheme_clusters(s@), style).take(gs@.len() as int) =~= uniform_cells(
            grapheme_clusters(s@),
            style,
        ));
    }
    out
}

/// Start and length in bytes of the first occurrence of `part` in `plain`.
pub fn block_range_exec(plain: &str, part: &str) -> (r: (usize, usize))
    ensures
        r.0 as int == block_byte_range(plain@, part@).0,
        r.0 + r.1 == block_byte_range(plain@, part@).1,
{
    let chars = chars_of(plain);
    let pc = chars_of(part);
    let total = byte_len(plain);
    match crate::text::find_chars(chars.as_slice(), pc.as_slice()) {
        Some(i) => {
            let offs = crate::ansi::segment::byte_offsets(chars.as_slice());
            let start = offs[i];
            let plen = byte_len(part);
            assert(start == bytes_len(plain@.take(i as int)));
            (start, plen)
        },
        None => (0, 0),
    }
}

/// Gives `style` to the cell at index `i`.
fn restyle_one(v: &mut Vec<StyledChar>, i: usize, style: TextStyle)
    requires
        i < old(v)@.len(),
    ensures
        final(v)@.len() == old(v)@.len(),
        forall|k: int| 0 <= k < old(v)@.len() && k != i ==> final(v)@[k] == old(v)@[k],
        final(v)@[i as int].cell() == (Cell {
            text: old(v)@[i as int].character@,
            bold: style.bold,
            color: style.color,
        }),
{
    v[i].color = style.color;
    v[i].bold = style.bold;
}

/// Gives `style` to the cells at indices `[lo, hi)`.
fn restyle_range(v: &mut Vec<StyledChar>, lo: usize, hi: usize, style: TextStyle)
    requires
        lo <= hi <= old(v)@.len(),
    ensures
        cells_of(final(v)@) == restyle(cells_of(old(v)@), lo as int, hi as int, style),
{
    let ghost orig = cells_of(v@);
    let mut index = lo;
    while index < hi
        invariant
            lo <= index <= hi <= v@.len(),
            v@.len() == orig.len(),
            forall|k: int|
                0 <= k < orig.len() ==> #[trigger] cells_of(v@)[k] == if lo <= k < index {
                    Cell { text: orig[k].text, bold: style.bold, color: style.color }
                } else {
                    orig[k]
                },
        decreases hi - index,
    {
        let ghost prev = v@;
        restyle_one(v, index, style);
        proof {
            assert forall|k: int| 0 <= k < orig.len() implies #[trigger] cells_of(v@)[k] == if lo
                <= k < index + 1 {
                Cell { text: orig[k].text, bold: style.bold, color: style.color }
            } else {
                orig[k]
            } by {
                if k != index {
                    assert(cells_of(v@)[k] == cells_of(prev)[k]);
                }
            }
        }
        index = index + 1;
    }
    proof {
        assert(cells_of(v@) =~= restyle(orig, lo as int, hi as int, style));
    }
}

/// Whether character `c` of `plain` lies in an occurrence of `part`.
pub open spec fn covered(plain: Seq<char>, part: Seq<char>, c: int) -> bool {
    exists|i: int| i <= c < i + part.len() && #[trigger] occurs_at(plain, part, i)
}

/// The character index at which cell `k` starts: the lengths of the cells before it.
pub open spec fn cell_start(cells: Seq<Cell>, k: int) -> int
    decreases k,
{
    if k <= 0 {
        0
    } else {
        cell_start(cells, k - 1) + cells[k - 1].text.len()
    }
}

/// Whether one of cell `k`'s characters lies in an occurrence of `part`.
pub open spec fn cell_in_block(cells: Seq<Cell>, plain: Seq<char>, part: Seq<char>, k: int) -> bool {
    exists|d: int|
        cell_start(cells, k) <= d < cell_start(cells, k) + cells[k].text.len() && #[trigger] covered(plain, part, d)
}

/// `cells` with every cell that holds a character of an occurrence of `part` given `style`.
pub open spec fn restyle_blocks(cells: Seq<Cell>, plain: Seq<char>, part: Seq<char>, style: TextStyle) -> Seq<Cell> {
    Seq::new(
        cells.len(),
        |k: int|
            if cell_in_block(cells, plain, part, k) {
                Cell { text: cells[k].text, bold: style.bold, color: style.color }
            } else {
                cells[k]
            },
    )
}

proof fn lemma_covered_in_line(plain: Seq<char>, part: Seq<char>, c: int)
    requires
        covered(plain, part, c),
    ensures
        0 <= c < plain.len(),
{
    let i = choose|i: int| i <= c < i + part.len() && #[trigger] occurs_at(plain, part, i);
}

/// For each character of `plain`, whether it lies in an occurrence of `part`.
fn covered_chars(plain: &[char], part: &[char]) -> (r: Vec<bool>)
    ensures
        r@.len() == plain@.len(),
        forall|c: int| 0 <= c < plain@.len() ==> r@[c] == covered(plain@, part@, c),
{
    let n = plain.len();
    let p = part.len();
    let mut r: Vec<bool> = Vec::new();
    let mut i: usize = 0;
    while i < n
        invariant
            i <= n == plain@.len(),
            r@.len() == i,
            forall|c: int| 0 <= c < i ==> !r@[c],
        decreases n - i,
    {
        r.push(false);
        i = i + 1;
    }
    if p == 0 {
        assert forall|c: int| 0 <= c < n implies r@[c] == covered(plain@, part@, c) by {
            if covered(plain@, part@, c) {
                let j = choose|j: int| j <= c < j + part@.len() && #[trigger] occurs_at(plain@, part@, j);
            }
        }
        return r;
    }
    i = 0;
    while i < n
        invariant
            i <= n == plain@.len(),
            p == part@.len(),
            r@.len() == n,
            forall|c: int|
                0 <= c < n ==> r@[c] == exists|j: int| j < i && j <= c < j + p && #[trigger] occurs_at(plain@, part@, j),
        decreases n - i,
    {
        if occurs_at_exec(plain, part, i) {
            let mut c = i;
            while c < i + p
                invariant
                    i <= c <= i + p <= n,
                    p == part@.len(),
                    r@.len() == n,
                    occurs_at(plain@, part@, i as int),
                    forall|d: int|
                        0 <= d < n ==> r@[d] == ((exists|j: int|
                            j < i && j <= d < j + p && #[trigger] occurs_at(plain@, part@, j)) || (i <= d < c)),
                decreases i + p - c,
            {
                r.set(c, true);
                c = c + 1;
            }
            assert forall|d: int| 0 <= d < n implies r@[d] == exists|j: int|
                j < i + 1 && j <= d < j + p && #[trigger] occurs_at(plain@, part@, j) by {
                if i <= d < i + p {
                    assert(occurs_at(plain@, part@, i as int));
                }
                if exists|j: int| j < i + 1 && j <= d < j + p && #[trigger] occurs_at(plain@, part@, j) {
                    let j = choose|j: int| j < i + 1 && j <= d < j + p && #[trigger] occurs_at(plain@, part@, j);
                    if j < i {
                    }
                }
            }
        } else {
            assert forall|d: int| 0 <= d < n implies r@[d] == exists|j: int|
                j < i + 1 && j <= d < j + p && #[trigger] occurs_at(plain@, part@, j) by {
                if exists|j: int| j < i + 1 && j <= d < j + p && #[trigger] occurs_at(plain@, part@, j) {
                    let j = choose|j: int| j < i + 1 && j <= d < j + p && #[trigger] occurs_at(plain@, part@, j);
                    assert(j != i);
                }
            }
        }
        i = i + 1;
    }
    assert forall|c: int| 0 <= c < n implies r@[c] == covered(plain@, part@, c) by {
        if covered(plain@, part@, c) {
            let j = choose|j: int| j <= c < j + part@.len() && #[trigger] occurs_at(plain@, part@, j);
            assert(j < n);
        }
    }
    r
}

impl StyledLine {
    pub open spec fn cells(&self) -> Seq<Cell> {
        cells_of(self.styled_chars@)
    }

    /// The plain text is the cells' text joined.
    pub open spec fn wf(&self) -> bool {
        self.plain_line@ == flatten(cell_texts(self.cells()))
    }

    /// Lays out a raw line of game output.
    pub fn new(line: &str) -> (r: Self)
        ensures
            r.cells() == parse_line_spec(line@),
            r.wf(),
            !r.gag,
    {
        let styled_chars = parse_line(line);
        let plain_line = plain_line_from_chars(styled_chars.as_slice());
        StyledLine { plain_line, styled_chars, gag: false }
    }

    /// Gives `style` to every cell that holds a character of an occurrence of
    /// `part` in the plain text (every position where `part` occurs, overlapping
    /// ones included; an empty `part` styles nothing).
    pub fn set_block_style(&mut self, part: &str, style: TextStyle)
        ensures
            final(self).cells() == restyle_blocks(old(self).cells(), old(self).plain_line@, part@, style),
            final(self).plain_line == old(self).plain_line,
            final(self).gag == old(self).gag,
    {
        let plain = chars_of(self.plain_line.as_str());
        let pc = chars_of(part);
        let cov = covered_chars(plain.as_slice(), pc.as_slice());
        let n = plain.len();
        let ghost orig = self.cells();
        let ghost target = restyle_blocks(orig, plain@, pc@, style);
        let mut start: usize = 0;
        let mut k: usize = 0;
        while k < self.styled_chars.len()
            invariant
                k <= self.styled_chars@.len(),
                self.styled_chars@.len() == orig.len(),
                n == plain@.len(),
                cov@.len() == n,
                forall|c: int| 0 <= c < n ==> cov@[c] == covered(plain@, pc@, c),
                start as int == if cell_start(orig, k as int) < n {
                    cell_start(orig, k as int)
                } else {
                    n as int
                },
                forall|j: int| 0 <= j < orig.len() ==> #[trigger] self.cells()[j] == if j < k {
                    target[j]
                } else {
                    orig[j]
                },
                self.plain_line == old(self).plain_line,
                plain@ == old(self).plain_line@,
                orig == old(self).cells(),
                target == restyle_blocks(orig, plain@, pc@, style),
                self.gag == old(self).gag,
                pc@ == part@,
            decreases self.styled_chars.len() - k,
        {
            let cl = chars_of(self.styled_chars[k].character.as_str());
            let clen = cl.len();
            assert(self.cells()[k as int] == orig[k as int]);
            assert(self.cells()[k as int].text == self.styled_chars@[k as int].character@);
            assert(orig[k as int].text.len() == clen);
            let ghost cs = cell_start(orig, k as int);
            let stop = if clen >= n - start {
                n
            } else {
                start + clen
            };
            let mut hit = false;
            let mut c = start;
            while c < stop
                invariant
                    start <= c <= stop <= n,
                    cov@.len() == n,
                    hit == exists|d: int| start <= d < c && #[trigger] cov@[d],
                decreases stop - c,
            {
                if cov[c] {
                    hit = true;
                }
                c = c + 1;
            }
            proof {
                assert(hit == cell_in_block(orig, plain@, pc@, k as int)) by {
                    if hit {
                        let d = choose|d: int| start <= d < stop && #[trigger] cov@[d];
                        assert(covered(plain@, pc@, d));
                        assert(cs <= d < cs + orig[k as int].text.len());
                    }
                    if cell_in_block(orig, plain@, pc@, k as int) {
                        let d = choose|d: int|
                            cs <= d < cs + orig[k as int].text.len() && #[trigger] covered(plain@, pc@, d);
                        lemma_covered_in_line(plain@, pc@, d);
                        assert(cov@[d]);
                    }
                }
            }
            let ghost before = self.styled_chars@;
            let ghost before_cells = self.cells();
            if hit {
                restyle_one(&mut self.styled_chars, k, style);
            }
            proof {
                assert forall|j: int| 0 <= j < orig.len() implies #[trigger] self.cells()[j] == if j < k + 1 {
                    target[j]
                } else {
                    orig[j]
                } by {
                    if j != k {
                        assert(self.styled_chars@[j] == before[j]);
                        assert(before_cells[j] == (if j < k { target[j] } else { orig[j] }));
                    } else {
                        assert(before_cells[j] == orig[j]);
                        assert(before[j].character@ == orig[j].text);
                        assert(target[j] == if cell_in_block(orig, plain@, pc@, j) {
                            Cell { text: orig[j].text, bold: style.bold, color: style.color }
                        } else {
                            orig[j]
                        });
                        if !hit {
                            assert(self.styled_chars@[j] == before[j]);
                        }
                    }
                }
            }
            start = stop;
            k = k + 1;
        }
        proof {
            assert(self.cells() =~= target);
        }
    }

    /// Gives `style` to the graphemes whose plain-text bytes fall in `range`
    /// (both ends clamped to the line length and falling on character boundaries).
    pub fn set_plain_byte_range_style(&mut self, range: Range<usize>, style: TextStyle)
        requires
            is_boundary(old(self).plain_line@, range.start as int),
            is_boundary(
                old(self).plain_line@,
                max_int(
                    clamp_bytes(old(self).plain_line@, range.start as int),
                    clamp_bytes(old(self).plain_line@, range.end as int),
                ),
            ),
        ensures
            final(self).cells() == restyle(
                old(self).cells(),
                prefix_grapheme_count(old(self).plain_line@, range.start as int),
                prefix_grapheme_count(
                    old(self).plain_line@,
                    max_int(
                    clamp_bytes(old(self).plain_line@, range.start as int),
                    clamp_bytes(old(self).plain_line@, range.end as int),
                ),
                ),
                style,
            ),
            final(self).plain_line == old(self).plain_line,
            final(self).gag == old(self).gag,
    {
        let len = byte_len(&self.plain_line);
        let start = if range.start < len {
            range.start
        } else {
            len
        };
        let end0 = if range.end < len {
            range.end
        } else {
            len
        };
        let end = if end0 > start {
            end0
        } else {
            start
        };
        assert(clamp_bytes(self.plain_line@, end as int) == max_int(
            clamp_bytes(self.plain_line@, range.start as int),
            clamp_bytes(self.plain_line@, range.end as int),
        ));
        let gs = plain_prefix_grapheme_count(&self.plain_line, start);
        let ge = plain_prefix_grapheme_count(&self.plain_line, end);
        let n = self.styled_chars.len();
        let hi = if ge < n {
            ge
        } else {
            n
        };
        let lo = if gs < hi {
            gs
        } else {
            hi
        };
        restyle_range(&mut self.styled_chars, lo, hi, style);
        proof {
            let o = cells_of(old(self).styled_chars@);
            assert(restyle(o, lo as int, hi as int, style) =~= restyle(o, gs as int, ge as int, style));
        }
    }

    /// Gives every grapheme of the plain text one style.
    pub fn set_line_style(&mut self, style: TextStyle)
        ensures
            final(self).cells() == uniform_cells(grapheme_clusters(old(self).plain_line@), style),
            final(self).plain_line == old(self).plain_line,
            final(self).gag == old(self).gag,
    {
        self.styled_chars = uniform_styled_chars(&self.plain_line, style);
    }

    /// Inserts `suffix` into the plain text at byte `byte_idx` (clamped to the end)
    /// and splices its graphemes into the cells after as many cells as there are
    /// graphemes before that byte; they take the style of the cell before the
    /// insertion point, or of the first cell when inserting at the front.
    pub fn insert_plain_after_plain_byte_idx(&mut self, byte_idx: usize, suffix: &str)
        requires
            suffix@.len() > 0 ==> is_boundary(old(self).plain_line@, byte_idx as int),
            suffix@.len() > 0 ==> prefix_grapheme_count(old(self).plain_line@, byte_idx as int)
                <= old(self).styled_chars@.len(),
        ensures
            suffix@.len() == 0 ==> final(self).cells() == old(self).cells() && final(self).plain_line
                == old(self).plain_line,
            suffix@.len() > 0 ==> ({
                let p = old(self).plain_line@;
                let ci = char_index_at_byte(p, clamp_bytes(p, byte_idx as int))->0;
                let g = prefix_grapheme_count(p, byte_idx as int);
                let c = old(self).cells();
                &&& final(self).plain_line@ == p.take(ci) + suffix@ + p.skip(ci)
                &&& final(self).cells() == c.take(g) + uniform_cells(
                    grapheme_clusters(suffix@),
                    insert_style(c, g),
                ) + c.skip(g)
            }),
            final(self).gag == old(self).gag,
    {
        let suffix_chars = chars_of(suffix);
        if suffix_chars.len() == 0 {
            return;
        }
        let len = byte_len(&self.plain_line);
        let idx = if byte_idx < len {
            byte_idx
        } else {
            len
        };
        let g = plain_prefix_grapheme_count(&self.plain_line, idx);
        assert(clamp_bytes(self.plain_line@, idx as int) == clamp_bytes(self.plain_line@, byte_idx as int));
        let style = if g > 0 {
            TextStyle::new(self.styled_chars[g - 1].color, self.styled_chars[g - 1].bold)
        } else if self.styled_chars.len() > 0 {
            TextStyle::new(self.styled_chars[0].color, self.styled_chars[0].bold)
        } else {
            TextStyle::DEFAULT()
        };
        let new_styled = uniform_styled_chars(suffix, style);
        let chars = chars_of(&self.plain_line);
        let ci = match char_index_of_byte(chars.as_slice(), idx) {
            Some(ci) => ci,
            None => {
                return;
            },
        };
        let mut text = sub_chars(chars.as_slice(), 0, ci);
        crate::text::push_str_chars(&mut text, suffix);
        let tail = sub_chars(chars.as_slice(), ci, chars.len());
        crate::text::push_all(&mut text, tail.as_slice());
        self.plain_line = crate::text::string_of(text.as_slice());
        let ghost c = cells_of(self.styled_chars@);
        let mut old_chars: Vec<StyledChar> = Vec::new();
        std::mem::swap(&mut old_chars, &mut self.styled_chars);
        let mut rebuilt: Vec<StyledChar> = Vec::new();
        let mut rest: Vec<StyledChar> = Vec::new();
        let mut k: usize = old_chars.len();
        let ghost all = old_chars@;
        while k > 0
            invariant
                k <= all.len(),
                old_chars@ == all.take(k as int),
                rest@ == all.skip(k as int).reverse(),
            decreases k,
        {
            let x = old_chars.pop().unwrap();
            rest.push(x);
            k = k - 1;
            proof {
                assert(old_chars@ =~= all.take(k as int));
                assert(rest@ =~= all.skip(k as int).reverse());
            }
        }
        let mut i: usize = 0;
        while i < g
            invariant
                g <= all.len(),
                i <= g,
                rest@ == all.skip(i as int).reverse(),
                rebuilt@ == all.take(i as int),
            decreases g - i,
        {
            let x = rest.pop().unwrap();
            rebuilt.push(x);
            i = i + 1;
            proof {
                assert(rest@ =~= all.skip(i as int).reverse());
                assert(rebuilt@ =~= all.take(i as int));
            }
        }
        let ghost mid = new_styled@;
        let mut ns = new_styled;
        let mut nr: Vec<StyledChar> = Vec::new();
        while ns.len() > 0
            invariant
                ns@.len() <= mid.len(),
                ns@ == mid.take(ns@.len() as int),
                nr@ == mid.skip(ns@.len() as int).reverse(),
            decreases ns@.len(),
        {
            let x = ns.pop().unwrap();
            nr.push(x);
            proof {
                assert(ns@ =~= mid.take(ns@.len() as int));
                assert(nr@ =~= mid.skip(ns@.len() as int).reverse());
            }
        }
        proof {
            assert(mid.skip(0) =~= mid);
        }
        while nr.len() > 0
            invariant
                nr@.len() <= mid.len(),
                nr@ == mid.skip(mid.len() - nr@.len()).reverse(),
                rebuilt@ == all.take(g as int) + mid.take(mid.len() - nr@.len()),
            decreases nr@.len(),
        {
            let x = nr.pop().unwrap();
            rebuilt.push(x);
            proof {
                assert(nr@ =~= mid.skip(mid.len() - nr@.len()).reverse());
                assert(rebuilt@ =~= all.take(g as int) + mid.take(mid.len() - nr@.len()));
            }
        }
        while rest.len() > 0
            invariant
                rest@.len() <= all.len() - g,
                rest@ == all.skip(all.len() - rest@.len()).reverse(),
                rebuilt@ == all.take(g as int) + mid + all.subrange(g as int, all.len() - rest@.len()),
            decreases rest@.len(),
        {
            let x = rest.pop().unwrap();
            rebuilt.push(x);
            proof {
                assert(rest@ =~= all.skip(all.len() - rest@.len()).reverse());
                assert(rebuilt@ =~= all.take(g as int) + mid + all.subrange(
                    g as int,
                    all.len() - rest@.len(),
                ));
            }
        }
        self.styled_chars = rebuilt;
        proof {
            assert(all.subrange(g as int, all.len() as int) =~= all.skip(g as int));
            assert(cells_of(self.styled_chars@) =~= c.take(g as int) + cells_of(mid) + c.skip(g as int));
        }
    }
}


/// A character as drawn: its text, its colour on screen and whether bold.
#[derive(Debug, Clone, PartialEq, Eq)]
pub struct DrawnChar {
    pub text: String,
    pub color: TerminalColor,
    pub bold: bool,
}

/// How a cell is drawn.
pub open spec fn drawn(c: Cell) -> (Seq<char>, TerminalColor, bool) {
    (c.text, color_of(TextStyle { color: c.color, bold: c.bold }), c.bold)
}

/// Cells as drawn.
pub open spec fn drawn_cells(l: Seq<Cell>) -> Seq<(Seq<char>, TerminalColor, bool)> {
    l.map_values(|c: Cell| drawn(c))
}

/// Screen lines of cells as drawn.
pub open spec fn drawn_chunks(ls: Seq<Seq<Cell>>) -> Seq<Seq<(Seq<char>, TerminalColor, bool)>> {
    ls.map_values(|l: Seq<Cell>| drawn_cells(l))
}

pub open spec fn drawn_view(v: Seq<DrawnChar>) -> Seq<(Seq<char>, TerminalColor, bool)> {
    v.map_values(|d: DrawnChar| (d.text@, d.color, d.bold))
}

pub open spec fn drawn_lines(v: Seq<Vec<DrawnChar>>) -> Seq<Seq<(Seq<char>, TerminalColor, bool)>> {
    v.map_values(|l: Vec<DrawnChar>| drawn_view(l@))
}

/// Cells cut into lines of `w` cells, the last possibly shorter.
pub open spec fn chunks(cells: Seq<Cell>, w: int) -> Seq<Seq<Cell>>
    decreases cells.len(),
{
    if w <= 0 || cells.len() == 0 {
        seq![]
    } else if cells.len() <= w {
        seq![cells]
    } else {
        seq![cells.take(w)] + chunks(cells.skip(w), w)
    }
}

fn drawn_range(chars: &[StyledChar], start: usize, end: usize) -> (r: Vec<DrawnChar>)
    requires
        start <= end <= chars@.len(),
    ensures
        drawn_view(r@) == drawn_cells(cells_of(chars@.subrange(start as int, end as int))),
{
    let ghost cs = cells_of(chars@.subrange(start as int, end as int));
    let mut r: Vec<DrawnChar> = Vec::new();
    let mut i: usize = start;
    while i < end
        invariant
            start <= i <= end <= chars@.len(),
            cs == cells_of(chars@.subrange(start as int, end as int)),
            drawn_view(r@) == drawn_cells(cs.take(i - start)),
        decreases end - i,
    {
        let c = &chars[i];
        let color = get_color(TextStyle { color: c.color, bold: c.bold });
        let ghost before = drawn_view(r@);
        r.push(DrawnChar { text: c.character.clone(), color, bold: c.bold });
        assert(cs[i - start] == c.cell());
        assert(drawn_view(r@) =~= before.push(drawn(c.cell())));
        assert(drawn_cells(cs.take(i + 1 - start)) =~= before.push(drawn(c.cell())));
        i = i + 1;
    }
    assert(cs.take(end - start) =~= cs);
    r
}

/// The cells of a line as drawn.
pub fn line_from_chars(chars: &[StyledChar]) -> (r: Vec<DrawnChar>)
    ensures
        drawn_view(r@) == drawn_cells(cells_of(chars@)),
{
    assert(chars@.subrange(0, chars@.len() as int) =~= chars@);
    drawn_range(chars, 0, chars.len())
}

impl StyledLine {
    /// The line cut into screen lines of `width` cells; an empty line is one
    /// empty screen line, and no width gives none.
    pub fn to_wrapped_lines(&self, width: u16) -> (lines: Vec<Vec<DrawnChar>>)
        ensures
            drawn_lines(lines@) == if width == 0 {
                Seq::<Seq<(Seq<char>, TerminalColor, bool)>>::empty()
            } else if self.cells().len() == 0 {
                seq![Seq::<(Seq<char>, TerminalColor, bool)>::empty()]
            } else {
                drawn_chunks(chunks(self.cells(), width as int))
            },
    {
        let mut lines: Vec<Vec<DrawnChar>> = Vec::new();
        if width == 0 {
            assert(drawn_lines(lines@) =~= Seq::<Seq<(Seq<char>, TerminalColor, bool)>>::empty());
            return lines;
        }
        if self.styled_chars.len() == 0 {
            lines.push(Vec::new());
            assert(drawn_view(lines@[0]@) =~= Seq::<(Seq<char>, TerminalColor, bool)>::empty());
            assert(drawn_lines(lines@) =~= seq![Seq::<(Seq<char>, TerminalColor, bool)>::empty()]);
            return lines;
        }
        let w = width as usize;
        let n = self.styled_chars.len();
        let ghost cells = self.cells();
                let mut start: usize = 0;
        assert(cells.skip(0) =~= cells);
        assert(drawn_lines(lines@) =~= Seq::<Seq<(Seq<char>, TerminalColor, bool)>>::empty());
        while start < n
            invariant
                w >= 1,
                n == cells.len(),
                cells == self.cells(),
                start <= n,
                drawn_chunks(chunks(cells, w as int)) == drawn_lines(lines@) + drawn_chunks(chunks(
                    cells.skip(start as int),
                    w as int,
                )),
            decreases n - start,
        {
            let end = if w < n - start {
                start + w
            } else {
                n
            };
            let piece = drawn_range(self.styled_chars.as_slice(), start, end);
            proof {
                let rest = cells.skip(start as int);
                assert(cells_of(self.styled_chars@.subrange(start as int, end as int)) =~= rest.take(
                    end - start,
                ));
                if rest.len() <= w {
                    assert(rest.take(end - start) =~= rest);
                    assert(rest.skip(end - start) =~= Seq::<Cell>::empty());
                    assert(cells.skip(end as int) =~= rest.skip(end - start));
                } else {
                    assert(cells.skip(end as int) =~= rest.skip(w as int));
                }
            }
            let ghost before = drawn_lines(lines@);
            lines.push(piece);
            assert(drawn_lines(lines@) =~= before.push(drawn_view(piece@)));
            proof {
                let rest = cells.skip(start as int);
                let c = chunks(rest, w as int);
                assert(c[0] =~= rest.take(end - start));
                assert(drawn_view(piece@) == drawn_cells(cells_of(self.styled_chars@.subrange(start as int, end as int))));
                assert(cells_of(self.styled_chars@.subrange(start as int, end as int)) == c[0]);
                assert(drawn_chunks(c) =~= seq![drawn_cells(c[0])] + drawn_chunks(chunks(cells.skip(end as int), w as int)));
                assert(before + drawn_chunks(c) =~= drawn_lines(lines@) + drawn_chunks(chunks(cells.skip(end as int), w as int)));
            }
            start = end;
        }
        assert(chunks(cells.skip(n as int), w as int) =~= Seq::<Seq<Cell>>::empty());
        assert(drawn_lines(lines@) + Seq::<Seq<(Seq<char>, TerminalColor, bool)>>::empty() =~= drawn_lines(lines@));
        lines
    }
}

} // verus!
