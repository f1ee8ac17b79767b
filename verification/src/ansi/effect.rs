//! Visual edits applied to a [`StyledLine`].
use crate::ansi::line::{
    clamp_bytes, insert_style, is_boundary, is_boundary_exec, max_int, plain_prefix_grapheme_count,
    prefix_grapheme_count, restyle, restyle_blocks, uniform_cells, StyledLine,
};
use crate::ansi::segment::{char_index_at_byte, grapheme_clusters};
use crate::ansi::style::TextStyle;
use std::ops::Range;
use vstd::prelude::*;

verus! {

/// One visual edit to an existing line.
#[derive(Debug, PartialEq, Eq)]
pub enum LineEffect {
    /// One style for every grapheme of the line.
    StyleLine(TextStyle),
    /// A style for every occurrence of `text` in the plain text.
    StyleBlock { text: String, style: TextStyle },
    /// A style for the graphemes whose plain-text bytes fall in `range`.
    StylePlainByteRange { range: Range<usize>, style: TextStyle },
    /// Inserts `suffix` at plain-text byte `byte_idx`.
    InsertPlainAfterPlainByteIdx { byte_idx: usize, suffix: String },
}

/// The clamped end of a byte range over `p`.
pub open spec fn range_end(p: Seq<char>, range: Range<usize>) -> int {
    max_int(clamp_bytes(p, range.start as int), clamp_bytes(p, range.end as int))
}

impl LineEffect {
    /// Whether the edit can be made to `line` without an out-of-range index or a
    /// byte offset inside a character.
    pub open spec fn applicable(&self, line: StyledLine) -> bool {
        let p = line.plain_line@;
        match *self {
            LineEffect::StyleLine(_) => true,
            LineEffect::StyleBlock { .. } => true,
            LineEffect::StylePlainByteRange { range, style: _ } => is_boundary(
                p,
                range.start as int,
            ) && is_boundary(p, range_end(p, range)),
            LineEffect::InsertPlainAfterPlainByteIdx { byte_idx, suffix } => suffix@.len() > 0
                ==> is_boundary(p, byte_idx as int) && prefix_grapheme_count(p, byte_idx as int)
                <= line.styled_chars@.len(),
        }
    }

    /// What the edit makes of `before`: each arm is the contract of the matching
    /// `StyledLine` mutator (`set_line_style`, `set_block_style`,
    /// `set_plain_byte_range_style`, `insert_plain_after_plain_byte_idx`).
    pub open spec fn applied(&self, before: StyledLine, after: StyledLine) -> bool {
        let p = before.plain_line@;
        let c = before.cells();
        &&& after.gag == before.gag
        &&& match *self {
            LineEffect::StyleLine(style) => after.plain_line == before.plain_line && after.cells()
                == uniform_cells(grapheme_clusters(p), style),
            LineEffect::StyleBlock { text, style } => after.plain_line == before.plain_line
                && after.cells() == restyle_blocks(c, p, text@, style),
            LineEffect::StylePlainByteRange { range, style } => after.plain_line
                == before.plain_line && after.cells() == restyle(
                c,
                prefix_grapheme_count(p, range.start as int),
                prefix_grapheme_count(p, range_end(p, range)),
                style,
            ),
            LineEffect::InsertPlainAfterPlainByteIdx { byte_idx, suffix } => if suffix@.len()
                == 0 {
                after.plain_line == before.plain_line && after.cells() == c
            } else {
                let ci = char_index_at_byte(p, clamp_bytes(p, byte_idx as int))->0;
                let g = prefix_grapheme_count(p, byte_idx as int);
                &&& after.plain_line@ == p.take(ci) + suffix@ + p.skip(ci)
                &&& after.cells() == c.take(g) + uniform_cells(
                    grapheme_clusters(suffix@),
                    insert_style(c, g),
                ) + c.skip(g)
            },
        }
    }

    /// Makes the edit to `line` by calling the matching mutator, so the line
    /// ends as that mutator leaves it; the effect itself is not changed.
    pub fn apply_to(&self, line: &mut StyledLine)
        requires
            self.applicable(*old(line)),
        ensures
            self.applied(*old(line), *final(line)),
    {
        match self {
            LineEffect::StyleLine(style) => line.set_line_style(*style),
            LineEffect::StyleBlock { text, style } => line.set_block_style(text, *style),
            LineEffect::StylePlainByteRange { range, style } => {
                line.set_plain_byte_range_style(range.start..range.end, *style);
            },
            LineEffect::InsertPlainAfterPlainByteIdx { byte_idx, suffix } => {
                line.insert_plain_after_plain_byte_idx(*byte_idx, suffix);
            },
        }
    }

    /// Makes the edit where it can be made, and says whether it was; the line
    /// stays as it was where it cannot.
    pub fn try_apply_to(&self, line: &mut StyledLine) -> (done: bool)
        ensures
            done == self.applicable(*old(line)),
            done ==> self.applied(*old(line), *final(line)),
            !done ==> *final(line) == *old(line),
    {
        let ok = match self {
            LineEffect::StyleLine(_) => true,
            LineEffect::StyleBlock { .. } => true,
            LineEffect::StylePlainByteRange { range, style: _ } => {
                let len = crate::ansi::line::byte_len(&line.plain_line);
                let s = if range.start < len {
                    range.start
                } else {
                    len
                };
                let e0 = if range.end < len {
                    range.end
                } else {
                    len
                };
                let e = if e0 > s {
                    e0
                } else {
                    s
                };
                assert(clamp_bytes(line.plain_line@, e as int) == range_end(
                    line.plain_line@,
                    *range,
                ));
                is_boundary_exec(&line.plain_line, range.start) && is_boundary_exec(
                    &line.plain_line,
                    e,
                )
            },
            LineEffect::InsertPlainAfterPlainByteIdx { byte_idx, suffix } => {
                let sc = crate::text::chars_of(suffix);
                if sc.len() == 0 {
                    true
                } else if !is_boundary_exec(&line.plain_line, *byte_idx) {
                    false
                } else {
                    plain_prefix_grapheme_count(&line.plain_line, *byte_idx)
                        <= line.styled_chars.len()
                }
            },
        };
        if ok {
            self.apply_to(line);
        }
        ok
    }
}

} // verus!
