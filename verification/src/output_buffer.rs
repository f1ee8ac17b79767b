//! The lines of game output kept for display.
use crate::ansi::line::StyledLine;
use vstd::prelude::*;

verus! {

/// The lines that are not gagged, in order.
pub open spec fn shown(lines: Seq<StyledLine>) -> Seq<StyledLine> {
    lines.filter(|l: StyledLine| !l.gag)
}

/// Output lines in arrival order; gagged lines never enter.
pub struct OutputBuffer {
    lines: Vec<StyledLine>,
}

impl OutputBuffer {
    pub closed spec fn view(&self) -> Seq<StyledLine> {
        self.lines@
    }

    pub fn new() -> (r: Self)
        ensures
            r.view() == Seq::<StyledLine>::empty(),
    {
        OutputBuffer { lines: Vec::new() }
    }

    pub fn lines(&self) -> (r: &[StyledLine])
        ensures
            r@ == self.view(),
    {
        self.lines.as_slice()
    }

    /// Appends the lines that are not gagged, keeping their order.
    pub fn append_lines(&mut self, lines: Vec<StyledLine>)
        ensures
            final(self).view() == old(self).view() + shown(lines@),
    {
        let mut lines = lines;
        remove_gagged_lines(&mut lines);
        self.lines.append(&mut lines);
    }
}

/// Drops the gagged lines, keeping the others in order.
pub fn remove_gagged_lines(lines: &mut Vec<StyledLine>)
    ensures
        final(lines)@ == shown(old(lines)@),
{
    let ghost all = lines@;
    let mut src: Vec<StyledLine> = Vec::new();
    std::mem::swap(&mut src, lines);
    let mut rev: Vec<StyledLine> = Vec::new();
    while src.len() > 0
        invariant
            src@.len() <= all.len(),
            src@ == all.take(src@.len() as int),
            rev@ == all.skip(src@.len() as int).reverse(),
        decreases src@.len(),
    {
        let l = src.pop().unwrap();
        rev.push(l);
        proof {
            assert(src@ =~= all.take(src@.len() as int));
            assert(rev@ =~= all.skip(src@.len() as int).reverse());
        }
    }
    proof {
        assert(all.skip(0) =~= all);
        assert(all.take(0) =~= Seq::<StyledLine>::empty());
        reveal(Seq::filter);
    }
    assert(lines@ =~= shown(all.take(0)));
    while rev.len() > 0
        invariant
            rev@.len() <= all.len(),
            rev@ == all.skip(all.len() - rev@.len()).reverse(),
            lines@ == shown(all.take(all.len() - rev@.len())),
        decreases rev@.len(),
    {
        let l = rev.pop().unwrap();
        let ghost done = all.take(all.len() - rev@.len() - 1);
        proof {
            assert(all.take(all.len() - rev@.len()).drop_last() =~= done);
            assert(all.take(all.len() - rev@.len()).last() == l);
        }
        if !l.gag {
            lines.push(l);
        }
        proof {
            reveal(Seq::filter);
            assert(rev@ =~= all.skip(all.len() - rev@.len()).reverse());
        }
    }
    proof {
        assert(all.take(all.len() as int) =~= all);
    }
}

impl Default for OutputBuffer {
    fn default() -> (r: Self)
        ensures
            r.view() == Seq::<StyledLine>::empty(),
    {
        OutputBuffer::new()
    }
}

} // verus!
