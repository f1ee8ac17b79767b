//! A run of text in one SGR style, as the block renderer keeps it.
use crate::ansi::style::AnsiCode;
use vstd::prelude::*;

verus! {

/// Bold flag, colour and text of a block.
pub struct BlockView {
    pub bold: bool,
    pub color: AnsiCode,
    pub text: Seq<char>,
}

/// A fresh block: not bold, white, no text.
pub open spec fn fresh_block() -> BlockView {
    BlockView { bold: false, color: AnsiCode::White, text: seq![] }
}

/// One code applied to a block: reset starts a fresh block, bold on and off set
/// the flag, the default colour is white, and any other code is the colour.
pub open spec fn block_step(b: BlockView, code: AnsiCode) -> BlockView {
    match code {
        AnsiCode::Reset => fresh_block(),
        AnsiCode::Bold => BlockView { bold: true, ..b },
        AnsiCode::BoldOff => BlockView { bold: false, ..b },
        AnsiCode::DefaultColor => BlockView { color: AnsiCode::White, ..b },
        c => BlockView { color: c, ..b },
    }
}

/// The block after a code list, first to last.
pub open spec fn block_after(b: BlockView, codes: Seq<AnsiCode>) -> BlockView
    decreases codes.len(),
{
    if codes.len() == 0 {
        b
    } else {
        block_step(block_after(b, codes.drop_last()), codes.last())
    }
}

/// Text in one style.
#[derive(Debug)]
pub struct StyledTextBlock {
    pub bold: bool,
    pub color: AnsiCode,
    pub text: String,
}

impl StyledTextBlock {
    pub open spec fn block_view(&self) -> BlockView {
        BlockView { bold: self.bold, color: self.color, text: self.text@ }
    }

    pub fn new() -> (r: Self)
        ensures
            r.block_view() == fresh_block(),
    {
        let r = StyledTextBlock { bold: false, color: AnsiCode::White, text: String::new() };
        assert(r.text@ =~= Seq::<char>::empty());
        r
    }

    /// Starts over as a fresh block.
    pub fn reset(&mut self)
        ensures
            final(self).block_view() == fresh_block(),
    {
        *self = StyledTextBlock::new();
    }

    /// Applies the codes in order.
    pub fn process_ansi_codes(&mut self, ansi_codes: &[AnsiCode])
        ensures
            final(self).block_view() == block_after(old(self).block_view(), ansi_codes@),
    {
        let ghost start = self.block_view();
        let mut i: usize = 0;
        proof {
            assert(ansi_codes@.take(0) =~= Seq::<AnsiCode>::empty());
        }
        while i < ansi_codes.len()
            invariant
                i <= ansi_codes@.len(),
                self.block_view() == block_after(start, ansi_codes@.take(i as int)),
            decreases ansi_codes.len() - i,
        {
            match ansi_codes[i] {
                AnsiCode::Reset => self.reset(),
                AnsiCode::Bold => self.bold = true,
                AnsiCode::BoldOff => self.bold = false,
                AnsiCode::DefaultColor => self.color = AnsiCode::White,
                color => self.color = color,
            }
            proof {
                assert(ansi_codes@.take(i + 1).drop_last() =~= ansi_codes@.take(i as int));
            }
            i = i + 1;
        }
        proof {
            assert(ansi_codes@.take(ansi_codes@.len() as int) =~= ansi_codes@);
        }
    }
}

} // verus!
