//! The command line being typed: its text, a cursor that moves by graphemes and
//! words, and the history of submitted lines.
use crate::ansi::line::byte_len;
use crate::ansi::segment::{
    byte_offsets, bytes_len, char_index_at_byte, char_index_of_byte, flatten, grapheme_clusters,
    graphemes_of, lemma_char_index_at, lemma_flatten_first, strings_view,
};
use crate::text::{chars_of, push_all, string_of, sub_chars};
use unicode_segmentation::UnicodeSegmentation;
use vstd::prelude::*;

verus! {

/// Byte offsets at which `UnicodeSegmentation::unicode_word_indices` finds the words of `s`.
pub uninterp spec fn word_start_indices(s: Seq<char>) -> Seq<usize>;

/// The byte offsets of the words of `s` (`UnicodeSegmentation::unicode_word_indices`),
/// in the order the crate yields them. Each is where a word of `s` begins, so a
/// character boundary of `s`; which offsets they are is not stated here.
#[verifier::external_body]
fn word_starts(s: &str) -> (r: Vec<usize>)
    ensures
        r@ == word_start_indices(s@),
        forall|i: int| 0 <= i < r@.len() ==> char_index_at_byte(s@, #[trigger] r@[i] as int) is Some,
{
    s.unicode_word_indices().map(|(i, _)| i).collect()
}

/// The first offset in `ws` beyond `c`.
pub open spec fn first_greater(ws: Seq<usize>, c: int) -> Option<usize>
    decreases ws.len(),
{
    if ws.len() == 0 {
        None
    } else if ws[0] > c {
        Some(ws[0])
    } else {
        first_greater(ws.drop_first(), c)
    }
}

/// The command line being edited.
#[derive(Debug)]
pub struct InputState {
    current_typed_input: String,
    displayed_input: String,
    cursor_position: usize,
    history: Vec<String>,
    cur_history_pos: usize,
}

/// The byte offset of character index `i` of `s`.
pub open spec fn byte_at(s: Seq<char>, i: int) -> int {
    bytes_len(s.take(i)) as int
}

impl InputState {
    /// The text shown on the command line.
    pub closed spec fn shown(&self) -> Seq<char> {
        self.displayed_input@
    }

    /// What the user typed before walking into the history.
    pub closed spec fn typed(&self) -> Seq<char> {
        self.current_typed_input@
    }

    /// The cursor as a byte offset into the shown text.
    pub closed spec fn cursor(&self) -> int {
        self.cursor_position as int
    }

    pub closed spec fn history(&self) -> Seq<Seq<char>> {
        strings_view(self.history@)
    }

    pub closed spec fn history_pos(&self) -> int {
        self.cur_history_pos as int
    }

    /// The cursor as a character index into the shown text.
    pub open spec fn cursor_index(&self) -> int {
        char_index_at_byte(self.shown(), self.cursor())->0
    }

    /// The cursor sits on a character boundary; the history position is at most
    /// one past the last entry.
    pub open spec fn wf(&self) -> bool {
        &&& char_index_at_byte(self.shown(), self.cursor()) is Some
        &&& 0 <= self.history_pos() <= self.history().len()
    }

    pub fn new() -> (r: Self)
        ensures
            r.wf(),
            r.shown() == Seq::<char>::empty(),
            r.typed() == Seq::<char>::empty(),
            r.cursor() == 0,
            r.history() == Seq::<Seq<char>>::empty(),
            r.history_pos() == 0,
    {
        let r = InputState {
            current_typed_input: String::new(),
            displayed_input: String::new(),
            cursor_position: 0,
            history: Vec::new(),
            cur_history_pos: 0,
        };
        proof {
            lemma_char_index_at(r.displayed_input@, 0);
            assert(r.displayed_input@.take(0) =~= Seq::<char>::empty());
            assert(r.history() =~= Seq::<Seq<char>>::empty());
        }
        r
    }

    /// The shown text as characters, with the cursor's character index.
    fn chars_and_cursor(&self) -> (r: (Vec<char>, usize))
        requires
            self.wf(),
        ensures
            r.0@ == self.shown(),
            r.1 == self.cursor_index(),
            r.1 <= self.shown().len(),
            bytes_len(self.shown()) <= usize::MAX,
            byte_at(self.shown(), r.1 as int) == self.cursor(),
    {
        let chars = chars_of(&self.displayed_input);
        let _n = byte_len(&self.displayed_input);
        match char_index_of_byte(chars.as_slice(), self.cursor_position) {
            Some(ci) => (chars, ci),
            None => (chars, 0),
        }
    }

    /// Makes `text` shown with the cursor at character index `ci`.
    fn show(&mut self, text: Vec<char>, ci: usize)
        requires
            ci <= text@.len(),
        ensures
            final(self).shown() == text@,
            final(self).cursor_index() == ci,
            char_index_at_byte(final(self).shown(), final(self).cursor()) is Some,
            final(self).typed() == old(self).typed(),
            final(self).history() == old(self).history(),
            final(self).history_pos() == old(self).history_pos(),
    {
        let s = string_of(text.as_slice());
        let _n = byte_len(&s);
        let offs = byte_offsets(text.as_slice());
        self.cursor_position = offs[ci];
        self.displayed_input = s;
        proof {
            lemma_char_index_at(text@, ci as int);
        }
    }

    /// The typed text follows the shown text, and the history walk restarts.
    fn sync_current_typed_input(&mut self)
        ensures
            final(self).typed() == old(self).shown(),
            final(self).shown() == old(self).shown(),
            final(self).cursor() == old(self).cursor(),
            final(self).history() == old(self).history(),
            final(self).history_pos() == old(self).history().len(),
    {
        self.current_typed_input = self.displayed_input.clone();
        self.cur_history_pos = self.history.len();
    }

    /// Inserts `c` at the cursor and moves the cursor past it.
    pub fn insert_char(&mut self, c: char)
        requires
            old(self).wf(),
        ensures
            final(self).wf(),
            final(self).shown() == old(self).shown().take(old(self).cursor_index()) + seq![c]
                + old(self).shown().skip(old(self).cursor_index()),
            final(self).cursor_index() == old(self).cursor_index() + 1,
            final(self).typed() == final(self).shown(),
            final(self).history() == old(self).history(),
            final(self).history_pos() == old(self).history().len(),
    {
        let (chars, ci) = self.chars_and_cursor();
        let mut v = sub_chars(chars.as_slice(), 0, ci);
        v.push(c);
        let tail = sub_chars(chars.as_slice(), ci, chars.len());
        push_all(&mut v, tail.as_slice());
        assert(v@.len() == v.len());
        self.show(v, ci + 1);
        self.sync_current_typed_input();
    }

    /// The character index where the grapheme before the cursor starts, if any.
    fn previous_grapheme_start(&self) -> (r: Option<usize>)
        requires
            self.wf(),
        ensures
            ({
                let cl = grapheme_clusters(self.shown().take(self.cursor_index()));
                match r {
                    Some(k) => cl.len() > 0 && k == self.cursor_index() - cl.last().len() && k
                        >= 0,
                    None => cl.len() == 0,
                }
            }),
    {
        let (chars, ci) = self.chars_and_cursor();
        let prefix = sub_chars(chars.as_slice(), 0, ci);
        let ps = string_of(prefix.as_slice());
        let gs = graphemes_of(&ps);
        if gs.len() == 0 {
            return None;
        }
        let last = chars_of(&gs[gs.len() - 1]);
        proof {
            let cl = strings_view(gs@);
            assert(flatten(cl) == flatten(cl.drop_last()) + cl.last());
        }
        Some(ci - last.len())
    }

    /// Deletes the grapheme before the cursor.
    pub fn backspace(&mut self)
        requires
            old(self).wf(),
        ensures
            final(self).wf(),
            ({
                let o = *old(self);
                let cl = grapheme_clusters(o.shown().take(o.cursor_index()));
                if o.cursor() == 0 || cl.len() == 0 {
                    *final(self) == o
                } else {
                    let k = o.cursor_index() - cl.last().len();
                    &&& final(self).shown() == o.shown().take(k) + o.shown().skip(o.cursor_index())
                    &&& final(self).cursor_index() == k
                    &&& final(self).typed() == final(self).shown()
                    &&& final(self).history() == o.history()
                    &&& final(self).history_pos() == o.history().len()
                }
            }),
    {
        if self.cursor_position == 0 {
            return;
        }
        let start = match self.previous_grapheme_start() {
            Some(k) => k,
            None => {
                return;
            },
        };
        let (chars, ci) = self.chars_and_cursor();
        let mut v = sub_chars(chars.as_slice(), 0, start);
        let tail = sub_chars(chars.as_slice(), ci, chars.len());
        push_all(&mut v, tail.as_slice());
        self.show(v, start);
        self.sync_current_typed_input();
    }

    /// Moves the cursor back over one grapheme.
    pub fn move_cursor_left(&mut self)
        requires
            old(self).wf(),
        ensures
            final(self).wf(),
            final(self).shown() == old(self).shown(),
            final(self).typed() == old(self).typed(),
            final(self).history() == old(self).history(),
            final(self).history_pos() == old(self).history_pos(),
            ({
                let cl = grapheme_clusters(old(self).shown().take(old(self).cursor_index()));
                final(self).cursor_index() == if cl.len() == 0 {
                    old(self).cursor_index()
                } else {
                    old(self).cursor_index() - cl.last().len()
                }
            }),
    {
        if let Some(k) = self.previous_grapheme_start() {
            let (chars, _ci) = self.chars_and_cursor();
            self.show(chars, k);
        }
    }

    /// Moves the cursor forward over one grapheme.
    pub fn move_cursor_right(&mut self)
        requires
            old(self).wf(),
        ensures
            final(self).wf(),
            final(self).shown() == old(self).shown(),
            final(self).typed() == old(self).typed(),
            final(self).history() == old(self).history(),
            final(self).history_pos() == old(self).history_pos(),
            ({
                let o = *old(self);
                let cl = grapheme_clusters(o.shown().skip(o.cursor_index()));
                final(self).cursor_index() == if o.cursor_index() >= o.shown().len() || cl.len()
                    == 0 {
                    o.cursor_index()
                } else {
                    o.cursor_index() + cl[0].len()
                }
            }),
    {
        let (chars, ci) = self.chars_and_cursor();
        if ci >= chars.len() {
            return;
        }
        let rest = sub_chars(chars.as_slice(), ci, chars.len());
        let rs = string_of(rest.as_slice());
        let gs = graphemes_of(&rs);
        if gs.len() == 0 {
            return;
        }
        let first = chars_of(&gs[0]);
        proof {
            let cl = strings_view(gs@);
            lemma_flatten_first(cl);
            assert(cl[0] == first@);
            assert(flatten(cl) == rs@);
            assert(first@.len() <= rest@.len());
        }
        self.show(chars, ci + first.len());
    }

    /// Moves the cursor to the start of the word it is in or the one before.
    pub fn move_cursor_word_left(&mut self)
        requires
            old(self).wf(),
        ensures
            final(self).wf(),
            final(self).shown() == old(self).shown(),
            final(self).typed() == old(self).typed(),
            final(self).history() == old(self).history(),
            final(self).history_pos() == old(self).history_pos(),
            ({
                let o = *old(self);
                let ws = word_start_indices(o.shown().take(o.cursor_index()));
                final(self).cursor() == if o.cursor() == 0 {
                    0
                } else if ws.len() > 0 {
                    ws.last() as int
                } else {
                    0
                }
            }),
    {
        if self.cursor_position == 0 {
            return;
        }
        let (chars, ci) = self.chars_and_cursor();
        let prefix = sub_chars(chars.as_slice(), 0, ci);
        let ps = string_of(prefix.as_slice());
        let ws = word_starts(&ps);
        let target = if ws.len() > 0 {
            ws[ws.len() - 1]
        } else {
            0
        };
        let _n = byte_len(&ps);
        let j = match char_index_of_byte(prefix.as_slice(), target) {
            Some(j) => j,
            None => 0,
        };
        proof {
            if ws@.len() == 0 {
                assert(prefix@.take(0) =~= Seq::<char>::empty());
                lemma_char_index_at(prefix@, 0);
            }
            assert(prefix@.take(j as int) =~= chars@.take(j as int));
        }
        self.show(chars, j);
    }

    /// Moves the cursor to the start of the next word, or to the end.
    pub fn move_cursor_word_right(&mut self)
        requires
            old(self).wf(),
        ensures
            final(self).wf(),
            final(self).shown() == old(self).shown(),
            final(self).typed() == old(self).typed(),
            final(self).history() == old(self).history(),
            final(self).history_pos() == old(self).history_pos(),
            final(self).cursor() == match first_greater(
                word_start_indices(old(self).shown()),
                old(self).cursor(),
            ) {
                Some(w) => w as int,
                None => bytes_len(old(self).shown()) as int,
            },
    {
        let (chars, _ci) = self.chars_and_cursor();
        let ws = word_starts(&self.displayed_input);
        let mut i: usize = 0;
        assert(ws@.skip(0) =~= ws@);
        while i < ws.len() && ws[i] <= self.cursor_position
            invariant
                i <= ws@.len(),
                first_greater(ws@, self.cursor()) == first_greater(ws@.skip(i as int), self.cursor()),
            decreases ws.len() - i,
        {
            proof {
                assert(ws@.skip(i as int).drop_first() =~= ws@.skip(i + 1));
            }
            i = i + 1;
        }
        let target = if i < ws.len() {
            ws[i]
        } else {
            proof {
                assert(ws@.skip(i as int) =~= Seq::<usize>::empty());
            }
            byte_len(&self.displayed_input)
        };
        let j = match char_index_of_byte(chars.as_slice(), target) {
            Some(j) => j,
            None => 0,
        };
        proof {
            if i >= ws@.len() {
                assert(chars@.take(chars@.len() as int) =~= chars@);
                lemma_char_index_at(chars@, chars@.len() as int);
            }
        }
        self.show(chars, j);
    }

    /// Moves the cursor to the start of the line.
    pub fn move_cursor_to_start(&mut self)
        requires
            old(self).wf(),
        ensures
            final(self).wf(),
            final(self).cursor() == 0,
            final(self).shown() == old(self).shown(),
            final(self).typed() == old(self).typed(),
            final(self).history() == old(self).history(),
            final(self).history_pos() == old(self).history_pos(),
    {
        proof {
            assert(self.shown().take(0) =~= Seq::<char>::empty());
            lemma_char_index_at(self.shown(), 0);
        }
        self.cursor_position = 0;
    }

    /// Moves the cursor to the end of the line.
    pub fn move_cursor_to_end(&mut self)
        requires
            old(self).wf(),
        ensures
            final(self).wf(),
            final(self).cursor() == bytes_len(old(self).shown()),
            final(self).shown() == old(self).shown(),
            final(self).typed() == old(self).typed(),
            final(self).history() == old(self).history(),
            final(self).history_pos() == old(self).history_pos(),
    {
        proof {
            assert(self.shown().take(self.shown().len() as int) =~= self.shown());
            lemma_char_index_at(self.shown(), self.shown().len() as int);
        }
        self.cursor_position = byte_len(&self.displayed_input);
    }

    /// Walks the history: back for a negative direction, forward otherwise; past
    /// the newest entry the typed text returns. The cursor goes to the end.
    pub fn move_history(&mut self, direction: i32)
        requires
            old(self).wf(),
        ensures
            final(self).wf(),
            final(self).typed() == old(self).typed(),
            final(self).history() == old(self).history(),
            ({
                let o = *old(self);
                let p = if direction < 0 {
                    if o.history_pos() > 0 {
                        o.history_pos() - 1
                    } else {
                        0
                    }
                } else if o.history_pos() < o.history().len() {
                    o.history_pos() + 1
                } else {
                    o.history_pos()
                };
                &&& final(self).history_pos() == p
                &&& if p == o.history_pos() {
                    final(self).shown() == o.shown() && final(self).cursor() == o.cursor()
                } else {
                    &&& final(self).shown() == if p < o.history().len() {
                        o.history()[p]
                    } else {
                        o.typed()
                    }
                    &&& final(self).cursor() == bytes_len(final(self).shown())
                }
            }),
    {
        let prev_pos = self.cur_history_pos;
        if direction < 0 {
            if self.cur_history_pos > 0 {
                self.cur_history_pos = self.cur_history_pos - 1;
            }
        } else if self.cur_history_pos < self.history.len() {
            self.cur_history_pos = self.cur_history_pos + 1;
        }
        if prev_pos != self.cur_history_pos {
            if self.cur_history_pos < self.history.len() {
                self.displayed_input = self.history[self.cur_history_pos].clone();
            } else {
                self.displayed_input = self.current_typed_input.clone();
            }
            proof {
                assert(self.shown().take(self.shown().len() as int) =~= self.shown());
                lemma_char_index_at(self.shown(), self.shown().len() as int);
            }
            self.cursor_position = byte_len(&self.displayed_input);
        }
    }

    /// The text to draw: nothing while input is hidden.
    pub fn displayed_text(&self, hide_input: bool) -> (r: String)
        ensures
            r@ == if hide_input {
                Seq::<char>::empty()
            } else {
                self.shown()
            },
    {
        if hide_input {
            String::new()
        } else {
            self.displayed_input.clone()
        }
    }

    /// The cursor's column after a one-column prompt: graphemes before the cursor
    /// plus one; one while input is hidden.
    pub fn cursor_offset(&self, hide_input: bool) -> (r: u16)
        requires
            self.wf(),
            !hide_input ==> grapheme_clusters(self.shown().take(self.cursor_index())).len() < 65535,
        ensures
            r == if hide_input {
                1
            } else {
                grapheme_clusters(self.shown().take(self.cursor_index())).len() + 1
            },
    {
        if hide_input {
            return 1;
        }
        let n = self.prefix_grapheme_count();
        (n + 1) as u16
    }

    /// The cursor's column as `cursor_offset` gives it, or `None` where the
    /// graphemes before the cursor do not fit the column type.
    pub fn checked_cursor_offset(&self, hide_input: bool) -> (r: Option<u16>)
        requires
            self.wf(),
        ensures
            match r {
                Some(v) => v == if hide_input {
                    1
                } else {
                    grapheme_clusters(self.shown().take(self.cursor_index())).len() + 1
                },
                None => !hide_input && grapheme_clusters(self.shown().take(self.cursor_index())).len()
                    >= 65535,
            },
    {
        if hide_input {
            return Some(self.cursor_offset(true));
        }
        let n = self.prefix_grapheme_count();
        if n < 65535 {
            Some(self.cursor_offset(false))
        } else {
            None
        }
    }

    /// Number of graphemes before the cursor.
    fn prefix_grapheme_count(&self) -> (n: usize)
        requires
            self.wf(),
        ensures
            n == grapheme_clusters(self.shown().take(self.cursor_index())).len(),
    {
        let (chars, ci) = self.chars_and_cursor();
        let prefix = sub_chars(chars.as_slice(), 0, ci);
        let ps = string_of(prefix.as_slice());
        let gs = graphemes_of(&ps);
        gs.len()
    }

    /// The text shown on the command line.
    pub fn displayed_input(&self) -> (r: &str)
        ensures
            r@ == self.shown(),
    {
        self.displayed_input.as_str()
    }

    /// Hands over the shown text, leaving the line empty with the cursor at the start.
    pub fn take_displayed_input(&mut self) -> (r: String)
        requires
            old(self).wf(),
        ensures
            final(self).wf(),
            r@ == old(self).shown(),
            final(self).shown() == Seq::<char>::empty(),
            final(self).cursor() == 0,
            final(self).typed() == old(self).typed(),
            final(self).history() == old(self).history(),
            final(self).history_pos() == old(self).history_pos(),
    {
        self.cursor_position = 0;
        let mut out = String::new();
        std::mem::swap(&mut out, &mut self.displayed_input);
        proof {
            assert(self.shown().take(0) =~= Seq::<char>::empty());
            lemma_char_index_at(self.shown(), 0);
        }
        out
    }

    /// Appends a submitted line to the history; the walk restarts past it.
    pub fn push_history(&mut self, input: String)
        requires
            old(self).wf(),
        ensures
            final(self).wf(),
            final(self).history() == old(self).history().push(input@),
            final(self).history_pos() == old(self).history().len() + 1,
            final(self).shown() == old(self).shown(),
            final(self).cursor() == old(self).cursor(),
            final(self).typed() == old(self).typed(),
    {
        let ghost h = self.history@;
        self.history.push(input);
        self.cur_history_pos = self.history.len();
        proof {
            assert(strings_view(self.history@) =~= strings_view(h).push(input@));
        }
    }

    /// Empties the line and the typed text.
    pub fn clear_all(&mut self)
        requires
            old(self).wf(),
        ensures
            final(self).wf(),
            final(self).shown() == Seq::<char>::empty(),
            final(self).typed() == Seq::<char>::empty(),
            final(self).cursor() == 0,
            final(self).history() == old(self).history(),
            final(self).history_pos() == old(self).history_pos(),
    {
        self.displayed_input = String::new();
        self.current_typed_input = String::new();
        self.cursor_position = 0;
        proof {
            assert(self.shown().take(0) =~= Seq::<char>::empty());
            lemma_char_index_at(self.shown(), 0);
        }
    }

    /// Forgets the typed text.
    pub fn clear_current_typed_input(&mut self)
        requires
            old(self).wf(),
        ensures
            final(self).wf(),
            final(self).typed() == Seq::<char>::empty(),
            final(self).shown() == old(self).shown(),
            final(self).cursor() == old(self).cursor(),
            final(self).history() == old(self).history(),
            final(self).history_pos() == old(self).history_pos(),
    {
        self.current_typed_input = String::new();
    }
}

} // verus!
