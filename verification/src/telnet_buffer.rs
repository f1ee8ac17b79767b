//! Telnet receive buffer: assembles complete lines from the data of telnet
//! events. Lines end at CRLF in incoming data, or where a Go-Ahead command
//! flushes what was buffered. A line that is not valid UTF-8 is skipped.
use crate::ansi::segment::strings_view;
use crate::text::string_of;
use vstd::prelude::*;
use vstd::utf8::{decode_utf8, valid_utf8};

verus! {

/// The telnet Go-Ahead command (IAC GA, RFC 854).
pub const TELNET_GA: u8 = 249;

/// A telnet event as the buffer reads it.
#[derive(Debug)]
pub enum TelnetInput {
    /// An IAC command with its command byte.
    Command(u8),
    /// Data received.
    Data(Vec<u8>),
    /// Negotiations and the other events, which carry no text.
    Other,
}

/// Bytes received and not yet part of a complete line.
pub struct TelnetBuffer {
    buffer: Vec<u8>,
}

/// The first index at or after `from` that holds a line feed.
pub open spec fn next_line_feed(bs: Seq<u8>, from: int) -> Option<int>
    decreases bs.len() - from,
{
    if from < 0 || from >= bs.len() {
        None
    } else if bs[from] == 10 {
        Some(from)
    } else {
        next_line_feed(bs, from + 1)
    }
}

/// Text without one trailing line feed and then one trailing carriage return.
pub open spec fn strip_line_end(t: Seq<char>) -> Seq<char> {
    if t.len() > 0 && t.last() == '\n' {
        let u = t.drop_last();
        if u.len() > 0 && u.last() == '\r' {
            u.drop_last()
        } else {
            u
        }
    } else {
        t
    }
}

/// The text of one line's bytes (line feed included, when there is one), if
/// they are valid UTF-8.
pub open spec fn line_text(seg: Seq<u8>) -> Option<Seq<char>> {
    if valid_utf8(seg) {
        Some(strip_line_end(decode_utf8(seg)))
    } else {
        None
    }
}

/// The lines of `bs` from index `i`: each runs to and including a line feed,
/// the last one may lack it; lines that are not valid UTF-8 are left out.
pub open spec fn text_lines_from(bs: Seq<u8>, i: int) -> Seq<Seq<char>>
    decreases bs.len() - i,
{
    if i < 0 || i >= bs.len() {
        seq![]
    } else {
        let end = match next_line_feed(bs, i) {
            Some(k) => k + 1,
            None => bs.len() as int,
        };
        let rest = if i < end <= bs.len() {
            text_lines_from(bs, end)
        } else {
            seq![]
        };
        match line_text(bs.subrange(i, end)) {
            Some(t) => seq![t] + rest,
            None => rest,
        }
    }
}

/// The lines of `bs`.
pub open spec fn text_lines(bs: Seq<u8>) -> Seq<Seq<char>> {
    text_lines_from(bs, 0)
}

/// Whether data ends with CR LF.
pub open spec fn ends_with_crlf(bs: Seq<u8>) -> bool {
    bs.len() >= 2 && bs[bs.len() - 2] == 13 && bs[bs.len() - 1] == 10
}

/// `std::str::from_utf8`: the text that the bytes encode, or `None` when they
/// are not valid UTF-8, as its documentation states.
#[verifier::external_body]
fn utf8_text(bytes: &[u8]) -> (r: Option<String>)
    ensures
        (r is Some) == valid_utf8(bytes@),
        r matches Some(s) ==> s@ == decode_utf8(bytes@),
{
    match std::str::from_utf8(bytes) {
        Ok(s) => Some(s.to_string()),
        Err(_) => None,
    }
}

proof fn lemma_line_feed_range(bs: Seq<u8>, from: int)
    ensures
        next_line_feed(bs, from) matches Some(k) ==> from <= k < bs.len() && bs[k] == 10,
    decreases bs.len() - from,
{
    if 0 <= from < bs.len() && bs[from] != 10 {
        lemma_line_feed_range(bs, from + 1);
    }
}

fn find_line_feed(bs: &[u8], from: usize) -> (r: Option<usize>)
    requires
        from <= bs@.len(),
    ensures
        r == (match next_line_feed(bs@, from as int) {
            Some(k) => Some(k as usize),
            None => None,
        }),
{
    let mut j = from;
    while j < bs.len() && bs[j] != 10
        invariant
            from <= j <= bs@.len(),
            next_line_feed(bs@, from as int) == next_line_feed(bs@, j as int),
        decreases bs.len() - j,
    {
        j = j + 1;
    }
    if j < bs.len() {
        Some(j)
    } else {
        None
    }
}

fn sub_bytes(v: &[u8], start: usize, end: usize) -> (r: Vec<u8>)
    requires
        start <= end <= v@.len(),
    ensures
        r@ == v@.subrange(start as int, end as int),
{
    let mut r: Vec<u8> = Vec::new();
    let mut k = start;
    while k < end
        invariant
            start <= k <= end <= v@.len(),
            r@ == v@.subrange(start as int, k as int),
        decreases end - k,
    {
        r.push(v[k]);
        assert(v@.subrange(start as int, k + 1) =~= v@.subrange(start as int, k as int).push(v@[k as int]));
        k = k + 1;
    }
    r
}

fn strip_line_end_exec(s: String) -> (r: String)
    ensures
        r@ == strip_line_end(s@),
{
    let mut cs = crate::text::chars_of(s.as_str());
    if cs.len() > 0 && cs[cs.len() - 1] == '\n' {
        cs.pop();
        if cs.len() > 0 && cs[cs.len() - 1] == '\r' {
            cs.pop();
        }
    }
    string_of(cs.as_slice())
}

/// The lines of received bytes.
pub fn process_input_data(bytes: &[u8]) -> (lines: Vec<String>)
    ensures
        strings_view(lines@) == text_lines(bytes@),
{
    let ghost bs = bytes@;
    let mut lines: Vec<String> = Vec::new();
    let mut i: usize = 0;
    assert(strings_view(lines@) =~= Seq::<Seq<char>>::empty());
    while i < bytes.len()
        invariant
            i <= bs.len(),
            bs == bytes@,
            text_lines(bs) == strings_view(lines@) + text_lines_from(bs, i as int),
        decreases bytes.len() - i,
    {
        proof {
            lemma_line_feed_range(bs, i as int);
        }
        let end = match find_line_feed(bytes, i) {
            Some(k) => k + 1,
            None => bytes.len(),
        };
        let seg = sub_bytes(bytes, i, end);
        let ghost before = strings_view(lines@);
        match utf8_text(seg.as_slice()) {
            Some(text) => {
                let t = strip_line_end_exec(text);
                lines.push(t);
                assert(strings_view(lines@) =~= before.push(strip_line_end(decode_utf8(seg@))));
            },
            None => {},
        }
        proof {
            let ghost rest = text_lines_from(bs, end as int);
            assert(seq![strip_line_end(decode_utf8(seg@))] + rest =~= seq![strip_line_end(
                decode_utf8(seg@),
            )] + rest);
            assert(before.push(strip_line_end(decode_utf8(seg@))) + rest =~= before + (seq![
                strip_line_end(decode_utf8(seg@)),
            ] + rest));
        }
        i = end;
    }
    assert(text_lines_from(bs, i as int) =~= Seq::<Seq<char>>::empty());
    assert(strings_view(lines@) + Seq::<Seq<char>>::empty() =~= strings_view(lines@));
    lines
}

impl TelnetBuffer {
    /// The bytes waiting for the end of their line.
    pub closed spec fn pending(&self) -> Seq<u8> {
        self.buffer@
    }

    /// An empty buffer.
    pub fn new() -> (b: Self)
        ensures
            b.pending() == Seq::<u8>::empty(),
    {
        TelnetBuffer { buffer: Vec::new() }
    }

    /// Reads one event: data ending in CRLF, and a Go-Ahead, complete the
    /// buffered lines and return them; other data is buffered; other events
    /// change nothing.
    pub fn handle_event(&mut self, event: &TelnetInput) -> (lines: Vec<String>)
        ensures
            match event {
                TelnetInput::Command(c) => if *c == TELNET_GA {
                    &&& final(self).pending() == Seq::<u8>::empty()
                    &&& strings_view(lines@) == text_lines(old(self).pending())
                } else {
                    &&& final(self).pending() == old(self).pending()
                    &&& lines@.len() == 0
                },
                TelnetInput::Data(b) => if ends_with_crlf(b@) {
                    &&& final(self).pending() == Seq::<u8>::empty()
                    &&& strings_view(lines@) == text_lines(old(self).pending() + b@)
                } else {
                    &&& final(self).pending() == old(self).pending() + b@
                    &&& lines@.len() == 0
                },
                TelnetInput::Other => {
                    &&& final(self).pending() == old(self).pending()
                    &&& lines@.len() == 0
                },
            },
    {
        match event {
            TelnetInput::Command(c) => {
                if *c == TELNET_GA {
                    let mut buffer: Vec<u8> = Vec::new();
                    std::mem::swap(&mut buffer, &mut self.buffer);
                    return process_input_data(buffer.as_slice());
                }
            },
            TelnetInput::Data(bytes) => {
                let n = bytes.len();
                if !(n >= 2 && bytes[n - 2] == 13 && bytes[n - 1] == 10) {
                    let mut k: usize = 0;
                    let ghost start = self.buffer@;
                    while k < n
                        invariant
                            k <= n,
                            n == bytes@.len(),
                            self.buffer@ == start + bytes@.take(k as int),
                        decreases n - k,
                    {
                        self.buffer.push(bytes[k]);
                        assert(bytes@.take(k + 1) =~= bytes@.take(k as int).push(bytes@[k as int]));
                        k = k + 1;
                    }
                    assert(bytes@.take(n as int) =~= bytes@);
                    return Vec::new();
                }
                let mut buffer: Vec<u8> = Vec::new();
                std::mem::swap(&mut buffer, &mut self.buffer);
                let ghost start = buffer@;
                let mut k: usize = 0;
                while k < n
                    invariant
                        k <= n,
                        n == bytes@.len(),
                        buffer@ == start + bytes@.take(k as int),
                    decreases n - k,
                {
                    buffer.push(bytes[k]);
                    assert(bytes@.take(k + 1) =~= bytes@.take(k as int).push(bytes@[k as int]));
                    k = k + 1;
                }
                assert(bytes@.take(n as int) =~= bytes@);
                return process_input_data(buffer.as_slice());
            },
            TelnetInput::Other => {},
        }
        Vec::new()
    }
}

} // verus!
