//! Recording of damage taken: context lines are stored as a JSON array of
//! strings, written and read back here.
use crate::ansi::segment::strings_view;
use crate::text::{
    char_from_code, chars_eq, chars_of, is_ws, lemma_char_code_injective, lemma_char_of_code,
    string_of, sub_chars, trim_chars, trim_end_seq, trim_seq, trim_start_seq, valid_code,
};
use crate::combat_damage::catalog::EntryView;
use crate::combat_damage::matcher::{
    candidate_view, incoming_match, opt_candidate_view, CandidateView, DamageCandidate, DamageCategory,
    Matcher,
};
use vstd::prelude::*;

verus! {

/// Control characters: Unicode general category `Cc` (what `char::is_control` accepts).
pub open spec fn is_control_spec(c: char) -> bool {
    (c as u32) <= 0x1F || (0x7F <= (c as u32) && (c as u32) <= 0x9F)
}

/// Whether a character is a control character.
pub fn is_control(c: char) -> (r: bool)
    ensures
        r == is_control_spec(c),
{
    let u = c as u32;
    u <= 0x1F || (0x7F <= u && u <= 0x9F)
}

/// The lower-case hexadecimal digit for `n`.
pub open spec fn hex_digit(n: int) -> char {
    "0123456789abcdef"@[n]
}

/// How one character is written inside a JSON string: quote, backslash and
/// the common controls by their short escapes, other controls as `\u` with
/// four hexadecimal digits, everything else as itself.
pub open spec fn escape_char(c: char) -> Seq<char> {
    if c == '"' {
        seq!['\\', '"']
    } else if c == '\\' {
        seq!['\\', '\\']
    } else if c == '\n' {
        seq!['\\', 'n']
    } else if c == '\r' {
        seq!['\\', 'r']
    } else if c == '\t' {
        seq!['\\', 't']
    } else if is_control_spec(c) {
        let u = c as u32 as int;
        seq![
            '\\',
            'u',
            hex_digit((u / 4096) % 16),
            hex_digit((u / 256) % 16),
            hex_digit((u / 16) % 16),
            hex_digit(u % 16),
        ]
    } else {
        seq![c]
    }
}

/// A line with each character escaped.
pub open spec fn escape_line(s: Seq<char>) -> Seq<char>
    decreases s.len(),
{
    if s.len() == 0 {
        seq![]
    } else {
        escape_line(s.drop_last()) + escape_char(s.last())
    }
}

/// A line as a JSON string.
pub open spec fn quoted(s: Seq<char>) -> Seq<char> {
    seq!['"'] + escape_line(s) + seq!['"']
}

/// The JSON strings of the lines, separated by commas.
pub open spec fn json_items(lines: Seq<Seq<char>>) -> Seq<char>
    decreases lines.len(),
{
    if lines.len() == 0 {
        seq![]
    } else if lines.len() == 1 {
        quoted(lines[0])
    } else {
        json_items(lines.drop_last()) + seq![','] + quoted(lines.last())
    }
}

/// The lines as a JSON array of strings.
pub open spec fn json_spec(lines: Seq<Seq<char>>) -> Seq<char> {
    seq!['['] + json_items(lines) + seq![']']
}

fn hex_digit_exec(n: u32) -> (c: char)
    requires
        n < 16,
    ensures
        c == hex_digit(n as int),
{
    let digits = chars_of("0123456789abcdef");
    proof {
        reveal_strlit("0123456789abcdef");
    }
    digits[n as usize]
}

fn push_escaped(out: &mut Vec<char>, c: char)
    ensures
        final(out)@ == old(out)@ + escape_char(c),
{
    let ghost before = out@;
    if c == '"' {
        out.push('\\');
        out.push('"');
    } else if c == '\\' {
        out.push('\\');
        out.push('\\');
    } else if c == '\n' {
        out.push('\\');
        out.push('n');
    } else if c == '\r' {
        out.push('\\');
        out.push('r');
    } else if c == '\t' {
        out.push('\\');
        out.push('t');
    } else if is_control(c) {
        let u = c as u32;
        out.push('\\');
        out.push('u');
        out.push(hex_digit_exec((u / 4096) % 16));
        out.push(hex_digit_exec((u / 256) % 16));
        out.push(hex_digit_exec((u / 16) % 16));
        out.push(hex_digit_exec(u % 16));
    } else {
        out.push(c);
    }
    assert(out@ =~= before + escape_char(c));
}

/// Writes the lines as a JSON array of strings.
pub fn json_string_array_from_slice(lines: &[String]) -> (r: String)
    ensures
        r@ == json_spec(strings_view(lines@)),
{
    let ghost lv = strings_view(lines@);
    let mut out: Vec<char> = Vec::new();
    out.push('[');
    let mut i: usize = 0;
    while i < lines.len()
        invariant
            i <= lv.len(),
            lv == strings_view(lines@),
            out@ == seq!['['] + json_items(lv.take(i as int)),
        decreases lines.len() - i,
    {
        let ghost head = out@;
        if i > 0 {
            out.push(',');
        }
        out.push('"');
        let cs = chars_of(&lines[i]);
        let mut k: usize = 0;
        let ghost mid = out@;
        while k < cs.len()
            invariant
                k <= cs@.len(),
                out@ == mid + escape_line(cs@.take(k as int)),
            decreases cs.len() - k,
        {
            assert(cs@.take(k + 1).drop_last() =~= cs@.take(k as int));
            push_escaped(&mut out, cs[k]);
            k = k + 1;
        }
        assert(cs@.take(cs@.len() as int) =~= cs@);
        out.push('"');
        proof {
            let t = lv.take(i + 1);
            assert(t.drop_last() =~= lv.take(i as int));
            assert(t.last() == cs@);
            if i == 0 {
                assert(out@ =~= head + quoted(cs@));
            } else {
                assert(out@ =~= head + seq![','] + quoted(cs@));
            }
        }
        i = i + 1;
    }
    out.push(']');
    assert(lv.take(lv.len() as int) =~= lv);
    string_of(out.as_slice())
}

/// The value of a hexadecimal digit, either case.
pub open spec fn hex_char_value(c: char) -> Option<int> {
    if '0' <= c && c <= '9' {
        Some(c as int - '0' as int)
    } else if 'a' <= c && c <= 'f' {
        Some(c as int - 'a' as int + 10)
    } else if 'A' <= c && c <= 'F' {
        Some(c as int - 'A' as int + 10)
    } else {
        None
    }
}

/// The value of a run of hexadecimal digits.
pub open spec fn hex_digits_value(d: Seq<char>) -> Option<int>
    decreases d.len(),
{
    if d.len() == 0 {
        Some(0)
    } else {
        match (hex_digits_value(d.drop_last()), hex_char_value(d.last())) {
            (Some(a), Some(b)) => Some(a * 16 + b),
            _ => None,
        }
    }
}

/// Hexadecimal text read as an unsigned number: an optional `+`, then at
/// least one digit (the rule of `u32::from_str_radix` with radix 16).
pub open spec fn parse_hex(h: Seq<char>) -> Option<int> {
    let d = if h.len() > 0 && h[0] == '+' {
        h.drop_first()
    } else {
        h
    };
    if d.len() == 0 {
        None
    } else {
        hex_digits_value(d)
    }
}

/// What a `\u` escape with these digits adds: the character, when they name one.
pub open spec fn unicode_escape(h: Seq<char>) -> Seq<char> {
    match parse_hex(h) {
        Some(u) => if valid_code(u) {
            seq![u as char]
        } else {
            seq![]
        },
        None => seq![],
    }
}

/// Where reading a JSON string array stands.
pub enum JsonMode {
    /// Between strings.
    Outside,
    /// Inside a string.
    InString,
    /// After a backslash.
    Escape,
    /// Reading the digits of a `\u` escape.
    Unicode(Seq<char>),
}

/// The reader's state: where it stands, the string being read, and the
/// strings read so far.
pub struct JsonScan {
    pub mode: JsonMode,
    pub cur: Seq<char>,
    pub lines: Seq<Seq<char>>,
}

pub open spec fn json_start() -> JsonScan {
    JsonScan { mode: JsonMode::Outside, cur: seq![], lines: seq![] }
}

/// The character that an escape stands for: `n`, `r` and `t` name controls,
/// any other character stands for itself.
pub open spec fn unescape(c: char) -> char {
    if c == 'n' {
        '\n'
    } else if c == 'r' {
        '\r'
    } else if c == 't' {
        '\t'
    } else {
        c
    }
}

/// One character read.
pub open spec fn json_step(st: JsonScan, c: char) -> JsonScan {
    match st.mode {
        JsonMode::Outside => if c == '"' {
            JsonScan { mode: JsonMode::InString, cur: seq![], ..st }
        } else {
            st
        },
        JsonMode::InString => if c == '"' {
            JsonScan { mode: JsonMode::Outside, cur: seq![], lines: st.lines.push(st.cur) }
        } else if c == '\\' {
            JsonScan { mode: JsonMode::Escape, ..st }
        } else {
            JsonScan { cur: st.cur.push(c), ..st }
        },
        JsonMode::Escape => if c == 'u' {
            JsonScan { mode: JsonMode::Unicode(seq![]), ..st }
        } else {
            JsonScan { mode: JsonMode::InString, cur: st.cur.push(unescape(c)), ..st }
        },
        JsonMode::Unicode(h) => if h.len() + 1 >= 4 {
            JsonScan { mode: JsonMode::InString, cur: st.cur + unicode_escape(h.push(c)), ..st }
        } else {
            JsonScan { mode: JsonMode::Unicode(h.push(c)), ..st }
        },
    }
}

/// The state after reading `s` from `st`.
pub open spec fn json_run(st: JsonScan, s: Seq<char>) -> JsonScan
    decreases s.len(),
{
    if s.len() == 0 {
        st
    } else {
        json_step(json_run(st, s.drop_last()), s.last())
    }
}

/// The strings read once the input ends: a string left open is kept.
pub open spec fn json_finish(st: JsonScan) -> Seq<Seq<char>> {
    match st.mode {
        JsonMode::Outside => st.lines,
        JsonMode::InString => st.lines.push(st.cur),
        JsonMode::Escape => st.lines.push(st.cur),
        JsonMode::Unicode(h) => st.lines.push(st.cur + unicode_escape(h)),
    }
}

/// The strings of a JSON array of strings. Text outside the quotes is skipped,
/// so this reads back more than well-formed arrays.
pub open spec fn parse_json_spec(json: Seq<char>) -> Seq<Seq<char>> {
    let t = trim_seq(json);
    if t == "[]"@ {
        seq![]
    } else {
        let stripped = if t.len() >= 2 && t[0] == '[' && t.last() == ']' {
            t.subrange(1, t.len() - 1)
        } else {
            t
        };
        let inner = trim_seq(stripped);
        if inner.len() == 0 {
            seq![]
        } else {
            json_finish(json_run(json_start(), inner))
        }
    }
}


fn hex_char_value_exec(c: char) -> (r: Option<u32>)
    ensures
        match hex_char_value(c) {
            Some(v) => r == Some(v as u32) && v < 16,
            None => r is None,
        },
{
    if '0' <= c && c <= '9' {
        Some((c as u32) - ('0' as u32))
    } else if 'a' <= c && c <= 'f' {
        Some((c as u32) - ('a' as u32) + 10)
    } else if 'A' <= c && c <= 'F' {
        Some((c as u32) - ('A' as u32) + 10)
    } else {
        None
    }
}

/// Sixteen to the power `n`.
pub open spec fn pow16(n: nat) -> nat
    decreases n,
{
    if n == 0 {
        1
    } else {
        16 * pow16((n - 1) as nat)
    }
}

fn parse_hex_exec(h: &[char]) -> (r: Option<u32>)
    requires
        h@.len() <= 4,
    ensures
        match parse_hex(h@) {
            Some(v) => r == Some(v as u32) && 0 <= v < 0x10000,
            None => r is None,
        },
{
    let s: usize = if h.len() > 0 && h[0] == '+' {
        1
    } else {
        0
    };
    let ghost d = if h@.len() > 0 && h@[0] == '+' {
        h@.drop_first()
    } else {
        h@
    };
    assert(d =~= h@.subrange(s as int, h@.len() as int));
    if s == h.len() {
        return None;
    }
    let mut v: u32 = 0;
    let mut k: usize = s;
    assert(h@.subrange(s as int, s as int) =~= Seq::<char>::empty());
    while k < h.len()
        invariant
            s <= k <= h@.len() <= 4,
            d =~= h@.subrange(s as int, h@.len() as int),
            d == (if h@.len() > 0 && h@[0] == '+' {
                h@.drop_first()
            } else {
                h@
            }),
            hex_digits_value(h@.subrange(s as int, k as int)) == Some(v as int),
            v < pow16((k - s) as nat),
        decreases h.len() - k,
    {
        assert(h@.subrange(s as int, k + 1).drop_last() =~= h@.subrange(s as int, k as int));
        match hex_char_value_exec(h[k]) {
            Some(x) => {
                proof {
                    lemma_pow16_small((k - s) as nat);
                    assert(pow16((k + 1 - s) as nat) == 16 * pow16((k - s) as nat));
                }
                v = v * 16 + x;
            },
            None => {
                proof {
                    assert(hex_digits_value(h@.subrange(s as int, k + 1)) is None);
                    assert(h@.subrange(s as int, h@.len() as int).take(k + 1 - s) =~= h@.subrange(
                        s as int,
                        k + 1,
                    ));
                    lemma_digits_none_extends(h@.subrange(s as int, h@.len() as int), k + 1 - s);
                }
                return None;
            },
        }
        k = k + 1;
    }
    proof {
        lemma_pow16_small((k - s) as nat);
    }
    Some(v)
}

/// Sixteen to a power of at most four is at most 65536.
proof fn lemma_pow16_small(n: nat)
    requires
        n <= 4,
    ensures
        pow16(n) <= 65536,
{
    reveal_with_fuel(pow16, 5);
}

/// Once a prefix of digits fails, the whole run fails.
proof fn lemma_digits_none_extends(d: Seq<char>, n: int)
    requires
        0 <= n <= d.len(),
        hex_digits_value(d.take(n)) is None,
    ensures
        hex_digits_value(d) is None,
    decreases d.len(),
{
    if n < d.len() {
        assert(d.drop_last().take(n) =~= d.take(n));
        lemma_digits_none_extends(d.drop_last(), n);
    } else {
        assert(d.take(n) =~= d);
    }
}

fn push_unicode_escape(cur: &mut Vec<char>, h: &[char])
    requires
        h@.len() <= 4,
    ensures
        final(cur)@ == old(cur)@ + unicode_escape(h@),
{
    let ghost before = cur@;
    match parse_hex_exec(h) {
        Some(v) => {
            match char_from_code(v) {
                Some(ch) => {
                    proof {
                        lemma_char_of_code(ch, v);
                    }
                    cur.push(ch);
                    assert(cur@ =~= before + unicode_escape(h@));
                },
                None => {
                    assert(cur@ =~= before + unicode_escape(h@));
                },
            }
        },
        None => {
            assert(cur@ =~= before + unicode_escape(h@));
        },
    }
}

fn unescape_exec(c: char) -> (r: char)
    ensures
        r == unescape(c),
{
    if c == 'n' {
        '\n'
    } else if c == 'r' {
        '\r'
    } else if c == 't' {
        '\t'
    } else {
        c
    }
}

/// The reader's position, as kept while reading.
enum ScanMode {
    Outside,
    InString,
    Escape,
    Unicode,
}

spec fn scan_view(m: ScanMode, hex: Seq<char>, cur: Seq<char>, lines: Seq<String>) -> JsonScan {
    JsonScan {
        mode: match m {
            ScanMode::Outside => JsonMode::Outside,
            ScanMode::InString => JsonMode::InString,
            ScanMode::Escape => JsonMode::Escape,
            ScanMode::Unicode => JsonMode::Unicode(hex),
        },
        cur,
        lines: strings_view(lines),
    }
}

fn push_line(lines: &mut Vec<String>, cur: &[char])
    ensures
        strings_view(final(lines)@) == strings_view(old(lines)@).push(cur@),
{
    let ghost lv = strings_view(lines@);
    lines.push(string_of(cur));
    assert(strings_view(lines@) =~= lv.push(cur@));
}

/// Reads a JSON array of strings back into lines.
pub fn parse_json_string_array(json: &str) -> (r: Vec<String>)
    ensures
        strings_view(r@) == parse_json_spec(json@),
{
    let t = trim_chars(chars_of(json).as_slice());
    let empty_array = chars_of("[]");
    let mut lines: Vec<String> = Vec::new();
    assert(strings_view(lines@) =~= Seq::<Seq<char>>::empty());
    if chars_eq(t.as_slice(), empty_array.as_slice()) {
        return lines;
    }
    let n = t.len();
    let stripped = if n >= 2 && t[0] == '[' && t[n - 1] == ']' {
        sub_chars(t.as_slice(), 1, n - 1)
    } else {
        sub_chars(t.as_slice(), 0, n)
    };
    assert(t@.subrange(0, n as int) =~= t@);
    let inner = trim_chars(stripped.as_slice());
    if inner.len() == 0 {
        return lines;
    }
    let mut mode = ScanMode::Outside;
    let mut hex: Vec<char> = Vec::new();
    let mut cur: Vec<char> = Vec::new();
    let mut i: usize = 0;
    assert(inner@.take(0) =~= Seq::<char>::empty());
    while i < inner.len()
        invariant
            i <= inner@.len(),
            scan_view(mode, hex@, cur@, lines@) == json_run(json_start(), inner@.take(i as int)),
            mode == ScanMode::Unicode ==> hex@.len() < 4,
        decreases inner.len() - i,
    {
        assert(inner@.take(i + 1).drop_last() =~= inner@.take(i as int));
        let c = inner[i];
        match mode {
            ScanMode::Outside => {
                if c == '"' {
                    mode = ScanMode::InString;
                    cur = Vec::new();
                }
            },
            ScanMode::InString => {
                if c == '"' {
                    push_line(&mut lines, cur.as_slice());
                    cur = Vec::new();
                    mode = ScanMode::Outside;
                } else if c == '\\' {
                    mode = ScanMode::Escape;
                } else {
                    cur.push(c);
                }
            },
            ScanMode::Escape => {
                if c == 'u' {
                    mode = ScanMode::Unicode;
                    hex = Vec::new();
                } else {
                    cur.push(unescape_exec(c));
                    mode = ScanMode::InString;
                }
            },
            ScanMode::Unicode => {
                let ghost h0 = hex@;
                hex.push(c);
                assert(hex@ == h0.push(c));
                if hex.len() >= 4 {
                    push_unicode_escape(&mut cur, hex.as_slice());
                    hex = Vec::new();
                    mode = ScanMode::InString;
                }
            },
        }
        i = i + 1;
    }
    assert(inner@.take(inner@.len() as int) =~= inner@);
    match mode {
        ScanMode::Outside => {},
        ScanMode::InString => {
            push_line(&mut lines, cur.as_slice());
        },
        ScanMode::Escape => {
            push_line(&mut lines, cur.as_slice());
        },
        ScanMode::Unicode => {
            push_unicode_escape(&mut cur, hex.as_slice());
            push_line(&mut lines, cur.as_slice());
        },
    }
    lines
}


proof fn lemma_run_push(st: JsonScan, s: Seq<char>, c: char)
    ensures
        json_run(st, s.push(c)) == json_step(json_run(st, s), c),
{
    assert(s.push(c).drop_last() =~= s);
}

/// Reading `a` then `b` is reading `a + b`.
proof fn lemma_run_concat(st: JsonScan, a: Seq<char>, b: Seq<char>)
    ensures
        json_run(st, a + b) == json_run(json_run(st, a), b),
    decreases b.len(),
{
    if b.len() == 0 {
        assert(a + b =~= a);
    } else {
        assert((a + b).drop_last() =~= a + b.drop_last());
        assert((a + b).last() == b.last());
        lemma_run_concat(st, a, b.drop_last());
    }
}

proof fn lemma_hex_digit_value(n: int)
    requires
        0 <= n < 16,
    ensures
        hex_char_value(hex_digit(n)) == Some(n),
{
    reveal_strlit("0123456789abcdef");
}

proof fn lemma_run_two(st: JsonScan, a: char, b: char)
    ensures
        json_run(st, seq![a, b]) == json_step(json_step(st, a), b),
{
    assert(seq![a, b] =~= seq![].push(a).push(b));
    lemma_run_push(st, seq![], a);
    lemma_run_push(st, seq![a], b);
    assert(seq![].push(a) =~= seq![a]);
}

proof fn lemma_hex4_value(a: int, b: int, c: int, d: int)
    requires
        0 <= a < 16,
        0 <= b < 16,
        0 <= c < 16,
        0 <= d < 16,
    ensures
        hex_digits_value(seq![hex_digit(a), hex_digit(b), hex_digit(c), hex_digit(d)]) == Some(
            ((a * 16 + b) * 16 + c) * 16 + d,
        ),
{
    let (da, db, dc, dd) = (hex_digit(a), hex_digit(b), hex_digit(c), hex_digit(d));
    lemma_hex_digit_value(a);
    lemma_hex_digit_value(b);
    lemma_hex_digit_value(c);
    lemma_hex_digit_value(d);
    assert(seq![da].drop_last() =~= Seq::<char>::empty());
    assert(hex_digits_value(Seq::<char>::empty()) == Some(0int));
    assert(hex_digits_value(seq![da]) == Some(a));
    assert(seq![da, db].drop_last() =~= seq![da]);
    assert(hex_digits_value(seq![da, db]) == Some(a * 16 + b));
    assert(seq![da, db, dc].drop_last() =~= seq![da, db]);
    assert(hex_digits_value(seq![da, db, dc]) == Some((a * 16 + b) * 16 + c));
    assert(seq![da, db, dc, dd].drop_last() =~= seq![da, db, dc]);
}

/// The four digits written for a control character read back as it.
proof fn lemma_control_escape_decodes(c: char)
    requires
        is_control_spec(c),
    ensures
        ({
            let u = c as u32 as int;
            unicode_escape(
                seq![
                    hex_digit((u / 4096) % 16),
                    hex_digit((u / 256) % 16),
                    hex_digit((u / 16) % 16),
                    hex_digit(u % 16),
                ],
            ) == seq![c]
        }),
{
    let u = c as u32 as int;
    assert(u <= 0x9F);
    assert((u / 4096) % 16 == 0);
    assert((u / 256) % 16 == 0);
    assert(((u / 16) % 16) * 16 + u % 16 == u);
    lemma_hex4_value((u / 4096) % 16, (u / 256) % 16, (u / 16) % 16, u % 16);
    let h = seq![
        hex_digit((u / 4096) % 16),
        hex_digit((u / 256) % 16),
        hex_digit((u / 16) % 16),
        hex_digit(u % 16),
    ];
    assert(h[0] == '0') by {
        reveal_strlit("0123456789abcdef");
    }
    assert(parse_hex(h) == Some(u));
    lemma_char_of_code(c, c as u32);
    assert(unicode_escape(h) =~= seq![c]);
}

/// Reading the `\u` escape of a control character inside a string adds the character.
#[verifier::spinoff_prover]
proof fn lemma_run_control_escape(st: JsonScan, c: char)
    requires
        st.mode == JsonMode::InString,
        is_control_spec(c),
        !(c == '"' || c == '\\' || c == '\n' || c == '\r' || c == '\t'),
    ensures
        json_run(st, escape_char(c)) == (JsonScan { cur: st.cur.push(c), ..st }),
{
    let u = c as u32 as int;
    let d0 = hex_digit((u / 4096) % 16);
    let d1 = hex_digit((u / 256) % 16);
    let d2 = hex_digit((u / 16) % 16);
    let d3 = hex_digit(u % 16);
    let e = escape_char(c);
    assert(e =~= seq!['\\', 'u'].push(d0).push(d1).push(d2).push(d3));
    lemma_run_two(st, '\\', 'u');
    lemma_run_push(st, seq!['\\', 'u'], d0);
    lemma_run_push(st, seq!['\\', 'u'].push(d0), d1);
    lemma_run_push(st, seq!['\\', 'u'].push(d0).push(d1), d2);
    lemma_run_push(st, seq!['\\', 'u'].push(d0).push(d1).push(d2), d3);
    assert(seq![].push(d0) =~= seq![d0]);
    assert(seq![d0].push(d1) =~= seq![d0, d1]);
    assert(seq![d0, d1].push(d2) =~= seq![d0, d1, d2]);
    assert(seq![d0, d1, d2].push(d3) =~= seq![d0, d1, d2, d3]);
    lemma_control_escape_decodes(c);
}

/// Reading an escaped character inside a string adds the character.
proof fn lemma_run_escape_char(st: JsonScan, c: char)
    requires
        st.mode == JsonMode::InString,
    ensures
        json_run(st, escape_char(c)) == (JsonScan { cur: st.cur.push(c), ..st }),
{
    if c == '"' || c == '\\' || c == '\n' || c == '\r' || c == '\t' {
        lemma_run_two(st, escape_char(c)[0], escape_char(c)[1]);
        assert(escape_char(c) =~= seq![escape_char(c)[0], escape_char(c)[1]]);
    } else if is_control_spec(c) {
        lemma_run_control_escape(st, c);
    } else {
        assert(escape_char(c) =~= seq![].push(c));
        lemma_run_push(st, seq![], c);
    }
}

/// Reading an escaped line inside a string adds the line.
proof fn lemma_run_escape_line(st: JsonScan, s: Seq<char>)
    requires
        st.mode == JsonMode::InString,
    ensures
        json_run(st, escape_line(s)) == (JsonScan { cur: st.cur + s, ..st }),
    decreases s.len(),
{
    if s.len() == 0 {
        assert(st.cur + s =~= st.cur);
    } else {
        lemma_run_escape_line(st, s.drop_last());
        lemma_run_concat(st, escape_line(s.drop_last()), escape_char(s.last()));
        let mid = JsonScan { cur: st.cur + s.drop_last(), ..st };
        lemma_run_escape_char(mid, s.last());
        assert((st.cur + s.drop_last()).push(s.last()) =~= st.cur + s);
    }
}

/// Reading a quoted line between strings adds the line.
proof fn lemma_run_quoted(st: JsonScan, s: Seq<char>)
    requires
        st.mode == JsonMode::Outside,
    ensures
        json_run(st, quoted(s)) == (JsonScan {
            mode: JsonMode::Outside,
            cur: seq![],
            lines: st.lines.push(s),
        }),
{
    let open = seq!['"'];
    lemma_run_concat(st, open + escape_line(s), seq!['"']);
    lemma_run_concat(st, open, escape_line(s));
    assert(open =~= seq![].push('"'));
    lemma_run_push(st, seq![], '"');
    let s1 = json_run(st, open);
    assert(s1 == (JsonScan { mode: JsonMode::InString, cur: seq![], ..st }));
    lemma_run_escape_line(s1, s);
    assert(seq![] + s =~= s);
    let s2 = json_run(s1, escape_line(s));
    assert(seq!['"'] =~= seq![].push('"'));
    lemma_run_push(s2, seq![], '"');
}

/// Reading the items of an array from the start gives its lines.
proof fn lemma_run_items(lines: Seq<Seq<char>>)
    ensures
        json_run(json_start(), json_items(lines)) == (JsonScan {
            mode: JsonMode::Outside,
            cur: seq![],
            lines,
        }),
    decreases lines.len(),
{
    if lines.len() == 0 {
        assert(lines =~= Seq::<Seq<char>>::empty());
    } else if lines.len() == 1 {
        lemma_run_quoted(json_start(), lines[0]);
        assert(seq![].push(lines[0]) =~= lines);
    } else {
        let front = json_items(lines.drop_last());
        lemma_run_items(lines.drop_last());
        lemma_run_concat(json_start(), front + seq![','], quoted(lines.last()));
        lemma_run_concat(json_start(), front, seq![',']);
        let s1 = json_run(json_start(), front);
        assert(seq![','] =~= seq![].push(','));
        lemma_run_push(s1, seq![], ',');
        lemma_run_quoted(s1, lines.last());
        assert(lines.drop_last().push(lines.last()) =~= lines);
    }
}

/// Trimming leaves text alone whose ends are not whitespace.
proof fn lemma_trim_unchanged(s: Seq<char>)
    requires
        s.len() > 0,
        !is_ws(s[0]),
        !is_ws(s.last()),
    ensures
        trim_seq(s) == s,
{
    assert(trim_end_seq(s) == s);
    assert(trim_start_seq(s) == s);
}

proof fn lemma_items_ends(lines: Seq<Seq<char>>)
    requires
        lines.len() > 0,
    ensures
        json_items(lines).len() >= 2,
        json_items(lines)[0] == '"',
        json_items(lines).last() == '"',
    decreases lines.len(),
{
    if lines.len() > 1 {
        lemma_items_ends(lines.drop_last());
    }
}

/// Reading back what was written gives the same lines.
pub proof fn law_json_round_trip(lines: Seq<Seq<char>>)
    ensures
        parse_json_spec(json_spec(lines)) == lines,
{
    let j = json_spec(lines);
    lemma_trim_unchanged(j);
    reveal_strlit("[]");
    if lines.len() == 0 {
        assert(j =~= "[]"@);
    } else {
        lemma_items_ends(lines);
        let items = json_items(lines);
        assert(j[1] == '"');
        assert(j != "[]"@);
        assert(j.subrange(1, j.len() - 1) =~= items);
        lemma_trim_unchanged(items);
        lemma_run_items(lines);
    }
}


/// The name a damage category is stored under.
pub open spec fn category_label_spec(c: DamageCategory) -> Seq<char> {
    match c {
        DamageCategory::Melee => "melee"@,
        DamageCategory::Skill => "skill"@,
        DamageCategory::Spell => "spell"@,
    }
}

/// The name a damage category is stored under.
pub fn category_label(category: DamageCategory) -> (r: &'static str)
    ensures
        r@ == category_label_spec(category),
{
    match category {
        DamageCategory::Melee => "melee",
        DamageCategory::Skill => "skill",
        DamageCategory::Spell => "spell",
    }
}

/// An unattributed loss as stored: its context lines read back from their JSON.
#[derive(Debug, Clone)]
pub struct UnattributedHpEventRow {
    pub recorded_at: String,
    pub player: String,
    pub hp_delta: i32,
    pub hp_before: i32,
    pub hp_after: i32,
    pub h_line_text: String,
    pub context_lines: Vec<String>,
}

impl UnattributedHpEventRow {
    /// The row of the stored values, the context read from its JSON text.
    pub fn from_stored(
        recorded_at: String,
        player: String,
        hp_delta: i32,
        hp_before: i32,
        hp_after: i32,
        h_line_text: String,
        context_json: &str,
    ) -> (r: Self)
        ensures
            r.recorded_at == recorded_at,
            r.player == player,
            r.hp_delta == hp_delta,
            r.hp_before == hp_before,
            r.hp_after == hp_after,
            r.h_line_text == h_line_text,
            strings_view(r.context_lines@) == parse_json_spec(context_json@),
    {
        let context_lines = parse_json_string_array(context_json);
        UnattributedHpEventRow { recorded_at, player, hp_delta, hp_before, hp_after, h_line_text, context_lines }
    }
}

/// What a status line asks to be recorded.
#[derive(Debug)]
pub enum FlushAction {
    /// No hit points were lost.
    Nothing,
    /// Hit points were lost and no line reported a hit: the loss and the lines seen.
    WriteUnattributed {
        player: String,
        hp_delta: i32,
        hp_before: i32,
        hp_after: i32,
        h_line_text: String,
        context_lines: Vec<String>,
    },
    /// Hit points were lost to the hits seen since the last status line.
    WriteBatch {
        batch_id: i64,
        player: String,
        hp_delta: i32,
        hp_before: i32,
        hp_after: i32,
        candidate_count: usize,
        damage_min: i32,
        damage_max: i32,
        candidates: Vec<DamageCandidate>,
    },
}

pub open spec fn candidates_view(v: Seq<DamageCandidate>) -> Seq<CandidateView> {
    v.map_values(|c: DamageCandidate| candidate_view(c))
}

/// The hits and lines seen since the last status line, and the next batch number.
pub struct DamageCollector {
    matcher: Matcher,
    buffer: Vec<DamageCandidate>,
    context_window: Vec<String>,
    next_batch_id: i64,
}

impl DamageCollector {
    pub closed spec fn buffer_spec(&self) -> Seq<CandidateView> {
        candidates_view(self.buffer@)
    }

    pub closed spec fn context_spec(&self) -> Seq<Seq<char>> {
        strings_view(self.context_window@)
    }

    pub closed spec fn next_batch_spec(&self) -> i64 {
        self.next_batch_id
    }

    pub closed spec fn entries_spec(&self) -> Seq<EntryView> {
        self.matcher.entries_spec()
    }

    pub closed spec fn last_family_spec(&self) -> Option<usize> {
        self.matcher.last_family_spec()
    }

    /// A collector with nothing seen, numbering batches from `next_batch_id`.
    pub fn new(matcher: Matcher, next_batch_id: i64) -> (c: Self)
        ensures
            c.buffer_spec() == Seq::<CandidateView>::empty(),
            c.context_spec() == Seq::<Seq<char>>::empty(),
            c.next_batch_spec() == next_batch_id,
            c.entries_spec() == matcher.entries_spec(),
            c.last_family_spec() == matcher.last_family_spec(),
    {
        let c = DamageCollector { matcher, buffer: Vec::new(), context_window: Vec::new(), next_batch_id };
        assert(candidates_view(c.buffer@) =~= Seq::<CandidateView>::empty());
        assert(strings_view(c.context_window@) =~= Seq::<Seq<char>>::empty());
        c
    }

    /// Forgets the hits and lines seen.
    pub fn reset_buffer(&mut self)
        ensures
            final(self).buffer_spec() == Seq::<CandidateView>::empty(),
            final(self).context_spec() == Seq::<Seq<char>>::empty(),
            final(self).next_batch_spec() == old(self).next_batch_spec(),
            final(self).entries_spec() == old(self).entries_spec(),
            final(self).last_family_spec() == old(self).last_family_spec(),
    {
        self.buffer = Vec::new();
        self.context_window = Vec::new();
        assert(candidates_view(self.buffer@) =~= Seq::<CandidateView>::empty());
        assert(strings_view(self.context_window@) =~= Seq::<Seq<char>>::empty());
    }

    /// The number of hits waiting.
    pub fn buffer_len(&self) -> (n: usize)
        ensures
            n == self.buffer_spec().len(),
    {
        self.buffer.len()
    }

    /// The number the next batch will get.
    pub fn next_batch_id(&self) -> (n: i64)
        ensures
            n == self.next_batch_spec(),
    {
        self.next_batch_id
    }

    /// The number of lines waiting.
    pub fn context_window_len(&self) -> (n: usize)
        ensures
            n == self.context_spec().len(),
    {
        self.context_window.len()
    }

    /// A line that is not a status line: it is kept as context, and the hit
    /// it reports, if any, waits for the next status line.
    pub fn observe_line(&mut self, line: &str)
        ensures
            final(self).context_spec() == old(self).context_spec().push(line@),
            final(self).next_batch_spec() == old(self).next_batch_spec(),
            final(self).entries_spec() == old(self).entries_spec(),
            exists|r: Option<CandidateView>|
                incoming_match(
                    old(self).entries_spec(),
                    old(self).last_family_spec(),
                    line@,
                    r,
                    final(self).last_family_spec(),
                ) && final(self).buffer_spec() == match r {
                    Some(c) => old(self).buffer_spec().push(c),
                    None => old(self).buffer_spec(),
                },
    {
        let ghost ctx = strings_view(self.context_window@);
        let ghost buf = candidates_view(self.buffer@);
        let ghost es0 = self.matcher.entries_spec();
        let ghost last0 = self.matcher.last_family_spec();
        self.context_window.push(string_of(chars_of(line).as_slice()));
        assert(strings_view(self.context_window@) =~= ctx.push(line@));
        let r = self.matcher.match_incoming(line);
        let ghost rv = opt_candidate_view(r);
        match r {
            Some(c) => {
                self.buffer.push(c);
                assert(candidates_view(self.buffer@) =~= buf.push(rv->0));
            },
            None => {},
        }
        assert(incoming_match(es0, last0, line@, rv, self.last_family_spec()) && self.buffer_spec() == match rv {
            Some(c) => buf.push(c),
            None => buf,
        });
    }

    /// A status line showing `hp_current` hit points after a change of
    /// `diff_hp`: the hits and lines seen are taken out, and a loss is recorded
    /// against them (a batch numbered in turn), or as unattributed when no
    /// line reported a hit.
    pub fn flush_on_h_line(&mut self, hp_current: i32, diff_hp: i32, player: &str, h_line_text: &str) -> (a:
        FlushAction)
        requires
            diff_hp < 0 ==> diff_hp > i32::MIN && hp_current - diff_hp <= i32::MAX,
            diff_hp < 0 && old(self).buffer_spec().len() > 0 ==> old(self).next_batch_spec() < i64::MAX,
        ensures
            final(self).buffer_spec() == Seq::<CandidateView>::empty(),
            final(self).context_spec() == Seq::<Seq<char>>::empty(),
            final(self).entries_spec() == old(self).entries_spec(),
            final(self).last_family_spec() == old(self).last_family_spec(),
            diff_hp >= 0 ==> a is Nothing && final(self).next_batch_spec() == old(self).next_batch_spec(),
            diff_hp < 0 && old(self).buffer_spec().len() == 0 ==> {
                &&& a matches FlushAction::WriteUnattributed {
                    player: p,
                    hp_delta,
                    hp_before,
                    hp_after,
                    h_line_text: h,
                    context_lines,
                }
                &&& p@ == player@
                &&& hp_delta == -diff_hp
                &&& hp_before == hp_current - diff_hp
                &&& hp_after == hp_current
                &&& h@ == h_line_text@
                &&& strings_view(context_lines@) == old(self).context_spec()
                &&& final(self).next_batch_spec() == old(self).next_batch_spec()
            },
            diff_hp < 0 && old(self).buffer_spec().len() > 0 ==> {
                &&& a matches FlushAction::WriteBatch {
                    batch_id,
                    player: p,
                    hp_delta,
                    hp_before,
                    hp_after,
                    candidate_count,
                    damage_min,
                    damage_max,
                    candidates,
                }
                &&& batch_id == old(self).next_batch_spec()
                &&& p@ == player@
                &&& hp_delta == -diff_hp
                &&& hp_before == hp_current - diff_hp
                &&& hp_after == hp_current
                &&& candidate_count == old(self).buffer_spec().len()
                &&& damage_min == (if candidate_count == 1 {
                    -diff_hp
                } else {
                    0
                })
                &&& damage_max == -diff_hp
                &&& candidates_view(candidates@) == old(self).buffer_spec()
                &&& final(self).next_batch_spec() == old(self).next_batch_spec() + 1
            },
    {
        let mut candidates: Vec<DamageCandidate> = Vec::new();
        std::mem::swap(&mut candidates, &mut self.buffer);
        let mut context_lines: Vec<String> = Vec::new();
        std::mem::swap(&mut context_lines, &mut self.context_window);
        assert(candidates_view(self.buffer@) =~= Seq::<CandidateView>::empty());
        assert(strings_view(self.context_window@) =~= Seq::<Seq<char>>::empty());
        if diff_hp >= 0 {
            return FlushAction::Nothing;
        }
        let hp_delta = -diff_hp;
        let hp_after = hp_current;
        let hp_before = hp_current - diff_hp;
        if candidates.len() == 0 {
            return FlushAction::WriteUnattributed {
                player: string_of(chars_of(player).as_slice()),
                hp_delta,
                hp_before,
                hp_after,
                h_line_text: string_of(chars_of(h_line_text).as_slice()),
                context_lines,
            };
        }
        let candidate_count = candidates.len();
        let (damage_min, damage_max) = if candidate_count == 1 {
            (hp_delta, hp_delta)
        } else {
            (0, hp_delta)
        };
        let batch_id = self.next_batch_id;
        self.next_batch_id = self.next_batch_id + 1;
        FlushAction::WriteBatch {
            batch_id,
            player: string_of(chars_of(player).as_slice()),
            hp_delta,
            hp_before,
            hp_after,
            candidate_count,
            damage_min,
            damage_max,
            candidates,
        }
    }
}

} // verus!
