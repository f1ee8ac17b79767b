//! Names of the session logs and the clock shown beside the game's output.
use crate::config::{sanitize_name, sanitize_spec};
use crate::text::{chars_of, push_str_chars, string_of};
use vstd::prelude::*;

verus! {

/// The file name of a raw capture: the player's safe name, or `unknown`
/// without one, then the start time.
pub open spec fn raw_log_name_spec(player: Option<Seq<char>>, timestamp: Seq<char>) -> Seq<char> {
    let who = match player {
        Some(p) => if sanitize_spec(p).len() > 0 {
            sanitize_spec(p)
        } else {
            "unknown"@
        },
        None => "unknown"@,
    };
    who + "-"@ + timestamp + ".raw.log"@
}

/// The file name of a raw capture started at `timestamp`.
pub fn raw_log_file_name(player_name: Option<&str>, timestamp: &str) -> (r: String)
    ensures
        r@ == raw_log_name_spec(
            match player_name {
                Some(p) => Some(p@),
                None => None,
            },
            timestamp@,
        ),
{
    let mut out: Vec<char> = Vec::new();
    match player_name {
        Some(p) => {
            let name = sanitize_name(p);
            let chars = chars_of(name.as_str());
            if chars.len() > 0 {
                push_str_chars(&mut out, name.as_str());
            } else {
                push_str_chars(&mut out, "unknown");
            }
        },
        None => {
            push_str_chars(&mut out, "unknown");
        },
    }
    push_str_chars(&mut out, "-");
    push_str_chars(&mut out, timestamp);
    push_str_chars(&mut out, ".raw.log");
    string_of(out.as_slice())
}

/// The decimal digit of `d`.
pub open spec fn digit(d: int) -> char {
    (('0' as int) + d) as char
}

/// `n` in two decimal digits.
pub open spec fn two_digits(n: int) -> Seq<char> {
    seq![digit(n / 10), digit(n % 10)]
}

/// The clock text `HH:MM:SS`.
pub open spec fn clock_spec(hour: int, minute: int, second: int) -> Seq<char> {
    two_digits(hour) + seq![':'] + two_digits(minute) + seq![':'] + two_digits(second)
}

fn push_two_digits(out: &mut Vec<char>, n: u32)
    requires
        n < 100,
    ensures
        final(out)@ == old(out)@ + two_digits(n as int),
{
    let tens = ((48 + n / 10) as u8) as char;
    let ones = ((48 + n % 10) as u8) as char;
    out.push(tens);
    out.push(ones);
}

/// The time of day as `HH:MM:SS`.
pub fn clock_text(hour: u32, minute: u32, second: u32) -> (r: String)
    requires
        hour < 100,
        minute < 100,
        second < 100,
    ensures
        r@ == clock_spec(hour as int, minute as int, second as int),
{
    let mut out: Vec<char> = Vec::new();
    push_two_digits(&mut out, hour);
    out.push(':');
    push_two_digits(&mut out, minute);
    out.push(':');
    push_two_digits(&mut out, second);
    assert(out@ =~= clock_spec(hour as int, minute as int, second as int));
    string_of(out.as_slice())
}

} // verus!
