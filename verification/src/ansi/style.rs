//! SGR codes, colours and text styles.
use vstd::prelude::*;
use vstd::std_specs::cmp::PartialEqSpecImpl;

verus! {

/// The SGR codes the client understands.
#[derive(Debug, PartialEq, Eq, Clone, Copy, Structural)]
pub enum AnsiCode {
    Reset,
    Bold,
    BoldOff,
    Black,
    Red,
    Green,
    Yellow,
    Blue,
    Magenta,
    Cyan,
    White,
    DefaultColor,
}

/// The SGR codes of the older block renderer, which has no black.
#[derive(Debug, PartialEq, Eq, Clone, Copy, Structural)]
pub enum AnsiCodes {
    Reset,
    Bold,
    BoldOff,
    Red,
    Green,
    Yellow,
    Blue,
    Magenta,
    Cyan,
    White,
    DefaultColor,
}

/// The older renderer's code with a given SGR number.
pub open spec fn ansi_codes_of(n: u8) -> Option<AnsiCodes> {
    if n == 0 {
        Some(AnsiCodes::Reset)
    } else if n == 1 {
        Some(AnsiCodes::Bold)
    } else if n == 22 {
        Some(AnsiCodes::BoldOff)
    } else if n == 31 {
        Some(AnsiCodes::Red)
    } else if n == 32 {
        Some(AnsiCodes::Green)
    } else if n == 33 {
        Some(AnsiCodes::Yellow)
    } else if n == 34 {
        Some(AnsiCodes::Blue)
    } else if n == 35 {
        Some(AnsiCodes::Magenta)
    } else if n == 36 {
        Some(AnsiCodes::Cyan)
    } else if n == 37 {
        Some(AnsiCodes::White)
    } else if n == 39 {
        Some(AnsiCodes::DefaultColor)
    } else {
        None
    }
}

impl AnsiCodes {
    /// The code with this SGR number.
    pub fn from_u8(n: u8) -> (r: Option<AnsiCodes>)
        ensures
            r == ansi_codes_of(n),
    {
        match n {
            0 => Some(AnsiCodes::Reset),
            1 => Some(AnsiCodes::Bold),
            22 => Some(AnsiCodes::BoldOff),
            31 => Some(AnsiCodes::Red),
            32 => Some(AnsiCodes::Green),
            33 => Some(AnsiCodes::Yellow),
            34 => Some(AnsiCodes::Blue),
            35 => Some(AnsiCodes::Magenta),
            36 => Some(AnsiCodes::Cyan),
            37 => Some(AnsiCodes::White),
            39 => Some(AnsiCodes::DefaultColor),
            _ => None,
        }
    }
}

/// The code with a given SGR number, if the client knows it.
pub open spec fn ansi_code_of(n: u8) -> Option<AnsiCode> {
    if n == 0 {
        Some(AnsiCode::Reset)
    } else if n == 1 {
        Some(AnsiCode::Bold)
    } else if n == 22 {
        Some(AnsiCode::BoldOff)
    } else if 30 <= n <= 37 {
        ansi_color_from_offset_spec((n - 30) as u8)
    } else if n == 39 {
        Some(AnsiCode::DefaultColor)
    } else {
        None
    }
}

/// The eight colours in SGR order (30–37, 90–97).
pub open spec fn ansi_color_from_offset_spec(offset: u8) -> Option<AnsiCode> {
    if offset == 0 {
        Some(AnsiCode::Black)
    } else if offset == 1 {
        Some(AnsiCode::Red)
    } else if offset == 2 {
        Some(AnsiCode::Green)
    } else if offset == 3 {
        Some(AnsiCode::Yellow)
    } else if offset == 4 {
        Some(AnsiCode::Blue)
    } else if offset == 5 {
        Some(AnsiCode::Magenta)
    } else if offset == 6 {
        Some(AnsiCode::Cyan)
    } else if offset == 7 {
        Some(AnsiCode::White)
    } else {
        None
    }
}

/// The colour for an offset from the base of the eight colours.
pub fn ansi_color_from_offset(offset: u8) -> (r: Option<AnsiCode>)
    ensures
        r == ansi_color_from_offset_spec(offset),
{
    match offset {
        0 => Some(AnsiCode::Black),
        1 => Some(AnsiCode::Red),
        2 => Some(AnsiCode::Green),
        3 => Some(AnsiCode::Yellow),
        4 => Some(AnsiCode::Blue),
        5 => Some(AnsiCode::Magenta),
        6 => Some(AnsiCode::Cyan),
        7 => Some(AnsiCode::White),
        _ => None,
    }
}

impl AnsiCode {
    /// The code with this SGR number.
    pub fn from_u8(n: u8) -> (r: Option<AnsiCode>)
        ensures
            r == ansi_code_of(n),
    {
        if n == 0 {
            Some(AnsiCode::Reset)
        } else if n == 1 {
            Some(AnsiCode::Bold)
        } else if n == 22 {
            Some(AnsiCode::BoldOff)
        } else if 30 <= n && n <= 37 {
            ansi_color_from_offset(n - 30)
        } else if n == 39 {
            Some(AnsiCode::DefaultColor)
        } else {
            None
        }
    }
}

/// A foreground colour.
#[derive(Debug, PartialEq, Eq, Clone, Copy, Structural)]
pub enum TextColor {
    Default,
    Ansi(AnsiCode),
    Indexed(u8),
    Rgb(u8, u8, u8),
}

/// The colour an SGR code stands for: the non-colour codes mean the default colour.
pub open spec fn text_color_from_ansi(color: AnsiCode) -> TextColor {
    match color {
        AnsiCode::DefaultColor | AnsiCode::Reset | AnsiCode::Bold | AnsiCode::BoldOff => TextColor::Default,
        c => TextColor::Ansi(c),
    }
}

/// Whether a colour is the one an SGR code names: the default colour matches
/// `DefaultColor`, an SGR colour matches its own code.
pub open spec fn color_matches_code(c: TextColor, code: AnsiCode) -> bool {
    match c {
        TextColor::Default => code == AnsiCode::DefaultColor,
        TextColor::Ansi(a) => a == code,
        _ => false,
    }
}

impl TextColor {
    pub fn from_ansi(color: AnsiCode) -> (r: Self)
        ensures
            r == text_color_from_ansi(color),
    {
        match color {
            AnsiCode::DefaultColor | AnsiCode::Reset | AnsiCode::Bold | AnsiCode::BoldOff => {
                TextColor::Default
            },
            c => TextColor::Ansi(c),
        }
    }

    /// Whether this colour is the one the SGR code names.
    pub fn matches_code(&self, other: &AnsiCode) -> (r: bool)
        ensures
            r == color_matches_code(*self, *other),
    {
        match self {
            TextColor::Default => *other == AnsiCode::DefaultColor,
            TextColor::Ansi(color) => *color == *other,
            _ => false,
        }
    }
}

impl PartialEq<AnsiCode> for TextColor {
    fn eq(&self, other: &AnsiCode) -> (r: bool) {
        self.matches_code(other)
    }
}

impl PartialEqSpecImpl<AnsiCode> for TextColor {
    open spec fn obeys_eq_spec() -> bool {
        true
    }

    open spec fn eq_spec(&self, other: &AnsiCode) -> bool {
        color_matches_code(*self, *other)
    }
}

/// A colour and a bold flag.
#[derive(Debug, PartialEq, Eq, Clone, Copy, Structural)]
pub struct TextStyle {
    pub color: TextColor,
    pub bold: bool,
}

impl TextStyle {
    #[allow(non_snake_case)]
    pub fn DEFAULT() -> (r: TextStyle)
        ensures
            r == (TextStyle { color: TextColor::Default, bold: false }),
    {
        TextStyle { color: TextColor::Default, bold: false }
    }

    #[allow(non_snake_case)]
    pub fn RED() -> (r: TextStyle)
        ensures
            r == (TextStyle { color: TextColor::Ansi(AnsiCode::Red), bold: false }),
    {
        TextStyle { color: TextColor::Ansi(AnsiCode::Red), bold: false }
    }

    #[allow(non_snake_case)]
    pub fn GREEN() -> (r: TextStyle)
        ensures
            r == (TextStyle { color: TextColor::Ansi(AnsiCode::Green), bold: false }),
    {
        TextStyle { color: TextColor::Ansi(AnsiCode::Green), bold: false }
    }

    #[allow(non_snake_case)]
    pub fn YELLOW() -> (r: TextStyle)
        ensures
            r == (TextStyle { color: TextColor::Ansi(AnsiCode::Yellow), bold: false }),
    {
        TextStyle { color: TextColor::Ansi(AnsiCode::Yellow), bold: false }
    }

    #[allow(non_snake_case)]
    pub fn BLUE() -> (r: TextStyle)
        ensures
            r == (TextStyle { color: TextColor::Ansi(AnsiCode::Blue), bold: false }),
    {
        TextStyle { color: TextColor::Ansi(AnsiCode::Blue), bold: false }
    }

    #[allow(non_snake_case)]
    pub fn MAGENTA() -> (r: TextStyle)
        ensures
            r == (TextStyle { color: TextColor::Ansi(AnsiCode::Magenta), bold: false }),
    {
        TextStyle { color: TextColor::Ansi(AnsiCode::Magenta), bold: false }
    }

    #[allow(non_snake_case)]
    pub fn CYAN() -> (r: TextStyle)
        ensures
            r == (TextStyle { color: TextColor::Ansi(AnsiCode::Cyan), bold: false }),
    {
        TextStyle { color: TextColor::Ansi(AnsiCode::Cyan), bold: false }
    }

    #[allow(non_snake_case)]
    pub fn WHITE() -> (r: TextStyle)
        ensures
            r == (TextStyle { color: TextColor::Ansi(AnsiCode::White), bold: false }),
    {
        TextStyle { color: TextColor::Ansi(AnsiCode::White), bold: false }
    }

    #[allow(non_snake_case)]
    pub fn BRIGHT_RED() -> (r: TextStyle)
        ensures
            r == (TextStyle { color: TextColor::Ansi(AnsiCode::Red), bold: true }),
    {
        TextStyle { color: TextColor::Ansi(AnsiCode::Red), bold: true }
    }

    #[allow(non_snake_case)]
    pub fn BRIGHT_GREEN() -> (r: TextStyle)
        ensures
            r == (TextStyle { color: TextColor::Ansi(AnsiCode::Green), bold: true }),
    {
        TextStyle { color: TextColor::Ansi(AnsiCode::Green), bold: true }
    }

    #[allow(non_snake_case)]
    pub fn BRIGHT_YELLOW() -> (r: TextStyle)
        ensures
            r == (TextStyle { color: TextColor::Ansi(AnsiCode::Yellow), bold: true }),
    {
        TextStyle { color: TextColor::Ansi(AnsiCode::Yellow), bold: true }
    }

    #[allow(non_snake_case)]
    pub fn BRIGHT_BLUE() -> (r: TextStyle)
        ensures
            r == (TextStyle { color: TextColor::Ansi(AnsiCode::Blue), bold: true }),
    {
        TextStyle { color: TextColor::Ansi(AnsiCode::Blue), bold: true }
    }

    #[allow(non_snake_case)]
    pub fn BRIGHT_MAGENTA() -> (r: TextStyle)
        ensures
            r == (TextStyle { color: TextColor::Ansi(AnsiCode::Magenta), bold: true }),
    {
        TextStyle { color: TextColor::Ansi(AnsiCode::Magenta), bold: true }
    }

    #[allow(non_snake_case)]
    pub fn BRIGHT_CYAN() -> (r: TextStyle)
        ensures
            r == (TextStyle { color: TextColor::Ansi(AnsiCode::Cyan), bold: true }),
    {
        TextStyle { color: TextColor::Ansi(AnsiCode::Cyan), bold: true }
    }

    #[allow(non_snake_case)]
    pub fn BRIGHT_WHITE() -> (r: TextStyle)
        ensures
            r == (TextStyle { color: TextColor::Ansi(AnsiCode::White), bold: true }),
    {
        TextStyle { color: TextColor::Ansi(AnsiCode::White), bold: true }
    }

    pub fn new(color: TextColor, bold: bool) -> (r: Self)
        ensures
            r == (TextStyle { color, bold }),
    {
        TextStyle { color, bold }
    }

    pub fn ansi(color: AnsiCode, bold: bool) -> (r: Self)
        ensures
            r == (TextStyle { color: text_color_from_ansi(color), bold }),
    {
        TextStyle { color: TextColor::from_ansi(color), bold }
    }
}

/// The style carried through an SGR code list: bold flag and colour.
pub open spec fn reset_style() -> (bool, TextColor) {
    (false, TextColor::Default)
}

/// The extended colour at the start of `codes` (`38;5;n` or `38;2;r;g;b`) and
/// how many codes it takes.
pub open spec fn extended_color_spec(codes: Seq<u8>) -> Option<(TextColor, nat)> {
    if codes.len() >= 3 && codes[0] == 38 && codes[1] == 5 {
        Some((TextColor::Indexed(codes[2]), 3))
    } else if codes.len() >= 5 && codes[0] == 38 && codes[1] == 2 {
        Some((TextColor::Rgb(codes[2], codes[3], codes[4]), 5))
    } else {
        None
    }
}

/// The style after applying the SGR codes from index `i` on.
pub open spec fn sgr_from(st: (bool, TextColor), codes: Seq<u8>, i: int) -> (bool, TextColor)
    decreases codes.len() - i,
{
    if i < 0 || i >= codes.len() {
        st
    } else {
        let c = codes[i];
        if c == 0 {
            sgr_from(reset_style(), codes, i + 1)
        } else if c == 1 {
            sgr_from((true, st.1), codes, i + 1)
        } else if c == 22 {
            sgr_from((false, st.1), codes, i + 1)
        } else if 30 <= c <= 37 {
            sgr_from((st.0, TextColor::Ansi(ansi_color_from_offset_spec((c - 30) as u8)->0)), codes, i + 1)
        } else if c == 38 {
            match extended_color_spec(codes.skip(i)) {
                Some((color, used)) => sgr_from((st.0, color), codes, i + used),
                None => sgr_from(st, codes, i + 1),
            }
        } else if c == 39 {
            sgr_from((st.0, TextColor::Default), codes, i + 1)
        } else if 90 <= c <= 97 {
            sgr_from((true, TextColor::Ansi(ansi_color_from_offset_spec((c - 90) as u8)->0)), codes, i + 1)
        } else {
            sgr_from(st, codes, i + 1)
        }
    }
}

/// The style after an SGR code list; an empty list resets.
pub open spec fn apply_sgr(st: (bool, TextColor), codes: Seq<u8>) -> (bool, TextColor) {
    if codes.len() == 0 {
        reset_style()
    } else {
        sgr_from(st, codes, 0)
    }
}

/// The extended colour at the start of `codes` and how many codes it takes.
pub fn extended_color(codes: &[u8]) -> (r: Option<(TextColor, usize)>)
    ensures
        match extended_color_spec(codes@) {
            Some((c, n)) => r matches Some((rc, rn)) && rc == c && rn == n,
            None => r is None,
        },
{
    if codes.len() >= 3 && codes[0] == 38 && codes[1] == 5 {
        Some((TextColor::Indexed(codes[2]), 3))
    } else if codes.len() >= 5 && codes[0] == 38 && codes[1] == 2 {
        Some((TextColor::Rgb(codes[2], codes[3], codes[4]), 5))
    } else {
        None
    }
}

/// The codes from index `i` on.
fn codes_from(codes: &[u8], i: usize) -> (r: Vec<u8>)
    requires
        i <= codes@.len(),
    ensures
        r@ == codes@.skip(i as int),
{
    let mut r: Vec<u8> = Vec::new();
    let mut k = i;
    while k < codes.len()
        invariant
            i <= k <= codes@.len(),
            r@ == codes@.subrange(i as int, k as int),
        decreases codes.len() - k,
    {
        r.push(codes[k]);
        k = k + 1;
    }
    r
}

/// Applies an SGR code list to a bold flag and a colour.
pub fn apply_sgr_codes(bold: bool, color: TextColor, codes: &[u8]) -> (r: (bool, TextColor))
    ensures
        r == apply_sgr((bold, color), codes@),
{
    if codes.len() == 0 {
        return (false, TextColor::Default);
    }
    let mut b = bold;
    let mut c = color;
    let mut index: usize = 0;
    while index < codes.len()
        invariant
            index <= codes@.len(),
            codes@.len() > 0,
            apply_sgr((bold, color), codes@) == sgr_from((b, c), codes@, index as int),
        decreases codes.len() - index,
    {
        let code = codes[index];
        if code == 0 {
            b = false;
            c = TextColor::Default;
        } else if code == 1 {
            b = true;
        } else if code == 22 {
            b = false;
        } else if 30 <= code && code <= 37 {
            if let Some(col) = ansi_color_from_offset(code - 30) {
                c = TextColor::Ansi(col);
            }
        } else if code == 38 {
            let rest = codes_from(codes, index);
            if let Some((col, consumed)) = extended_color(rest.as_slice()) {
                c = col;
                index = index + consumed - 1;
            }
        } else if code == 39 {
            c = TextColor::Default;
        } else if 90 <= code && code <= 97 {
            if let Some(col) = ansi_color_from_offset(code - 90) {
                c = TextColor::Ansi(col);
                b = true;
            }
        }
        index = index + 1;
    }
    (b, c)
}

/// SGR 22 (normal intensity) clears bold and keeps the colour; SGR 1 sets
/// bold and keeps the colour; so bold followed by normal intensity leaves
/// text not bold in its colour.
pub proof fn law_normal_intensity_clears_bold(bold: bool, color: TextColor)
    ensures
        apply_sgr((bold, color), seq![22u8]) == (false, color),
        apply_sgr((bold, color), seq![1u8]) == (true, color),
        apply_sgr((bold, color), seq![1u8, 22u8]) == (false, color),
        apply_sgr((bold, color), seq![22u8, 1u8]) == (true, color),
{
    reveal_with_fuel(sgr_from, 3);
}

/// The single SGR codes: 0 and an empty list reset to default text, 39 sets
/// the default colour keeping bold, 31 and 91 give red (91 also bold), and
/// `38;5;n` and `38;2;r;g;b` give the indexed and true colours keeping bold.
pub proof fn law_sgr_codes_set_what_they_name(bold: bool, color: TextColor, n: u8, r: u8, g: u8, b: u8)
    ensures
        apply_sgr((bold, color), seq![]) == (false, TextColor::Default),
        apply_sgr((bold, color), seq![0u8]) == (false, TextColor::Default),
        apply_sgr((bold, color), seq![39u8]) == (bold, TextColor::Default),
        apply_sgr((bold, color), seq![31u8]) == (bold, TextColor::Ansi(AnsiCode::Red)),
        apply_sgr((bold, color), seq![91u8]) == (true, TextColor::Ansi(AnsiCode::Red)),
        apply_sgr((bold, color), seq![38u8, 5u8, n]) == (bold, TextColor::Indexed(n)),
        apply_sgr((bold, color), seq![38u8, 2u8, r, g, b]) == (bold, TextColor::Rgb(r, g, b)),
{
    reveal_with_fuel(sgr_from, 2);
    assert(seq![38u8, 5u8, n].skip(0) =~= seq![38u8, 5u8, n]);
    assert(seq![38u8, 2u8, r, g, b].skip(0) =~= seq![38u8, 2u8, r, g, b]);
}

} // verus!
