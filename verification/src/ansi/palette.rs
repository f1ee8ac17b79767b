//! The terminal colours that text styles are drawn in.
use crate::ansi::style::{AnsiCode, TextColor, TextStyle};
use vstd::prelude::*;

verus! {

/// A terminal foreground colour.
#[derive(Debug, PartialEq, Eq, Clone, Copy, Structural)]
pub enum TerminalColor {
    Black,
    DarkGray,
    Indexed(u8),
    Rgb(u8, u8, u8),
}

/// The drawn colour of an SGR colour, brighter when bold; codes that are no
/// colour draw as white.
pub open spec fn ansi_color_spec(color: AnsiCode, bold: bool) -> TerminalColor {
    match color {
        AnsiCode::Black => if bold {
            TerminalColor::DarkGray
        } else {
            TerminalColor::Black
        },
        AnsiCode::Red => if bold {
            TerminalColor::Rgb(255, 85, 85)
        } else {
            TerminalColor::Rgb(187, 0, 0)
        },
        AnsiCode::Green => if bold {
            TerminalColor::Rgb(85, 255, 85)
        } else {
            TerminalColor::Rgb(0, 187, 0)
        },
        AnsiCode::Yellow => if bold {
            TerminalColor::Rgb(255, 255, 85)
        } else {
            TerminalColor::Rgb(187, 187, 0)
        },
        AnsiCode::Blue => if bold {
            TerminalColor::Rgb(135, 135, 255)
        } else {
            TerminalColor::Rgb(96, 96, 255)
        },
        AnsiCode::Magenta => if bold {
            TerminalColor::Rgb(255, 85, 255)
        } else {
            TerminalColor::Rgb(187, 0, 187)
        },
        AnsiCode::Cyan => if bold {
            TerminalColor::Rgb(85, 255, 255)
        } else {
            TerminalColor::Rgb(0, 187, 187)
        },
        AnsiCode::White => if bold {
            TerminalColor::Rgb(255, 255, 255)
        } else {
            TerminalColor::Rgb(187, 187, 187)
        },
        _ => TerminalColor::Rgb(187, 187, 187),
    }
}

/// The drawn colour of a text style: the default colour is the text colour, or
/// bright white when bold; indexed and RGB colours are drawn as they are.
pub open spec fn color_of(style: TextStyle) -> TerminalColor {
    match style.color {
        TextColor::Default => if style.bold {
            TerminalColor::Rgb(255, 255, 255)
        } else {
            TerminalColor::Rgb(187, 187, 187)
        },
        TextColor::Indexed(i) => TerminalColor::Indexed(i),
        TextColor::Rgb(r, g, b) => TerminalColor::Rgb(r, g, b),
        TextColor::Ansi(c) => ansi_color_spec(c, style.bold),
    }
}

#[allow(non_snake_case)]
pub fn BLACK() -> (r: TerminalColor)
    ensures
        r == TerminalColor::Black,
{
    TerminalColor::Black
}

#[allow(non_snake_case)]
pub fn DARK_GRAY() -> (r: TerminalColor)
    ensures
        r == TerminalColor::DarkGray,
{
    TerminalColor::DarkGray
}

#[allow(non_snake_case)]
pub fn WHITE() -> (r: TerminalColor)
    ensures
        r == TerminalColor::Rgb(187, 187, 187),
{
    TerminalColor::Rgb(187, 187, 187)
}

#[allow(non_snake_case)]
pub fn BOLD_WHITE() -> (r: TerminalColor)
    ensures
        r == TerminalColor::Rgb(255, 255, 255),
{
    TerminalColor::Rgb(255, 255, 255)
}

#[allow(non_snake_case)]
pub fn RED() -> (r: TerminalColor)
    ensures
        r == TerminalColor::Rgb(187, 0, 0),
{
    TerminalColor::Rgb(187, 0, 0)
}

/// The background colour.
#[allow(non_snake_case)]
pub fn SURFACE() -> (r: TerminalColor)
    ensures
        r == TerminalColor::Black,
{
    BLACK()
}

/// The plain text colour.
#[allow(non_snake_case)]
pub fn TEXT() -> (r: TerminalColor)
    ensures
        r == TerminalColor::Rgb(187, 187, 187),
{
    WHITE()
}

/// The selection highlight colour.
#[allow(non_snake_case)]
pub fn SELECTION() -> (r: TerminalColor)
    ensures
        r == TerminalColor::DarkGray,
{
    DARK_GRAY()
}

fn ansi_color(color: AnsiCode, bold: bool) -> (r: TerminalColor)
    ensures
        r == ansi_color_spec(color, bold),
{
    match color {
        AnsiCode::Black => if bold {
            TerminalColor::DarkGray
        } else {
            TerminalColor::Black
        },
        AnsiCode::Red => if bold {
            TerminalColor::Rgb(255, 85, 85)
        } else {
            TerminalColor::Rgb(187, 0, 0)
        },
        AnsiCode::Green => if bold {
            TerminalColor::Rgb(85, 255, 85)
        } else {
            TerminalColor::Rgb(0, 187, 0)
        },
        AnsiCode::Yellow => if bold {
            TerminalColor::Rgb(255, 255, 85)
        } else {
            TerminalColor::Rgb(187, 187, 0)
        },
        AnsiCode::Blue => if bold {
            TerminalColor::Rgb(135, 135, 255)
        } else {
            TerminalColor::Rgb(96, 96, 255)
        },
        AnsiCode::Magenta => if bold {
            TerminalColor::Rgb(255, 85, 255)
        } else {
            TerminalColor::Rgb(187, 0, 187)
        },
        AnsiCode::Cyan => if bold {
            TerminalColor::Rgb(85, 255, 255)
        } else {
            TerminalColor::Rgb(0, 187, 187)
        },
        AnsiCode::White => if bold {
            TerminalColor::Rgb(255, 255, 255)
        } else {
            WHITE()
        },
        _ => WHITE(),
    }
}

/// The colour a text style is drawn in.
pub fn get_color(style: TextStyle) -> (r: TerminalColor)
    ensures
        r == color_of(style),
{
    match style.color {
        TextColor::Default => if style.bold {
            BOLD_WHITE()
        } else {
            TEXT()
        },
        TextColor::Indexed(index) => TerminalColor::Indexed(index),
        TextColor::Rgb(red, green, blue) => TerminalColor::Rgb(red, green, blue),
        TextColor::Ansi(color) => ansi_color(color, style.bold),
    }
}

} // verus!
