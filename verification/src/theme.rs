//! Colours of the theme, read from their names or from hexadecimal
//! notation.

use vstd::prelude::*;
use crate::text::str_eq;

verus! {

/// A colour of the terminal.
#[derive(Debug, Clone, Copy, PartialEq, Eq, Structural)]
pub enum Color {
    Reset,
    Black,
    Red,
    Green,
    Yellow,
    Blue,
    Magenta,
    Cyan,
    Gray,
    DarkGray,
    LightRed,
    LightGreen,
    LightYellow,
    LightBlue,
    LightMagenta,
    LightCyan,
    White,
    Rgb(u8, u8, u8),
}

/// The red, green and blue that the `colorsys` crate reads from a text in
/// hexadecimal notation, if it reads any.
pub uninterp spec fn hex_rgb(text: Seq<char>) -> Option<(u8, u8, u8)>;

/// `colorsys::Rgb::from_hex_str`, with the colour taken as three bytes. The
/// result is the one that `hex_rgb` names.
#[verifier::external_body]
pub(crate) fn parse_hex(text: &str) -> (r: Option<(u8, u8, u8)>)
    ensures
        r == hex_rgb(text@),
{
    match colorsys::Rgb::from_hex_str(text) {
        Ok(colour) => {
            let rgb: [u8; 3] = colour.into();
            Some((rgb[0], rgb[1], rgb[2]))
        },
        Err(_) => None,
    }
}

/// The colour that a name stands for.
pub open spec fn named_color(name: Seq<char>) -> Option<Color> {
    if name == "Reset"@ {
        Some(Color::Reset)
    } else if name == "Black"@ {
        Some(Color::Black)
    } else if name == "Red"@ {
        Some(Color::Red)
    } else if name == "Green"@ {
        Some(Color::Green)
    } else if name == "Yellow"@ {
        Some(Color::Yellow)
    } else if name == "Blue"@ {
        Some(Color::Blue)
    } else if name == "Magenta"@ {
        Some(Color::Magenta)
    } else if name == "Cyan"@ {
        Some(Color::Cyan)
    } else if name == "Gray"@ {
        Some(Color::Gray)
    } else if name == "DarkGray"@ {
        Some(Color::DarkGray)
    } else if name == "LightRed"@ {
        Some(Color::LightRed)
    } else if name == "LightGreen"@ {
        Some(Color::LightGreen)
    } else if name == "LightYellow"@ {
        Some(Color::LightYellow)
    } else if name == "LightBlue"@ {
        Some(Color::LightBlue)
    } else if name == "LightMagenta"@ {
        Some(Color::LightMagenta)
    } else if name == "LightCyan"@ {
        Some(Color::LightCyan)
    } else if name == "White"@ {
        Some(Color::White)
    } else {
        None
    }
}

/// The colour that a text of the theme stands for, given what it reads as
/// in hexadecimal notation: a named colour first, else the colour read.
pub open spec fn color_of(text: Seq<char>, hex: Option<(u8, u8, u8)>) -> Option<Color> {
    match named_color(text) {
        Some(c) => Some(c),
        None => match hex {
            Some((r, g, b)) => Some(Color::Rgb(r, g, b)),
            None => None,
        },
    }
}

/// Reads a colour by its name.
pub fn color_by_name(name: &str) -> (r: Option<Color>)
    ensures
        r == named_color(name@),
{
    if str_eq(name, "Reset") {
        Some(Color::Reset)
    } else if str_eq(name, "Black") {
        Some(Color::Black)
    } else if str_eq(name, "Red") {
        Some(Color::Red)
    } else if str_eq(name, "Green") {
        Some(Color::Green)
    } else if str_eq(name, "Yellow") {
        Some(Color::Yellow)
    } else if str_eq(name, "Blue") {
        Some(Color::Blue)
    } else if str_eq(name, "Magenta") {
        Some(Color::Magenta)
    } else if str_eq(name, "Cyan") {
        Some(Color::Cyan)
    } else if str_eq(name, "Gray") {
        Some(Color::Gray)
    } else if str_eq(name, "DarkGray") {
        Some(Color::DarkGray)
    } else if str_eq(name, "LightRed") {
        Some(Color::LightRed)
    } else if str_eq(name, "LightGreen") {
        Some(Color::LightGreen)
    } else if str_eq(name, "LightYellow") {
        Some(Color::LightYellow)
    } else if str_eq(name, "LightBlue") {
        Some(Color::LightBlue)
    } else if str_eq(name, "LightMagenta") {
        Some(Color::LightMagenta)
    } else if str_eq(name, "LightCyan") {
        Some(Color::LightCyan)
    } else if str_eq(name, "White") {
        Some(Color::White)
    } else {
        None
    }
}

/// Picks the colour for a text of the theme, given what the text reads as
/// in hexadecimal notation.
pub fn pick_color(text: &str, hex: Option<(u8, u8, u8)>) -> (r: Option<Color>)
    ensures
        r == color_of(text@, hex),
{
    match color_by_name(text) {
        Some(c) => Some(c),
        None => match hex {
            Some((r, g, b)) => Some(Color::Rgb(r, g, b)),
            None => None,
        },
    }
}

/// Reads a colour of the theme: one of the named colours, or a colour in
/// hexadecimal notation. Any other text is no colour.
pub fn parse_color(text: &str) -> (r: Option<Color>)
    ensures
        r == color_of(text@, hex_rgb(text@)),
{
    match color_by_name(text) {
        Some(c) => Some(c),
        None => pick_color(text, parse_hex(text)),
    }
}

} // verus!
