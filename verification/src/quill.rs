//! Terminal text styling with ANSI escape sequences, applied only when styling is on.

use vstd::prelude::*;

verus! {

/// Foreground colors.
#[derive(Debug, Clone, Copy, PartialEq, Eq)]
pub enum Color {
    Red,
    Green,
    Yellow,
    Blue,
    Magenta,
    Cyan,
    White,
}

/// The escape sequence that selects a color.
pub open spec fn ansi_code(color: Color) -> Seq<char> {
    match color {
        Color::Red => "\x1b[31m"@,
        Color::Green => "\x1b[32m"@,
        Color::Yellow => "\x1b[33m"@,
        Color::Blue => "\x1b[34m"@,
        Color::Magenta => "\x1b[35m"@,
        Color::Cyan => "\x1b[36m"@,
        Color::White => "\x1b[37m"@,
    }
}

impl Color {
    /// The escape sequence that selects the color.
    pub fn to_ansi(&self) -> (s: &'static str)
        ensures
            s@ == ansi_code(*self),
    {
        match self {
            Color::Red => "\x1b[31m",
            Color::Green => "\x1b[32m",
            Color::Yellow => "\x1b[33m",
            Color::Blue => "\x1b[34m",
            Color::Magenta => "\x1b[35m",
            Color::Cyan => "\x1b[36m",
            Color::White => "\x1b[37m",
        }
    }
}

/// The escape sequence that ends any styling.
pub open spec fn reset_code() -> Seq<char> {
    "\x1b[0m"@
}

/// `text` between `start` and the reset sequence when styling is on, `text` alone otherwise.
pub open spec fn styled(start: Seq<char>, text: Seq<char>, ansi: bool) -> Seq<char> {
    if ansi {
        start + text + reset_code()
    } else {
        text
    }
}

fn wrap(start: &str, text: &str, ansi: bool) -> (s: String)
    ensures
        s@ == styled(start@, text@, ansi),
{
    if ansi {
        let mut s = String::from_str(start);
        s.append(text);
        s.append("\x1b[0m");
        s
    } else {
        String::from_str(text)
    }
}

/// `text` in `color` when styling is on.
pub fn color_text(color: Color, text: &str, ansi: bool) -> (s: String)
    ensures
        s@ == styled(ansi_code(color), text@, ansi),
{
    wrap(color.to_ansi(), text, ansi)
}

/// `text` underlined when styling is on.
pub fn underline_text(text: &str, ansi: bool) -> (s: String)
    ensures
        s@ == styled("\x1b[4m"@, text@, ansi),
{
    wrap("\x1b[4m", text, ansi)
}

/// `text` in bold when styling is on.
pub fn bold_text(text: &str, ansi: bool) -> (s: String)
    ensures
        s@ == styled("\x1b[1m"@, text@, ansi),
{
    wrap("\x1b[1m", text, ansi)
}

} // verus!
