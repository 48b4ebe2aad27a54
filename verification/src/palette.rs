//! clap's colors and styles as the terminal backends' own: the 16 ANSI colors onto inquire's
//! palette and onto console's base colors with brightness, and which effects each backend keeps.

use vstd::prelude::*;

verus! {

/// One of the 16 ANSI colors.
#[derive(Clone, Copy, PartialEq, Eq, Structural, Debug)]
pub enum AnsiColor {
    Black,
    Red,
    Green,
    Yellow,
    Blue,
    Magenta,
    Cyan,
    White,
    BrightBlack,
    BrightRed,
    BrightGreen,
    BrightYellow,
    BrightBlue,
    BrightMagenta,
    BrightCyan,
    BrightWhite,
}

/// A clap color.
#[derive(Clone, Copy, PartialEq, Eq, Structural, Debug)]
pub enum ColorSpec {
    Ansi(AnsiColor),
    Ansi256(u8),
    Rgb(u8, u8, u8),
}

/// A clap style: its foreground color and the effects a backend may carry.
#[derive(Clone, Copy, PartialEq, Eq, Structural, Debug)]
pub struct StyleSpec {
    pub fg: Option<ColorSpec>,
    pub bold: bool,
    pub dimmed: bool,
    pub italic: bool,
    pub underline: bool,
}

/// inquire's palette.
#[derive(Clone, Copy, PartialEq, Eq, Structural, Debug)]
pub enum InquireColor {
    Black,
    DarkRed,
    DarkGreen,
    DarkYellow,
    DarkBlue,
    DarkMagenta,
    DarkCyan,
    Grey,
    DarkGrey,
    LightRed,
    LightGreen,
    LightYellow,
    LightBlue,
    LightMagenta,
    LightCyan,
    White,
    AnsiValue(u8),
    Rgb(u8, u8, u8),
}

/// An inquire style sheet: a foreground color, bold and italic.
#[derive(Clone, Copy, PartialEq, Eq, Structural, Debug)]
pub struct SheetSpec {
    pub fg: Option<InquireColor>,
    pub bold: bool,
    pub italic: bool,
}

/// The ANSI color in inquire's palette: the plain colors are its dark ones, the bright colors
/// its light ones; white is grey and bright black dark grey, bright white white.
pub fn inquire_named(ansi: AnsiColor) -> (c: InquireColor)
    ensures
        c == inquire_named_spec(ansi),
{
    match ansi {
        AnsiColor::Black => InquireColor::Black,
        AnsiColor::Red => InquireColor::DarkRed,
        AnsiColor::Green => InquireColor::DarkGreen,
        AnsiColor::Yellow => InquireColor::DarkYellow,
        AnsiColor::Blue => InquireColor::DarkBlue,
        AnsiColor::Magenta => InquireColor::DarkMagenta,
        AnsiColor::Cyan => InquireColor::DarkCyan,
        AnsiColor::White => InquireColor::Grey,
        AnsiColor::BrightBlack => InquireColor::DarkGrey,
        AnsiColor::BrightRed => InquireColor::LightRed,
        AnsiColor::BrightGreen => InquireColor::LightGreen,
        AnsiColor::BrightYellow => InquireColor::LightYellow,
        AnsiColor::BrightBlue => InquireColor::LightBlue,
        AnsiColor::BrightMagenta => InquireColor::LightMagenta,
        AnsiColor::BrightCyan => InquireColor::LightCyan,
        AnsiColor::BrightWhite => InquireColor::White,
    }
}

/// A clap color in inquire's terms: a 256-color index and an RGB color carry over as they are.
pub fn inquire_color(color: ColorSpec) -> (c: InquireColor)
    ensures
        c == match color {
            ColorSpec::Ansi(ansi) => inquire_named_spec(ansi),
            ColorSpec::Ansi256(index) => InquireColor::AnsiValue(index),
            ColorSpec::Rgb(r, g, b) => InquireColor::Rgb(r, g, b),
        },
{
    match color {
        ColorSpec::Ansi(ansi) => inquire_named(ansi),
        ColorSpec::Ansi256(index) => InquireColor::AnsiValue(index),
        ColorSpec::Rgb(r, g, b) => InquireColor::Rgb(r, g, b),
    }
}

/// The ANSI color in inquire's palette.
pub open spec fn inquire_named_spec(ansi: AnsiColor) -> InquireColor {
    match ansi {
        AnsiColor::Black => InquireColor::Black,
        AnsiColor::Red => InquireColor::DarkRed,
        AnsiColor::Green => InquireColor::DarkGreen,
        AnsiColor::Yellow => InquireColor::DarkYellow,
        AnsiColor::Blue => InquireColor::DarkBlue,
        AnsiColor::Magenta => InquireColor::DarkMagenta,
        AnsiColor::Cyan => InquireColor::DarkCyan,
        AnsiColor::White => InquireColor::Grey,
        AnsiColor::BrightBlack => InquireColor::DarkGrey,
        AnsiColor::BrightRed => InquireColor::LightRed,
        AnsiColor::BrightGreen => InquireColor::LightGreen,
        AnsiColor::BrightYellow => InquireColor::LightYellow,
        AnsiColor::BrightBlue => InquireColor::LightBlue,
        AnsiColor::BrightMagenta => InquireColor::LightMagenta,
        AnsiColor::BrightCyan => InquireColor::LightCyan,
        AnsiColor::BrightWhite => InquireColor::White,
    }
}

/// A clap style as an inquire style sheet: its foreground color and its bold and italic
/// effects; dim and underline are dropped.
pub fn sheet(style: StyleSpec) -> (s: SheetSpec)
    ensures
        s.fg == match style.fg {
            Some(c) => Some(match c {
                ColorSpec::Ansi(ansi) => inquire_named_spec(ansi),
                ColorSpec::Ansi256(index) => InquireColor::AnsiValue(index),
                ColorSpec::Rgb(r, g, b) => InquireColor::Rgb(r, g, b),
            }),
            None => None,
        },
        s.bold == style.bold,
        s.italic == style.italic,
{
    let fg = match style.fg {
        Some(c) => Some(inquire_color(c)),
        None => None,
    };
    SheetSpec { fg, bold: style.bold, italic: style.italic }
}

/// console's base colors; brightness is carried on the style.
#[derive(Clone, Copy, PartialEq, Eq, Structural, Debug)]
pub enum ConsoleColor {
    Black,
    Red,
    Green,
    Yellow,
    Blue,
    Magenta,
    Cyan,
    White,
}

/// A clap color in console's terms.
#[derive(Clone, Copy, PartialEq, Eq, Structural, Debug)]
pub enum ConsoleColorSpec {
    /// A base color, and whether the style is bright.
    Named(ConsoleColor, bool),
    Color256(u8),
    TrueColor(u8, u8, u8),
}

/// A console style: a foreground color and the four effects console can draw.
#[derive(Clone, Copy, PartialEq, Eq, Structural, Debug)]
pub struct ConsoleStyleSpec {
    pub fg: Option<ConsoleColorSpec>,
    pub bold: bool,
    pub dim: bool,
    pub italic: bool,
    pub underlined: bool,
}

/// The ANSI color as console's base color and brightness.
pub open spec fn console_named_spec(ansi: AnsiColor) -> ConsoleColorSpec {
    match ansi {
        AnsiColor::Black => ConsoleColorSpec::Named(ConsoleColor::Black, false),
        AnsiColor::Red => ConsoleColorSpec::Named(ConsoleColor::Red, false),
        AnsiColor::Green => ConsoleColorSpec::Named(ConsoleColor::Green, false),
        AnsiColor::Yellow => ConsoleColorSpec::Named(ConsoleColor::Yellow, false),
        AnsiColor::Blue => ConsoleColorSpec::Named(ConsoleColor::Blue, false),
        AnsiColor::Magenta => ConsoleColorSpec::Named(ConsoleColor::Magenta, false),
        AnsiColor::Cyan => ConsoleColorSpec::Named(ConsoleColor::Cyan, false),
        AnsiColor::White => ConsoleColorSpec::Named(ConsoleColor::White, false),
        AnsiColor::BrightBlack => ConsoleColorSpec::Named(ConsoleColor::Black, true),
        AnsiColor::BrightRed => ConsoleColorSpec::Named(ConsoleColor::Red, true),
        AnsiColor::BrightGreen => ConsoleColorSpec::Named(ConsoleColor::Green, true),
        AnsiColor::BrightYellow => ConsoleColorSpec::Named(ConsoleColor::Yellow, true),
        AnsiColor::BrightBlue => ConsoleColorSpec::Named(ConsoleColor::Blue, true),
        AnsiColor::BrightMagenta => ConsoleColorSpec::Named(ConsoleColor::Magenta, true),
        AnsiColor::BrightCyan => ConsoleColorSpec::Named(ConsoleColor::Cyan, true),
        AnsiColor::BrightWhite => ConsoleColorSpec::Named(ConsoleColor::White, true),
    }
}

/// Whether an ANSI color is one of the bright eight.
pub open spec fn is_bright(ansi: AnsiColor) -> bool {
    match ansi {
        AnsiColor::BrightBlack | AnsiColor::BrightRed | AnsiColor::BrightGreen | AnsiColor::BrightYellow
        | AnsiColor::BrightBlue | AnsiColor::BrightMagenta | AnsiColor::BrightCyan | AnsiColor::BrightWhite => true,
        _ => false,
    }
}

/// The ANSI color as console's base color, bright for the bright eight.
pub fn console_named(ansi: AnsiColor) -> (c: ConsoleColorSpec)
    ensures
        c == console_named_spec(ansi),
        c matches ConsoleColorSpec::Named(_, bright) && bright == is_bright(ansi),
{
    match ansi {
        AnsiColor::Black => ConsoleColorSpec::Named(ConsoleColor::Black, false),
        AnsiColor::Red => ConsoleColorSpec::Named(ConsoleColor::Red, false),
        AnsiColor::Green => ConsoleColorSpec::Named(ConsoleColor::Green, false),
        AnsiColor::Yellow => ConsoleColorSpec::Named(ConsoleColor::Yellow, false),
        AnsiColor::Blue => ConsoleColorSpec::Named(ConsoleColor::Blue, false),
        AnsiColor::Magenta => ConsoleColorSpec::Named(ConsoleColor::Magenta, false),
        AnsiColor::Cyan => ConsoleColorSpec::Named(ConsoleColor::Cyan, false),
        AnsiColor::White => ConsoleColorSpec::Named(ConsoleColor::White, false),
        AnsiColor::BrightBlack => ConsoleColorSpec::Named(ConsoleColor::Black, true),
        AnsiColor::BrightRed => ConsoleColorSpec::Named(ConsoleColor::Red, true),
        AnsiColor::BrightGreen => ConsoleColorSpec::Named(ConsoleColor::Green, true),
        AnsiColor::BrightYellow => ConsoleColorSpec::Named(ConsoleColor::Yellow, true),
        AnsiColor::BrightBlue => ConsoleColorSpec::Named(ConsoleColor::Blue, true),
        AnsiColor::BrightMagenta => ConsoleColorSpec::Named(ConsoleColor::Magenta, true),
        AnsiColor::BrightCyan => ConsoleColorSpec::Named(ConsoleColor::Cyan, true),
        AnsiColor::BrightWhite => ConsoleColorSpec::Named(ConsoleColor::White, true),
    }
}

/// A clap style as a console style: its foreground color and its bold, dim, italic and
/// underline effects.
pub fn console_style(style: StyleSpec) -> (s: ConsoleStyleSpec)
    ensures
        s.fg == match style.fg {
            Some(c) => Some(match c {
                ColorSpec::Ansi(ansi) => console_named_spec(ansi),
                ColorSpec::Ansi256(index) => ConsoleColorSpec::Color256(index),
                ColorSpec::Rgb(r, g, b) => ConsoleColorSpec::TrueColor(r, g, b),
            }),
            None => None,
        },
        s.bold == style.bold,
        s.dim == style.dimmed,
        s.italic == style.italic,
        s.underlined == style.underline,
{
    let fg = match style.fg {
        Some(ColorSpec::Ansi(ansi)) => Some(console_named(ansi)),
        Some(ColorSpec::Ansi256(index)) => Some(ConsoleColorSpec::Color256(index)),
        Some(ColorSpec::Rgb(r, g, b)) => Some(ConsoleColorSpec::TrueColor(r, g, b)),
        None => None,
    };
    ConsoleStyleSpec { fg, bold: style.bold, dim: style.dimmed, italic: style.italic, underlined: style.underline }
}

} // verus!
