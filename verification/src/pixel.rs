//! The value type the rest of the engine operates on: one screen cell.

use vstd::prelude::*;

verus! {

/// One of the sixteen colors a console cell can show: eight standard and
/// eight bright ones.
#[derive(Clone, Copy, Debug, PartialEq, Eq, Structural)]
pub enum Color {
    Black,
    Red,
    Green,
    Yellow,
    Blue,
    Magenta,
    Cyan,
    White,
    Gray,
    BrightRed,
    BrightGreen,
    BrightYellow,
    BrightBlue,
    BrightMagenta,
    BrightCyan,
    BrightWhite,
}

/// Ordinal of a color in the device's palette, between 0 and 15.
pub open spec fn color_index(c: Color) -> u16 {
    match c {
        Color::Black => 0,
        Color::Red => 1,
        Color::Green => 2,
        Color::Yellow => 3,
        Color::Blue => 4,
        Color::Magenta => 5,
        Color::Cyan => 6,
        Color::White => 7,
        Color::Gray => 8,
        Color::BrightRed => 9,
        Color::BrightGreen => 10,
        Color::BrightYellow => 11,
        Color::BrightBlue => 12,
        Color::BrightMagenta => 13,
        Color::BrightCyan => 14,
        Color::BrightWhite => 15,
    }
}

/// The combined attribute value the device expects for a foreground and
/// background pair: the background index times sixteen plus the foreground
/// index.  This encoding lives only at the color-to-device boundary; the core
/// data model keeps the two colors apart.
pub open spec fn color_attribute(fg: Color, bg: Color) -> u16 {
    (color_index(bg) * 16 + color_index(fg)) as u16
}

impl Color {
    /// Ordinal of this color in the device's palette.
    pub fn index(&self) -> (r: u16)
        ensures
            r == color_index(*self),
            r <= 15,
    {
        match self {
            Color::Black => 0,
            Color::Red => 1,
            Color::Green => 2,
            Color::Yellow => 3,
            Color::Blue => 4,
            Color::Magenta => 5,
            Color::Cyan => 6,
            Color::White => 7,
            Color::Gray => 8,
            Color::BrightRed => 9,
            Color::BrightGreen => 10,
            Color::BrightYellow => 11,
            Color::BrightBlue => 12,
            Color::BrightMagenta => 13,
            Color::BrightCyan => 14,
            Color::BrightWhite => 15,
        }
    }
}

/// The combined device attribute for a foreground and background pair.
pub fn attribute(fg: Color, bg: Color) -> (r: u16)
    ensures
        r == color_attribute(fg, bg),
        r <= 255,
{
    bg.index() * 16 + fg.index()
}

/// A single character on the console screen, together with its colors.
/// Compared by structural equality; two cells are equal iff character,
/// foreground and background all match exactly.
#[derive(Clone, Copy, Debug, PartialEq, Eq, Structural)]
pub struct Pixel {
    pub character: char,
    pub fg: Color,
    pub bg: Color,
}

/// The blank cell every frame starts from: a space, white on black.
pub open spec fn filler_pixel() -> Pixel {
    Pixel { character: ' ', fg: Color::White, bg: Color::Black }
}

/// A cell value no drawn frame contains (the NUL character), used to
/// invalidate the committed grid so that the next frame redraws every cell.
pub open spec fn invalid_pixel() -> Pixel {
    Pixel { character: '\0', fg: Color::White, bg: Color::Black }
}

impl Pixel {
    pub fn new(character: char, fg: Color, bg: Color) -> (p: Pixel)
        ensures
            p == (Pixel { character, fg, bg }),
    {
        Pixel { character, fg, bg }
    }

    /// The blank cell every frame starts from.
    pub fn filler() -> (p: Pixel)
        ensures
            p == filler_pixel(),
    {
        Pixel::new(' ', Color::White, Color::Black)
    }

    /// A cell value guaranteed distinct from anything a frame can show after
    /// it was cleared; filling the committed grid with it forces a full
    /// redraw on the next commit.
    pub fn invalid() -> (p: Pixel)
        ensures
            p == invalid_pixel(),
    {
        Pixel::new('\0', Color::White, Color::Black)
    }
}

impl From<char> for Pixel {
    /// A plain white-on-black cell showing the given character.
    fn from(character: char) -> (p: Pixel) {
        Pixel::new(character, Color::White, Color::Black)
    }
}

impl vstd::std_specs::convert::FromSpecImpl<char> for Pixel {
    open spec fn obeys_from_spec() -> bool {
        true
    }

    open spec fn from_spec(character: char) -> Pixel {
        Pixel { character, fg: Color::White, bg: Color::Black }
    }
}

} // verus!
