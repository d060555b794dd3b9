use vstd::prelude::*;

verus! {

/// The sixteen colours of the text-mode palette, in the order of their
/// 4-bit index (black is 0, white is 15).
#[derive(Debug, Clone, Copy, PartialEq, Eq, Structural)]
pub enum Color {
    Black,
    Blue,
    Green,
    Cyan,
    Red,
    Magenta,
    Brown,
    LightGray,
    DarkGray,
    LightBlue,
    LightGreen,
    LightCyan,
    LightRed,
    Pink,
    Yellow,
    White,
}

impl Color {
    /// The palette index of the colour.
    pub open spec fn spec_index(self) -> u8 {
        match self {
            Color::Black => 0,
            Color::Blue => 1,
            Color::Green => 2,
            Color::Cyan => 3,
            Color::Red => 4,
            Color::Magenta => 5,
            Color::Brown => 6,
            Color::LightGray => 7,
            Color::DarkGray => 8,
            Color::LightBlue => 9,
            Color::LightGreen => 10,
            Color::LightCyan => 11,
            Color::LightRed => 12,
            Color::Pink => 13,
            Color::Yellow => 14,
            Color::White => 15,
        }
    }

    pub fn index(self) -> (r: u8)
        ensures
            r == self.spec_index(),
            r < 16,
    {
        match self {
            Color::Black => 0,
            Color::Blue => 1,
            Color::Green => 2,
            Color::Cyan => 3,
            Color::Red => 4,
            Color::Magenta => 5,
            Color::Brown => 6,
            Color::LightGray => 7,
            Color::DarkGray => 8,
            Color::LightBlue => 9,
            Color::LightGreen => 10,
            Color::LightCyan => 11,
            Color::LightRed => 12,
            Color::Pink => 13,
            Color::Yellow => 14,
            Color::White => 15,
        }
    }
}

/// A packed style byte: foreground index in bits 0-3, background index in
/// bits 4-7.
#[derive(Debug, Clone, Copy, PartialEq, Eq, Structural)]
pub struct ColorCode(pub u8);

impl ColorCode {
    pub open spec fn spec_new(foreground: Color, background: Color) -> ColorCode {
        ColorCode((background.spec_index() * 16 + foreground.spec_index()) as u8)
    }

    pub fn new(foreground: Color, background: Color) -> (r: ColorCode)
        ensures
            r == ColorCode::spec_new(foreground, background),
            r.0 & 0xf == foreground.spec_index(),
            r.0 >> 4u8 == background.spec_index(),
    {
        let fg = foreground.index();
        let bg = background.index();
        let packed = bg << 4u8 | fg;
        assert(packed == bg * 16 + fg && packed & 0xf == fg && packed >> 4u8 == bg) by (bit_vector)
            requires
                fg < 16,
                bg < 16,
                packed == bg << 4u8 | fg,
        ;
        ColorCode(packed)
    }

    /// The style of ordinary output: white on black.
    pub open spec fn spec_default() -> ColorCode {
        ColorCode::spec_new(Color::White, Color::Black)
    }
}

} // verus!
