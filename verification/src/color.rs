//! Colour quantization: a fixed step function from escape-time counts to a
//! small closed palette, and the RGB triple bound to each palette entry.

use vstd::prelude::*;

verus! {

/// The palette.  `Purple` carries an RGB triple like the others but is not
/// produced by the quantization rule.
#[derive(Clone, Copy, Debug, PartialEq, Eq, Structural)]
pub enum PixelColor {
    Black,
    Purple,
    Indigo,
    Blue,
    Violet,
    Red,
    White,
}

/// The quantization rule: a total step function over the counts.
pub open spec fn spec_classify(escape_time: nat) -> PixelColor {
    if escape_time == 0 {
        PixelColor::Black
    } else if escape_time <= 4 {
        PixelColor::Red
    } else if escape_time <= 6 {
        PixelColor::Indigo
    } else if escape_time <= 8 {
        PixelColor::Violet
    } else if escape_time <= 10 {
        PixelColor::Blue
    } else {
        PixelColor::White
    }
}

/// The RGB triple bound to each palette entry.
pub open spec fn spec_rgb(color: PixelColor) -> (u8, u8, u8) {
    match color {
        PixelColor::Black => (0u8, 0u8, 0u8),
        PixelColor::Red => (255u8, 0u8, 0u8),
        PixelColor::Blue => (0u8, 0u8, 255u8),
        PixelColor::Violet => (143u8, 0u8, 255u8),
        PixelColor::Indigo => (75u8, 0u8, 130u8),
        PixelColor::White => (255u8, 255u8, 255u8),
        PixelColor::Purple => (128u8, 0u8, 128u8),
    }
}

/// Quantize an escape-time count: 0 is black; 1..=4 red; 5..=6 indigo;
/// 7..=8 violet; 9..=10 blue; 11 and above (including the budget sentinel)
/// white.
pub fn map_escape_time_to_color(escape_time: usize) -> (color: PixelColor)
    ensures
        color == spec_classify(escape_time as nat),
{
    if escape_time == 0 {
        PixelColor::Black
    } else if escape_time <= 4 {
        PixelColor::Red
    } else if escape_time <= 6 {
        PixelColor::Indigo
    } else if escape_time <= 8 {
        PixelColor::Violet
    } else if escape_time <= 10 {
        PixelColor::Blue
    } else {
        PixelColor::White
    }
}

impl PixelColor {
    /// The RGB triple of this palette entry.
    pub fn rgb(&self) -> (r: (u8, u8, u8))
        ensures
            r == spec_rgb(*self),
    {
        match *self {
            PixelColor::Black => (0, 0, 0),
            PixelColor::Red => (255, 0, 0),
            PixelColor::Blue => (0, 0, 255),
            PixelColor::Violet => (143, 0, 255),
            PixelColor::Indigo => (75, 0, 130),
            PixelColor::White => (255, 255, 255),
            PixelColor::Purple => (128, 0, 128),
        }
    }
}

} // verus!
