//! The built-in font: glyphs for the sixteen hexadecimal digits.
//!
//! A glyph is five rows of four pixels. In memory a row is one byte whose
//! high nibble holds the pixels, so that a glyph can be drawn as a sprite.

use vstd::prelude::*;
use crate::layout::{FONT_ADDR, FONT_SIZE};

verus! {

/// The five rows of the glyph for `digit`, packed as five nibbles, top row
/// first.
pub open spec fn glyph(digit: u8) -> u32 {
    match digit {
        0x0 => 0xF999F,
        0x1 => 0x26227,
        0x2 => 0xF1F8F,
        0x3 => 0xF1F1F,
        0x4 => 0x99F11,
        0x5 => 0xF8F1F,
        0x6 => 0xF8F9F,
        0x7 => 0xF1244,
        0x8 => 0xF9F9F,
        0x9 => 0xF9F1F,
        0xA => 0xF9F99,
        0xB => 0xE9E9E,
        0xC => 0xF888F,
        0xD => 0xE999E,
        0xE => 0xF8F8F,
        _ => 0xF8F88,
    }
}

/// Row `row` of the glyph for `digit`, as it stands in memory.
pub open spec fn glyph_row(digit: u8, row: u8) -> u8 {
    let packed = glyph(digit);
    let shifted = match row {
        0 => packed / 0x10000,
        1 => packed / 0x1000,
        2 => packed / 0x100,
        3 => packed / 0x10,
        _ => packed,
    };
    (shifted % 0x10 * 0x10) as u8
}

/// The memory of a machine that has just been made: the font, and zero
/// everywhere else.
pub open spec fn power_on() -> Seq<u8> {
    Seq::new(
        4096,
        |a: int|
            if FONT_ADDR <= a < FONT_ADDR + FONT_SIZE {
                glyph_row(((a - FONT_ADDR) / 5) as u8, ((a - FONT_ADDR) % 5) as u8)
            } else {
                0u8
            },
    )
}

/// The packed rows of the glyph for `digit`.
pub fn packed_glyph(digit: u8) -> (packed: u32)
    requires
        digit < 16,
    ensures
        packed == glyph(digit),
{
    match digit {
        0x0 => 0xF999F,
        0x1 => 0x26227,
        0x2 => 0xF1F8F,
        0x3 => 0xF1F1F,
        0x4 => 0x99F11,
        0x5 => 0xF8F1F,
        0x6 => 0xF8F9F,
        0x7 => 0xF1244,
        0x8 => 0xF9F9F,
        0x9 => 0xF9F1F,
        0xA => 0xF9F99,
        0xB => 0xE9E9E,
        0xC => 0xF888F,
        0xD => 0xE999E,
        0xE => 0xF8F8F,
        _ => 0xF8F88,
    }
}

/// The byte that holds row `row` of the glyph for `digit`.
pub fn glyph_byte(digit: u8, row: u8) -> (byte: u8)
    requires
        digit < 16,
        row < 5,
    ensures
        byte == glyph_row(digit, row),
{
    let packed = packed_glyph(digit);
    let shifted = match row {
        0 => packed / 0x10000,
        1 => packed / 0x1000,
        2 => packed / 0x100,
        3 => packed / 0x10,
        _ => packed,
    };
    (shifted % 0x10 * 0x10) as u8
}

} // verus!
