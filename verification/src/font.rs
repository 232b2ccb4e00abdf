//! The built-in hexadecimal font.

use vstd::prelude::*;

verus! {

/// Address of the first font byte in memory.
pub const FONT_BASE: u16 = 0x50;

/// Bytes per glyph: five rows of which the high nibble holds the pixels.
pub const GLYPH_BYTES: u16 = 5;

/// Bytes in the whole font: sixteen glyphs.
pub const FONT_BYTES: usize = 80;

/// The sixteen glyphs `0`..`F`, five bytes each, in order.
pub const FONT: [u8; 80] = [
    0xF0, 0x90, 0x90, 0x90, 0xF0,
    0x20, 0x60, 0x20, 0x20, 0x70,
    0xF0, 0x10, 0xF0, 0x80, 0xF0,
    0xF0, 0x10, 0xF0, 0x10, 0xF0,
    0x90, 0x90, 0xF0, 0x10, 0x10,
    0xF0, 0x80, 0xF0, 0x10, 0xF0,
    0xF0, 0x80, 0xF0, 0x90, 0xF0,
    0xF0, 0x10, 0x20, 0x40, 0x40,
    0xF0, 0x90, 0xF0, 0x90, 0xF0,
    0xF0, 0x90, 0xF0, 0x10, 0xF0,
    0xF0, 0x90, 0xF0, 0x90, 0x90,
    0xE0, 0x90, 0xE0, 0x90, 0xE0,
    0xF0, 0x80, 0x80, 0x80, 0xF0,
    0xE0, 0x90, 0x90, 0x90, 0xE0,
    0xF0, 0x80, 0xF0, 0x80, 0xF0,
    0xF0, 0x80, 0xF0, 0x80, 0x80,
];

/// Address of the first byte of the glyph for `digit`.
///
/// Only `0x0`..=`0xF` have a glyph; for a larger `digit` the address lies
/// behind the font.
pub open spec fn glyph_address_spec(digit: u8) -> u16 {
    (FONT_BASE + digit * GLYPH_BYTES) as u16
}

/// Computes [`glyph_address_spec`].
pub fn glyph_address(digit: u8) -> (addr: u16)
    ensures
        addr == glyph_address_spec(digit),
        addr == 0x50 + 5 * digit,
{
    let wide: u16 = digit as u16;
    FONT_BASE + wide * GLYPH_BYTES
}

} // verus!
