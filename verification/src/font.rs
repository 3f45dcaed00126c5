//! The built-in hexadecimal font: sixteen glyphs of five bytes each, one
//! byte per row, the four pixels of a row in the high nibble.
use vstd::prelude::*;

verus! {

/// The glyphs for the digits `0` to `F`, in order.
pub const FONT: [u8; 80] = [
    0xF0, 0x90, 0x90, 0x90, 0xF0,
    0x20, 0x60, 0x20, 0x20, 0x70,
    0xF0, 0x10, 0xF0, 0x80, 0xF0,
    0xF0, 0x10, 0xF0, 0x10, 0xF0,
    0x90, 0x90, 0xF0, 0x10, 0x10,
    0xF0, 0x80, 0xF0, 0x10, 0xF0,
    0xF0, 0x80, 0xF0, 0x90, 0xF0,
    0xF0, 0x10, 0x20, 0x40, 0x40,
    0xF0, 0x90, 0xF0, 0x90, 0xF0,
    0xF0, 0x90, 0xF0, 0x10, 0xF0,
    0xF0, 0x90, 0xF0, 0x90, 0x90,
    0xE0, 0x90, 0xE0, 0x90, 0xE0,
    0xF0, 0x80, 0x80, 0x80, 0xF0,
    0xE0, 0x90, 0x90, 0x90, 0xE0,
    0xF0, 0x80, 0xF0, 0x80, 0xF0,
    0xF0, 0x80, 0xF0, 0x80, 0x80,
];

/// The font as a sequence of bytes.
pub open spec fn font_table() -> Seq<u8> {
    FONT@
}

/// Where the glyph of a digit starts in memory.
pub open spec fn glyph_address(digit: int) -> int {
    5 * digit
}

/// The five rows of a digit's glyph.
pub open spec fn glyph(digit: int) -> Seq<u8> {
    font_table().subrange(glyph_address(digit), glyph_address(digit) + 5)
}

} // verus!
