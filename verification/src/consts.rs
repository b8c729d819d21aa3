//! Dimensions of the machine and the built-in hexadecimal font.

use vstd::prelude::*;

verus! {

/// Number of addressable bytes.
pub const RAM_SIZE: usize = 4096;

/// Address at which a program is loaded and at which execution starts.
pub const START_ADDR: u16 = 0x200;

/// Largest program that fits between `START_ADDR` and the end of memory.
pub const MAX_PROGRAM_SIZE: usize = 3584;

/// Highest address from which a two-byte instruction can be fetched.
pub const LAST_FETCH_ADDR: u16 = 0xFFE;

/// Number of general-purpose registers V0..VF.
pub const REGISTER_COUNT: usize = 16;

/// Index of the flag register VF.
pub const FLAG: usize = 0xF;

/// Number of return addresses the call stack can hold.
pub const STACK_SIZE: usize = 16;

/// Number of keys on the hexadecimal keypad.
pub const KEY_COUNT: usize = 16;

/// Width of the display in pixels.
pub const SCR_WIDTH: usize = 64;

/// Height of the display in pixels.
pub const SCR_HEIGHT: usize = 32;

/// Number of glyphs in the font.
pub const GLYPH_COUNT: usize = 16;

/// Number of bytes (sprite rows) per glyph.
pub const GLYPH_SIZE: usize = 5;

/// Number of steps from one timer decrement to the next.
pub const TIMER_PERIOD: u8 = 12;

/// Sprites for the hexadecimal digits 0..F, five rows each.
pub const FONTS: [[u8; GLYPH_SIZE]; GLYPH_COUNT] = [
    [0xF0, 0x90, 0x90, 0x90, 0xF0],
    [0x20, 0x60, 0x20, 0x20, 0x70],
    [0xF0, 0x10, 0xF0, 0x80, 0xF0],
    [0xF0, 0x10, 0xF0, 0x10, 0xF0],
    [0x90, 0x90, 0xF0, 0x10, 0x10],
    [0xF0, 0x80, 0xF0, 0x10, 0xF0],
    [0xF0, 0x80, 0xF0, 0x90, 0xF0],
    [0xF0, 0x10, 0x20, 0x40, 0x40],
    [0xF0, 0x90, 0xF0, 0x90, 0xF0],
    [0xF0, 0x90, 0xF0, 0x10, 0xF0],
    [0xF0, 0x90, 0xF0, 0x90, 0x90],
    [0xE0, 0x90, 0xE0, 0x90, 0xE0],
    [0xF0, 0x80, 0x80, 0x80, 0xF0],
    [0xE0, 0x90, 0x90, 0x90, 0xE0],
    [0xF0, 0x80, 0xF0, 0x80, 0xF0],
    [0xF0, 0x80, 0xF0, 0x80, 0x80],
];

/// The byte the font places at address `addr`, for `addr` below 80.
pub open spec fn font_byte(addr: int) -> u8 {
    FONTS[addr / 5][addr % 5]
}

} // verus!
