//! The memory map.
//!
//! The machine has 4096 bytes of memory. The first 512 belong to the
//! interpreter and hold, at fixed addresses, everything that makes up its
//! state; programs and their data live from `PROGRAM_ADDR` upwards.
//!
//! | range           | contents                                   |
//! |-----------------|--------------------------------------------|
//! | `0x000..=0x04F` | font: sixteen glyphs of five bytes         |
//! | `0x050..=0x05F` | registers `V0..=VF`                        |
//! | `0x060..=0x07F` | call stack: sixteen big-endian words       |
//! | `0x080..=0x17F` | display: 64x32 pixels, one bit each        |
//! | `0x180`         | stack pointer                              |
//! | `0x181`         | sound timer                                |
//! | `0x182`         | delay timer                                |
//! | `0x183..=0x184` | program counter, big-endian                |
//! | `0x185..=0x186` | index register `I`, big-endian             |
//! | `0x187`         | key wait: top bit set while waiting, low   |
//! |                 | nibble names the register that gets the key|
//! | `0x188..=0x197` | sixteen key flags, non-zero while pressed  |
//!
//! Nothing here can fall outside the memory: an address is always taken
//! modulo `MEMORY_SIZE`, a register or key number modulo 16, a stack slot
//! modulo 16. Eight-bit and sixteen-bit arithmetic wraps.

use vstd::prelude::*;

verus! {

pub const MEMORY_SIZE: usize = 0x1000;

pub const FONT_ADDR: u16 = 0x0000;

pub const V_REGISTERS_ADDR: u16 = 0x0050;

pub const STACK_ADDR: u16 = 0x0060;

pub const DISPLAY_BUFFER_ADDR: u16 = 0x0080;

pub const STACK_POINTER_ADDR: u16 = 0x0180;

pub const SOUND_TIMER_ADDR: u16 = 0x0181;

pub const DELAY_TIMER_ADDR: u16 = 0x0182;

pub const PROGRAM_COUNTER_ADDR: u16 = 0x0183;

pub const INDEX_REGISTER_ADDR: u16 = 0x0185;

pub const WAIT_KEY_PRESS_FLAG_ADDR: u16 = 0x0187;

pub const KEY_FLAGS_ADDR: u16 = 0x0188;

/// First address that a program may occupy.
pub const PROGRAM_ADDR: u16 = 0x0200;

pub const DISPLAY_WIDTH: usize = 64;

pub const DISPLAY_HEIGHT: usize = 32;

pub const DISPLAY_BUFFER_SIZE: usize = 256;

pub const GLYPH_SIZE: usize = 5;

pub const FONT_SIZE: usize = 80;

/// Index of `VF`, the register that receives carry, borrow, shifted-out bit
/// and collision.
pub const FLAG_REGISTER: u8 = 0xF;

} // verus!
