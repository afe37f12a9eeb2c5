//! A CHIP-8 interpreter whose whole machine state lives in one flat memory.
//!
//! The machine is `Chip8`. A host makes one with `Chip8::new`, copies a
//! program into its memory, sets the program counter and then calls
//! `execute_instruction` once per cycle. It reports keys with
//! `set_key_pressed`, reads the picture with `get_display_buffer` and counts
//! the two timers down itself.
//!
//! The contracts are stated over memory images, sequences of 4096 bytes:
//!
//! - `layout` is the memory map;
//! - `state` says what the bytes of an image mean;
//! - `font` is the built-in font and the image of a new machine;
//! - `display` says what drawing a sprite does, pixel by pixel;
//! - `semantics` says what each instruction and what a step does;
//! - `laws` proves what follows from these.
//!
//! Whatever the memory holds, no instruction fails. Three rules make that
//! so:
//!
//! - Nothing reaches outside its region. An address is taken modulo 4096, a
//!   register or key number modulo 16, a stack slot modulo 16, the height of
//!   a sprite modulo 16, and arithmetic on registers wraps.
//! - Instructions that move a block read all of it before they write any of
//!   it: `LD [I], Vx`, `LD Vx, [I]` and `DRW` work on the registers, bytes and
//!   sprite as they stood when the instruction began.
//! - Instructions that produce a flag write `VF` first and the result second,
//!   and never let the result overwrite the flag: where the result would go
//!   to `VF` itself, `VF` keeps the flag and the result is not stored.
//!
//! The one exception is the random source. `RND`, and so `rnd` and a call of
//! `execute_instruction` on an `RND` instruction, takes a byte from the
//! generator of the calling thread, and `rand` panics where the system cannot
//! seed or reseed that generator.

pub mod layout;
pub mod bits;
pub mod state;
pub mod font;
pub mod display;
pub mod semantics;
pub mod random;
pub mod chip8;
pub mod laws;

pub use crate::chip8::Chip8;
