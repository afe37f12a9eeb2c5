//! What the bytes of a memory image mean.
//!
//! A memory image is a `Seq<u8>` of `MEMORY_SIZE` bytes. The functions here
//! read the machine's registers out of such an image and say what an image
//! looks like after one of them has been written.

use vstd::prelude::*;
use crate::layout::{
    DELAY_TIMER_ADDR, DISPLAY_BUFFER_ADDR, DISPLAY_BUFFER_SIZE, INDEX_REGISTER_ADDR,
    KEY_FLAGS_ADDR, MEMORY_SIZE, PROGRAM_COUNTER_ADDR, SOUND_TIMER_ADDR, STACK_ADDR,
    STACK_POINTER_ADDR, V_REGISTERS_ADDR, WAIT_KEY_PRESS_FLAG_ADDR,
};

verus! {

/// A memory image has exactly `MEMORY_SIZE` bytes.
pub open spec fn is_image(mem: Seq<u8>) -> bool {
    mem.len() == MEMORY_SIZE
}

/// The byte at `addr`, the address taken modulo the memory size.
pub open spec fn byte_at(mem: Seq<u8>, addr: int) -> u8 {
    mem[addr % 4096]
}

/// `mem` with the byte at `addr` (modulo the memory size) replaced.
pub open spec fn with_byte(mem: Seq<u8>, addr: int, value: u8) -> Seq<u8> {
    mem.update(addr % 4096, value)
}

/// The big-endian word whose high byte is at `addr`.
pub open spec fn word(mem: Seq<u8>, addr: int) -> u16 {
    (mem[addr] * 256 + mem[addr + 1]) as u16
}

/// `mem` with the big-endian word at `addr` replaced.
pub open spec fn set_word(mem: Seq<u8>, addr: int, value: u16) -> Seq<u8> {
    mem.update(addr, (value / 256) as u8).update(addr + 1, (value % 256) as u8)
}

/// Register `V[index mod 16]`.
pub open spec fn reg(mem: Seq<u8>, index: u8) -> u8 {
    mem[V_REGISTERS_ADDR + index % 16]
}

/// `mem` with register `V[index mod 16]` replaced.
pub open spec fn set_reg(mem: Seq<u8>, index: u8, value: u8) -> Seq<u8> {
    mem.update(V_REGISTERS_ADDR + index % 16, value)
}

/// The delay timer.
pub open spec fn delay_timer(mem: Seq<u8>) -> u8 {
    mem[DELAY_TIMER_ADDR as int]
}

/// `mem` with the delay timer replaced.
pub open spec fn set_delay_timer(mem: Seq<u8>, value: u8) -> Seq<u8> {
    mem.update(DELAY_TIMER_ADDR as int, value)
}

/// The sound timer.
pub open spec fn sound_timer(mem: Seq<u8>) -> u8 {
    mem[SOUND_TIMER_ADDR as int]
}

/// `mem` with the sound timer replaced.
pub open spec fn set_sound_timer(mem: Seq<u8>, value: u8) -> Seq<u8> {
    mem.update(SOUND_TIMER_ADDR as int, value)
}

/// The stack pointer.
pub open spec fn stack_pointer(mem: Seq<u8>) -> u8 {
    mem[STACK_POINTER_ADDR as int]
}

/// `mem` with the stack pointer replaced.
pub open spec fn set_stack_pointer(mem: Seq<u8>, value: u8) -> Seq<u8> {
    mem.update(STACK_POINTER_ADDR as int, value)
}

/// The program counter.
pub open spec fn program_counter(mem: Seq<u8>) -> u16 {
    word(mem, PROGRAM_COUNTER_ADDR as int)
}

/// `mem` with the program counter replaced.
pub open spec fn set_program_counter(mem: Seq<u8>, value: u16) -> Seq<u8> {
    set_word(mem, PROGRAM_COUNTER_ADDR as int, value)
}

/// The index register `I`.
pub open spec fn index_register(mem: Seq<u8>) -> u16 {
    word(mem, INDEX_REGISTER_ADDR as int)
}

/// `mem` with the index register `I` replaced.
pub open spec fn set_index_register(mem: Seq<u8>, value: u16) -> Seq<u8> {
    set_word(mem, INDEX_REGISTER_ADDR as int, value)
}

/// The machine is blocked until a key is pressed: the top bit of the key-wait
/// byte is set.
pub open spec fn waiting_for_key(mem: Seq<u8>) -> bool {
    mem[WAIT_KEY_PRESS_FLAG_ADDR as int] >= 128
}

/// `mem` with the top bit of the key-wait byte set or cleared; its other bits
/// stay.
pub open spec fn set_waiting_for_key(mem: Seq<u8>, waiting: bool) -> Seq<u8> {
    let low = mem[WAIT_KEY_PRESS_FLAG_ADDR as int] % 128;
    mem.update(WAIT_KEY_PRESS_FLAG_ADDR as int, (if waiting { low + 128 } else { low as int }) as u8)
}

/// The register that the awaited key goes to: the low nibble of the key-wait
/// byte.
pub open spec fn waiting_key_destination(mem: Seq<u8>) -> u8 {
    mem[WAIT_KEY_PRESS_FLAG_ADDR as int] % 16
}

/// `mem` with the low nibble of the key-wait byte replaced by `index mod 16`;
/// its high nibble stays.
pub open spec fn set_waiting_key_destination(mem: Seq<u8>, index: u8) -> Seq<u8> {
    let flag = mem[WAIT_KEY_PRESS_FLAG_ADDR as int];
    mem.update(WAIT_KEY_PRESS_FLAG_ADDR as int, (flag - flag % 16 + index % 16) as u8)
}

/// Key `key mod 16` is held down.
pub open spec fn key_pressed(mem: Seq<u8>, key: u8) -> bool {
    mem[KEY_FLAGS_ADDR + key % 16] != 0
}

/// `mem` with the flag of key `key mod 16` set to 1 or to 0.
pub open spec fn set_key_flag(mem: Seq<u8>, key: u8, pressed: bool) -> Seq<u8> {
    mem.update(KEY_FLAGS_ADDR + key % 16, if pressed { 1u8 } else { 0u8 })
}

/// Address of stack slot `slot mod 16`.
pub open spec fn stack_slot_addr(slot: u8) -> int {
    STACK_ADDR + 2 * (slot % 16)
}

/// The return address held in stack slot `slot mod 16`.
pub open spec fn stack_entry(mem: Seq<u8>, slot: u8) -> u16 {
    word(mem, stack_slot_addr(slot))
}

/// The return address that a pop yields: the entry that the stack pointer
/// names.
pub open spec fn stack_top(mem: Seq<u8>) -> u16 {
    stack_entry(mem, stack_pointer(mem))
}

/// `mem` after a push: the stack pointer goes up by one (modulo 256), then
/// `value` goes into the slot that it names.
pub open spec fn push(mem: Seq<u8>, value: u16) -> Seq<u8> {
    let sp = ((stack_pointer(mem) + 1) % 256) as u8;
    set_word(set_stack_pointer(mem, sp), stack_slot_addr(sp), value)
}

/// `mem` after a pop: the stack pointer goes down by one (modulo 256).
pub open spec fn pop(mem: Seq<u8>) -> Seq<u8> {
    set_stack_pointer(mem, ((stack_pointer(mem) + 255) % 256) as u8)
}

/// The 256 bytes of the display, row by row.
pub open spec fn display_bytes(mem: Seq<u8>) -> Seq<u8> {
    mem.subrange(DISPLAY_BUFFER_ADDR as int, DISPLAY_BUFFER_ADDR + DISPLAY_BUFFER_SIZE)
}

} // verus!
