//! What each instruction does to a memory image.
//!
//! Every function here takes the image before the instruction and returns
//! the image after it. The functions for the single instructions do not move
//! the program counter past the instruction itself: `execute` does that, for
//! the instructions that do not set the program counter themselves.

use vstd::prelude::*;
use crate::display::drw;
use crate::layout::{
    DISPLAY_BUFFER_ADDR, DISPLAY_BUFFER_SIZE, FLAG_REGISTER, FONT_ADDR, V_REGISTERS_ADDR,
};
use crate::state::{
    byte_at, delay_timer, index_register, key_pressed, pop, program_counter, push, reg,
    set_delay_timer, set_index_register, set_key_flag, set_program_counter, set_reg,
    set_sound_timer, set_waiting_for_key, set_waiting_key_destination, stack_top,
    waiting_for_key, waiting_key_destination, with_byte,
};

verus! {

/// `value` reduced to eight bits.
pub open spec fn wrap8(value: int) -> u8 {
    (value % 0x100) as u8
}

/// `value` reduced to sixteen bits.
pub open spec fn wrap16(value: int) -> u16 {
    (value % 0x10000) as u16
}

/// The program counter moved forward by `by` bytes.
pub open spec fn advance(mem: Seq<u8>, by: int) -> Seq<u8> {
    set_program_counter(mem, wrap16(program_counter(mem) + by))
}

/// The next instruction is skipped where `condition` holds.
pub open spec fn skip_if(mem: Seq<u8>, condition: bool) -> Seq<u8> {
    if condition {
        advance(mem, 2)
    } else {
        mem
    }
}

/// `VF` gets `flag` as 1 or 0 and `V[x]` gets `value`. Where `x` names `VF`
/// itself the flag stays: `value` is not stored.
pub open spec fn set_flag_and_reg(mem: Seq<u8>, flag: bool, x: u8, value: u8) -> Seq<u8> {
    set_reg(set_reg(mem, x, value), FLAG_REGISTER, if flag { 1u8 } else { 0u8 })
}

/// `CLS`: every byte of the display becomes zero.
pub open spec fn cls(mem: Seq<u8>) -> Seq<u8> {
    Seq::new(
        mem.len(),
        |a: int|
            if DISPLAY_BUFFER_ADDR <= a < DISPLAY_BUFFER_ADDR + DISPLAY_BUFFER_SIZE {
                0u8
            } else {
                mem[a]
            },
    )
}

/// `RET`: pops the address of the call and goes on behind it.
pub open spec fn ret(mem: Seq<u8>) -> Seq<u8> {
    set_program_counter(pop(mem), wrap16(stack_top(mem) + 2))
}

/// `JP addr`.
pub open spec fn jmp_direct(mem: Seq<u8>, addr: u16) -> Seq<u8> {
    set_program_counter(mem, addr)
}

/// `CALL addr`: pushes the address of the call itself, then jumps.
pub open spec fn call(mem: Seq<u8>, addr: u16) -> Seq<u8> {
    set_program_counter(push(mem, program_counter(mem)), addr)
}

/// `SE Vx, byte`.
pub open spec fn se_immedate(mem: Seq<u8>, x: u8, byte: u8) -> Seq<u8> {
    skip_if(mem, reg(mem, x) == byte)
}

/// `SNE Vx, byte`.
pub open spec fn sne_immedate(mem: Seq<u8>, x: u8, byte: u8) -> Seq<u8> {
    skip_if(mem, reg(mem, x) != byte)
}

/// `SE Vx, Vy`.
pub open spec fn se_registers(mem: Seq<u8>, x: u8, y: u8) -> Seq<u8> {
    skip_if(mem, reg(mem, x) == reg(mem, y))
}

/// `SNE Vx, Vy`.
pub open spec fn sne_registers(mem: Seq<u8>, x: u8, y: u8) -> Seq<u8> {
    skip_if(mem, reg(mem, x) != reg(mem, y))
}

/// `LD Vx, byte`.
pub open spec fn ld_immedate(mem: Seq<u8>, x: u8, byte: u8) -> Seq<u8> {
    set_reg(mem, x, byte)
}

/// `ADD Vx, byte`: the sum modulo 256; no flag.
pub open spec fn add_immedate(mem: Seq<u8>, x: u8, byte: u8) -> Seq<u8> {
    set_reg(mem, x, wrap8(reg(mem, x) + byte))
}

/// `LD Vx, Vy`.
pub open spec fn ld_registers(mem: Seq<u8>, x: u8, y: u8) -> Seq<u8> {
    set_reg(mem, x, reg(mem, y))
}

/// `OR Vx, Vy`.
pub open spec fn or_registers(mem: Seq<u8>, x: u8, y: u8) -> Seq<u8> {
    set_reg(mem, x, reg(mem, x) | reg(mem, y))
}

/// `AND Vx, Vy`.
pub open spec fn and_registers(mem: Seq<u8>, x: u8, y: u8) -> Seq<u8> {
    set_reg(mem, x, reg(mem, x) & reg(mem, y))
}

/// `XOR Vx, Vy`.
pub open spec fn xor_registers(mem: Seq<u8>, x: u8, y: u8) -> Seq<u8> {
    set_reg(mem, x, reg(mem, x) ^ reg(mem, y))
}

/// `ADD Vx, Vy`: `VF` gets the carry, `V[x]` the sum modulo 256; with `x`
/// naming `VF` the carry stays.
pub open spec fn add_registers(mem: Seq<u8>, x: u8, y: u8) -> Seq<u8> {
    let sum = reg(mem, x) + reg(mem, y);
    set_flag_and_reg(mem, sum > 0xFF, x, wrap8(sum))
}

/// `SUB Vx, Vy`: `VF` is 1 where nothing is borrowed, `V[x]` the difference
/// modulo 256; with `x` naming `VF` the flag stays.
pub open spec fn sub_registers(mem: Seq<u8>, x: u8, y: u8) -> Seq<u8> {
    set_flag_and_reg(mem, reg(mem, x) >= reg(mem, y), x, wrap8(reg(mem, x) - reg(mem, y)))
}

/// `SUBN Vx, Vy`: as `SUB`, with the operands exchanged.
pub open spec fn subn_registers(mem: Seq<u8>, x: u8, y: u8) -> Seq<u8> {
    set_flag_and_reg(mem, reg(mem, y) >= reg(mem, x), x, wrap8(reg(mem, y) - reg(mem, x)))
}

/// `SHR Vx`: `VF` gets the lowest bit, `V[x]` is halved; with `x` naming `VF`
/// the bit stays.
pub open spec fn shr(mem: Seq<u8>, x: u8) -> Seq<u8> {
    set_flag_and_reg(mem, reg(mem, x) % 2 == 1, x, reg(mem, x) / 2)
}

/// `SHL Vx`: `VF` gets the highest bit, `V[x]` is doubled modulo 256; with
/// `x` naming `VF` the bit stays.
pub open spec fn shl(mem: Seq<u8>, x: u8) -> Seq<u8> {
    set_flag_and_reg(mem, reg(mem, x) >= 0x80, x, wrap8(reg(mem, x) * 2))
}

/// `LD I, addr`.
pub open spec fn ld_index(mem: Seq<u8>, addr: u16) -> Seq<u8> {
    set_index_register(mem, addr)
}

/// `JP V0, addr`.
pub open spec fn jmp_indirect(mem: Seq<u8>, addr: u16) -> Seq<u8> {
    set_program_counter(mem, wrap16(addr + reg(mem, 0)))
}

/// `RND Vx, byte`, for the random byte `sample`.
pub open spec fn rnd(mem: Seq<u8>, x: u8, byte: u8, sample: u8) -> Seq<u8> {
    set_reg(mem, x, sample & byte)
}

/// `SKP Vx`.
pub open spec fn skp(mem: Seq<u8>, x: u8) -> Seq<u8> {
    skip_if(mem, key_pressed(mem, reg(mem, x)))
}

/// `SKNP Vx`.
pub open spec fn sknp(mem: Seq<u8>, x: u8) -> Seq<u8> {
    skip_if(mem, !key_pressed(mem, reg(mem, x)))
}

/// `LD Vx, DT`.
pub open spec fn ld_from_dt(mem: Seq<u8>, x: u8) -> Seq<u8> {
    set_reg(mem, x, delay_timer(mem))
}

/// `LD Vx, K`: the machine starts to wait for a key, which will go to
/// `V[x]`.
pub open spec fn ld_key_press(mem: Seq<u8>, x: u8) -> Seq<u8> {
    set_waiting_for_key(set_waiting_key_destination(mem, x), true)
}

/// `LD DT, Vx`.
pub open spec fn ld_into_dt(mem: Seq<u8>, x: u8) -> Seq<u8> {
    set_delay_timer(mem, reg(mem, x))
}

/// `LD ST, Vx`.
pub open spec fn ld_into_st(mem: Seq<u8>, x: u8) -> Seq<u8> {
    set_sound_timer(mem, reg(mem, x))
}

/// `ADD I, Vx`: the sum modulo 65536.
pub open spec fn add_index(mem: Seq<u8>, x: u8) -> Seq<u8> {
    set_index_register(mem, wrap16(index_register(mem) + reg(mem, x)))
}

/// `LD F, Vx`: `I` becomes the address of glyph `V[x]`.
pub open spec fn ld_font_addr(mem: Seq<u8>, x: u8) -> Seq<u8> {
    set_index_register(mem, (FONT_ADDR + reg(mem, x) * 5) as u16)
}

/// `LD B, Vx`: the hundreds, tens and ones of `V[x]` go to `I`, `I + 1` and
/// `I + 2`.
pub open spec fn ld_bcd(mem: Seq<u8>, x: u8) -> Seq<u8> {
    let value = reg(mem, x);
    let i = index_register(mem);
    with_byte(
        with_byte(with_byte(mem, i as int, value / 100), i + 1, value / 10 % 10),
        i + 2,
        value % 10,
    )
}

/// `LD [I], Vx`: the bytes at `I`, `I + 1`, ... become what `V0..=V[x]` held
/// before the instruction.
pub open spec fn ld_into_mem(mem: Seq<u8>, x: u8) -> Seq<u8> {
    Seq::new(
        mem.len(),
        |a: int|
            {
                let r = (a - index_register(mem)) % 4096;
                if r <= x % 16 {
                    mem[V_REGISTERS_ADDR + r]
                } else {
                    mem[a]
                }
            },
    )
}

/// `LD Vx, [I]`: `V0..=V[x]` become what the bytes at `I`, `I + 1`, ... held
/// before the instruction.
pub open spec fn ld_from_mem(mem: Seq<u8>, x: u8) -> Seq<u8> {
    Seq::new(
        mem.len(),
        |a: int|
            if V_REGISTERS_ADDR <= a <= V_REGISTERS_ADDR + x % 16 {
                byte_at(mem, index_register(mem) + (a - V_REGISTERS_ADDR))
            } else {
                mem[a]
            },
    )
}

/// A key goes down or up. Where the machine waits for a key and one goes
/// down, its number goes to the register that waits for it and the machine
/// runs again.
pub open spec fn set_key_pressed(mem: Seq<u8>, key: u8, pressed: bool) -> Seq<u8> {
    let flagged = set_key_flag(mem, key, pressed);
    if waiting_for_key(mem) && pressed {
        set_waiting_for_key(set_reg(flagged, waiting_key_destination(mem), key % 16), false)
    } else {
        flagged
    }
}

/// The instruction word that the program counter points at, big-endian.
pub open spec fn opcode(mem: Seq<u8>) -> u16 {
    let pc = program_counter(mem);
    (byte_at(mem, pc as int) * 256 + byte_at(mem, pc + 1)) as u16
}

/// The instruction `op` needs a random byte.
pub open spec fn is_random(op: u16) -> bool {
    op / 0x1000 == 0xC
}

/// The instruction word `op` sets the program counter itself: it is `RET`,
/// `JP`, `CALL` or `JP V0`.
pub open spec fn sets_program_counter(op: u16) -> bool {
    let c = op / 0x1000;
    c == 0x1 || c == 0x2 || c == 0xB || (c == 0x0 && op % 0x100 == 0xEE)
}

/// What the instruction word `op` does by itself, `sample` being the random
/// byte that `RND` takes. A word that is no instruction does nothing.
pub open spec fn effect(mem: Seq<u8>, op: u16, sample: u8) -> Seq<u8> {
    let c = op / 0x1000;
    let nnn = op % 0x1000;
    let nn = (op % 0x100) as u8;
    let n = (op % 0x10) as u8;
    let x = (op / 0x100 % 0x10) as u8;
    let y = (op / 0x10 % 0x10) as u8;
    if c == 0x0 && nn == 0xE0 {
        cls(mem)
    } else if c == 0x0 && nn == 0xEE {
        ret(mem)
    } else if c == 0x1 {
        jmp_direct(mem, nnn)
    } else if c == 0x2 {
        call(mem, nnn)
    } else if c == 0x3 {
        se_immedate(mem, x, nn)
    } else if c == 0x4 {
        sne_immedate(mem, x, nn)
    } else if c == 0x5 && n == 0x0 {
        se_registers(mem, x, y)
    } else if c == 0x6 {
        ld_immedate(mem, x, nn)
    } else if c == 0x7 {
        add_immedate(mem, x, nn)
    } else if c == 0x8 && n == 0x0 {
        ld_registers(mem, x, y)
    } else if c == 0x8 && n == 0x1 {
        or_registers(mem, x, y)
    } else if c == 0x8 && n == 0x2 {
        and_registers(mem, x, y)
    } else if c == 0x8 && n == 0x3 {
        xor_registers(mem, x, y)
    } else if c == 0x8 && n == 0x4 {
        add_registers(mem, x, y)
    } else if c == 0x8 && n == 0x5 {
        sub_registers(mem, x, y)
    } else if c == 0x8 && n == 0x6 {
        shr(mem, x)
    } else if c == 0x8 && n == 0x7 {
        subn_registers(mem, x, y)
    } else if c == 0x8 && n == 0xE {
        shl(mem, x)
    } else if c == 0x9 && n == 0x0 {
        sne_registers(mem, x, y)
    } else if c == 0xA {
        ld_index(mem, nnn)
    } else if c == 0xB {
        jmp_indirect(mem, nnn)
    } else if c == 0xC {
        rnd(mem, x, nn, sample)
    } else if c == 0xD {
        drw(mem, x, y, n)
    } else if c == 0xE && nn == 0x9E {
        skp(mem, x)
    } else if c == 0xE && nn == 0xA1 {
        sknp(mem, x)
    } else if c == 0xF && nn == 0x07 {
        ld_from_dt(mem, x)
    } else if c == 0xF && nn == 0x0A {
        ld_key_press(mem, x)
    } else if c == 0xF && nn == 0x15 {
        ld_into_dt(mem, x)
    } else if c == 0xF && nn == 0x18 {
        ld_into_st(mem, x)
    } else if c == 0xF && nn == 0x1E {
        add_index(mem, x)
    } else if c == 0xF && nn == 0x29 {
        ld_font_addr(mem, x)
    } else if c == 0xF && nn == 0x33 {
        ld_bcd(mem, x)
    } else if c == 0xF && nn == 0x55 {
        ld_into_mem(mem, x)
    } else if c == 0xF && nn == 0x65 {
        ld_from_mem(mem, x)
    } else {
        mem
    }
}

/// What executing the instruction word `op` does: its effect and, unless it
/// sets the program counter itself, a move of the program counter by two.
pub open spec fn execute(mem: Seq<u8>, op: u16, sample: u8) -> Seq<u8> {
    if sets_program_counter(op) {
        effect(mem, op, sample)
    } else {
        advance(effect(mem, op, sample), 2)
    }
}

/// One step of the machine: nothing while it waits for a key, else the
/// instruction at the program counter.
pub open spec fn step(mem: Seq<u8>, sample: u8) -> Seq<u8> {
    if waiting_for_key(mem) {
        mem
    } else {
        execute(mem, opcode(mem), sample)
    }
}

/// The step from `mem` depends on a random byte.
pub open spec fn step_is_random(mem: Seq<u8>) -> bool {
    !waiting_for_key(mem) && is_random(opcode(mem))
}

} // verus!
