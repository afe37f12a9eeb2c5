//! The machine and its instruction set.

use vstd::prelude::*;
use crate::bits::lemma_masked;
use crate::display;
use crate::display::{
    collides, collides_upto, drawn_upto, lemma_collides_row, lemma_draw_row, lemma_drw_by_rows,
    lemma_drw_pixels, on_display, pixel, sprite_pixel,
};
use crate::font::{glyph_byte, power_on};
use crate::layout::{
    DELAY_TIMER_ADDR, DISPLAY_BUFFER_ADDR, DISPLAY_BUFFER_SIZE, FLAG_REGISTER, FONT_ADDR,
    FONT_SIZE, GLYPH_SIZE, INDEX_REGISTER_ADDR, KEY_FLAGS_ADDR, MEMORY_SIZE, PROGRAM_COUNTER_ADDR, SOUND_TIMER_ADDR,
    STACK_ADDR, STACK_POINTER_ADDR, V_REGISTERS_ADDR, WAIT_KEY_PRESS_FLAG_ADDR,
};
use crate::random::random_byte;
use crate::semantics;
use crate::state::{
    byte_at, delay_timer, display_bytes, index_register, key_pressed, pop, program_counter, push,
    reg,
    set_delay_timer, set_index_register, set_program_counter, set_reg, set_sound_timer,
    set_stack_pointer, set_waiting_for_key, set_waiting_key_destination, sound_timer,
    stack_pointer, stack_top, waiting_for_key, waiting_key_destination, with_byte,
};

verus! {

/// The machine. Its registers, stack, timers, keys and display are bytes of
/// its memory, laid out as `layout` says; the view is that memory. Every
/// content of the memory is a state of the machine.
pub struct Chip8 {
    pub memory: [u8; 4096],
}

impl View for Chip8 {
    type V = Seq<u8>;

    open spec fn view(&self) -> Seq<u8> {
        self.memory@
    }
}

impl Chip8 {
    /// A machine with the font in place and every other byte zero.
    pub fn new() -> (chip8: Self)
        ensures
            chip8@ == power_on(),
    {
        let mut chip8 = Chip8 { memory: [0; 4096] };
        for offset in 0..FONT_SIZE
            invariant
                forall|a: int|
                    0 <= a < 4096 ==> chip8@[a] == if a < FONT_ADDR + offset {
                        power_on()[a]
                    } else {
                        0u8
                    },
        {
            let digit = (offset / GLYPH_SIZE) as u8;
            let row = (offset % GLYPH_SIZE) as u8;
            chip8.write_memory(FONT_ADDR as usize + offset, glyph_byte(digit, row));
        }
        chip8
    }

    /// The 256 bytes of the display: 32 rows of 64 pixels, row by row, the
    /// leftmost pixel of a byte being its highest bit.
    pub fn get_display_buffer(&self) -> (buffer: [u8; DISPLAY_BUFFER_SIZE])
        ensures
            buffer@ == display_bytes(self@),
    {
        let mut buffer = [0u8; 256];
        for offset in 0..DISPLAY_BUFFER_SIZE
            invariant
                forall|k: int| 0 <= k < offset ==> buffer@[k] == self@[DISPLAY_BUFFER_ADDR + k],
        {
            buffer[offset] = self.memory[DISPLAY_BUFFER_ADDR as usize + offset];
        }
        buffer
    }

    /// One step of the machine.
    ///
    /// While the machine waits for a key, nothing happens. Otherwise the
    /// instruction at the program counter is carried out. Jumps, calls and
    /// returns set the program counter themselves. After every other
    /// instruction, and after a word that is no instruction, it moves on by
    /// two; a skip whose condition holds has moved it by two before, so by
    /// four in all.
    pub fn execute_instruction(&mut self)
        ensures
            exists|sample: u8| final(self)@ == #[trigger] semantics::step(old(self)@, sample),
            !semantics::step_is_random(old(self)@) ==> final(self)@ == semantics::step(
                old(self)@,
                0,
            ),
            waiting_for_key(old(self)@) ==> final(self)@ == old(self)@,
    {
        let ghost before = self@;
        if self.is_waiting_for_key() {
            assert(self@ == semantics::step(before, 0));
            return ;
        }
        let opcode = self.fetch_opcode();

        let c = opcode / 0x1000;
        let nnn: u16 = opcode % 0x1000;
        let nn: u8 = (opcode % 0x100) as u8;
        let n: u8 = (opcode % 0x10) as u8;
        let x: u8 = (opcode / 0x100 % 0x10) as u8;
        let y: u8 = (opcode / 0x10 % 0x10) as u8;

        let mut sets_pc = false;
        let ghost mut sample: u8 = 0;
        if c == 0x0 && nn == 0xE0 {
            self.cls();
        } else if c == 0x0 && nn == 0xEE {
            self.ret();
            sets_pc = true;
        } else if c == 0x1 {
            self.jmp_direct(nnn);
            sets_pc = true;
        } else if c == 0x2 {
            self.call(nnn);
            sets_pc = true;
        } else if c == 0x3 {
            self.se_immedate(x, nn);
        } else if c == 0x4 {
            self.sne_immedate(x, nn);
        } else if c == 0x5 && n == 0x0 {
            self.se_registers(x, y);
        } else if c == 0x6 {
            self.ld_immedate(x, nn);
        } else if c == 0x7 {
            self.add_immedate(x, nn);
        } else if c == 0x8 && n == 0x0 {
            self.ld_registers(x, y);
        } else if c == 0x8 && n == 0x1 {
            self.or_registers(x, y);
        } else if c == 0x8 && n == 0x2 {
            self.and_registers(x, y);
        } else if c == 0x8 && n == 0x3 {
            self.xor_registers(x, y);
        } else if c == 0x8 && n == 0x4 {
            self.add_registers(x, y);
        } else if c == 0x8 && n == 0x5 {
            self.sub_registers(x, y);
        } else if c == 0x8 && n == 0x6 {
            self.shr(x);
        } else if c == 0x8 && n == 0x7 {
            self.subn_registers(x, y);
        } else if c == 0x8 && n == 0xE {
            self.shl(x);
        } else if c == 0x9 && n == 0x0 {
            self.sne_registers(x, y);
        } else if c == 0xA {
            self.ld_index(nnn);
        } else if c == 0xB {
            self.jmp_indirect(nnn);
            sets_pc = true;
        } else if c == 0xC {
            self.rnd(x, nn);
            proof {
                sample = choose|sample: u8| self@ == semantics::rnd(before, x, nn, sample);
            }
        } else if c == 0xD {
            self.drw(x, y, n);
        } else if c == 0xE && nn == 0x9E {
            self.skp(x);
        } else if c == 0xE && nn == 0xA1 {
            self.sknp(x);
        } else if c == 0xF && nn == 0x07 {
            self.ld_from_dt(x);
        } else if c == 0xF && nn == 0x0A {
            self.ld_key_press(x);
        } else if c == 0xF && nn == 0x15 {
            self.ld_into_dt(x);
        } else if c == 0xF && nn == 0x18 {
            self.ld_into_st(x);
        } else if c == 0xF && nn == 0x1E {
            self.add_index(x);
        } else if c == 0xF && nn == 0x29 {
            self.ld_font_addr(x);
        } else if c == 0xF && nn == 0x33 {
            self.ld_bcd(x);
        } else if c == 0xF && nn == 0x55 {
            self.ld_into_mem(x);
        } else if c == 0xF && nn == 0x65 {
            self.ld_from_mem(x);
        }
        if !sets_pc {
            self.advance_pc(2);
        }
        assert(self@ == semantics::step(before, sample));
    }

    /// Whether key `key mod 16` is held down.
    pub fn get_key_pressed(&self, key: u8) -> (pressed: bool)
        ensures
            pressed == key_pressed(self@, key),
    {
        self.memory[KEY_FLAGS_ADDR as usize + (key % 16) as usize] > 0
    }

    /// A key goes down or up. A key that goes down while the machine waits
    /// for one ends the wait: its number goes to the register that `LD Vx, K`
    /// named.
    pub fn set_key_pressed(&mut self, key: u8, pressed: bool)
        ensures
            final(self)@ == semantics::set_key_pressed(old(self)@, key, pressed),
            key_pressed(final(self)@, key) == pressed,
            waiting_for_key(old(self)@) && pressed ==> !waiting_for_key(final(self)@) && reg(
                final(self)@,
                waiting_key_destination(old(self)@),
            ) == key % 16,
            !(waiting_for_key(old(self)@) && pressed) ==> waiting_for_key(final(self)@)
                == waiting_for_key(old(self)@),
    {
        self.memory[KEY_FLAGS_ADDR as usize + (key % 16) as usize] = if pressed { 1 } else { 0 };
        if self.is_waiting_for_key() && pressed {
            self.set_awaited_key(key);
            self.clear_waiting_for_key();
        }
    }

    /// Whether the machine is blocked until a key goes down.
    pub fn is_waiting_for_key(&self) -> (waiting: bool)
        ensures
            waiting == waiting_for_key(self@),
    {
        self.memory[WAIT_KEY_PRESS_FLAG_ADDR as usize] >= 0x80
    }

    /// Blocks the machine until a key goes down.
    pub fn set_waiting_for_key(&mut self)
        ensures
            final(self)@ == set_waiting_for_key(old(self)@, true),
    {
        let flag = self.memory[WAIT_KEY_PRESS_FLAG_ADDR as usize];
        self.memory[WAIT_KEY_PRESS_FLAG_ADDR as usize] = flag % 0x80 + 0x80;
    }

    /// Lets the machine run again.
    pub fn clear_waiting_for_key(&mut self)
        ensures
            final(self)@ == set_waiting_for_key(old(self)@, false),
    {
        let flag = self.memory[WAIT_KEY_PRESS_FLAG_ADDR as usize];
        self.memory[WAIT_KEY_PRESS_FLAG_ADDR as usize] = flag % 0x80;
    }

    /// The register that the awaited key goes to.
    pub fn get_waiting_key_destination(&self) -> (index: u8)
        ensures
            index == waiting_key_destination(self@),
            index < 16,
    {
        self.memory[WAIT_KEY_PRESS_FLAG_ADDR as usize] % 16
    }

    /// Names `V[x mod 16]` as the register that the awaited key goes to.
    pub fn set_waiting_key_destination(&mut self, x: u8)
        ensures
            final(self)@ == set_waiting_key_destination(old(self)@, x),
    {
        let flag = self.memory[WAIT_KEY_PRESS_FLAG_ADDR as usize];
        self.memory[WAIT_KEY_PRESS_FLAG_ADDR as usize] = flag - flag % 16 + x % 16;
    }

    /// The key that the machine waited for goes to the register that waits
    /// for it.
    pub fn set_awaited_key(&mut self, key: u8)
        ensures
            final(self)@ == set_reg(old(self)@, waiting_key_destination(old(self)@), key % 16),
    {
        let x = self.get_waiting_key_destination();
        self.set_v(x, key % 16);
    }

    /// Reads the byte at `addr`, taken modulo the memory size.
    pub fn read_memory(&self, addr: usize) -> (value: u8)
        ensures
            value == byte_at(self@, addr as int),
    {
        self.memory[addr % MEMORY_SIZE]
    }

    /// Writes the byte at `addr`, taken modulo the memory size. This is how a
    /// host loads a program.
    pub fn write_memory(&mut self, addr: usize, value: u8)
        ensures
            final(self)@ == with_byte(old(self)@, addr as int, value),
    {
        self.memory[addr % MEMORY_SIZE] = value;
    }

    /// Register `V[index mod 16]`.
    pub fn get_v(&self, index: u8) -> (value: u8)
        ensures
            value == reg(self@, index),
    {
        self.memory[V_REGISTERS_ADDR as usize + (index % 16) as usize]
    }

    /// Sets register `V[index mod 16]`.
    pub fn set_v(&mut self, index: u8, value: u8)
        ensures
            final(self)@ == set_reg(old(self)@, index, value),
    {
        self.memory[V_REGISTERS_ADDR as usize + (index % 16) as usize] = value;
    }

    /// The delay timer. The host counts it down; the machine only reads and
    /// writes it.
    pub fn get_dt(&self) -> (value: u8)
        ensures
            value == delay_timer(self@),
    {
        self.memory[DELAY_TIMER_ADDR as usize]
    }

    /// Sets the delay timer.
    pub fn set_dt(&mut self, value: u8)
        ensures
            final(self)@ == set_delay_timer(old(self)@, value),
    {
        self.memory[DELAY_TIMER_ADDR as usize] = value;
    }

    /// The sound timer. The host counts it down; the machine only reads and
    /// writes it.
    pub fn get_st(&self) -> (value: u8)
        ensures
            value == sound_timer(self@),
    {
        self.memory[SOUND_TIMER_ADDR as usize]
    }

    /// Sets the sound timer.
    pub fn set_st(&mut self, value: u8)
        ensures
            final(self)@ == set_sound_timer(old(self)@, value),
    {
        self.memory[SOUND_TIMER_ADDR as usize] = value;
    }

    /// The index register `I`.
    pub fn get_i(&self) -> (value: u16)
        ensures
            value == index_register(self@),
    {
        self.memory[INDEX_REGISTER_ADDR as usize] as u16 * 256
            + self.memory[INDEX_REGISTER_ADDR as usize + 1] as u16
    }

    /// Sets the index register `I`, high byte first.
    pub fn set_i(&mut self, value: u16)
        ensures
            final(self)@ == set_index_register(old(self)@, value),
    {
        self.memory[INDEX_REGISTER_ADDR as usize] = (value / 256) as u8;
        self.memory[INDEX_REGISTER_ADDR as usize + 1] = (value % 256) as u8;
    }

    /// The stack pointer: 0 while the stack is empty, else the slot of the
    /// return address on top.
    pub fn get_sp(&self) -> (value: u8)
        ensures
            value == stack_pointer(self@),
    {
        self.memory[STACK_POINTER_ADDR as usize]
    }

    /// Sets the stack pointer.
    pub fn set_sp(&mut self, value: u8)
        ensures
            final(self)@ == set_stack_pointer(old(self)@, value),
    {
        self.memory[STACK_POINTER_ADDR as usize] = value;
    }

    /// The program counter: the address of the next instruction.
    pub fn get_pc(&self) -> (value: u16)
        ensures
            value == program_counter(self@),
    {
        self.memory[PROGRAM_COUNTER_ADDR as usize] as u16 * 256
            + self.memory[PROGRAM_COUNTER_ADDR as usize + 1] as u16
    }

    /// Sets the program counter, high byte first.
    pub fn set_pc(&mut self, value: u16)
        ensures
            final(self)@ == set_program_counter(old(self)@, value),
    {
        self.memory[PROGRAM_COUNTER_ADDR as usize] = (value / 256) as u8;
        self.memory[PROGRAM_COUNTER_ADDR as usize + 1] = (value % 256) as u8;
    }

    /// Moves the program counter forward by `by` bytes, modulo 65536.
    pub fn advance_pc(&mut self, by: u16)
        ensures
            final(self)@ == semantics::advance(old(self)@, by as int),
    {
        let pc = self.get_pc();
        self.set_pc(((pc as u32 + by as u32) % 0x10000) as u16);
    }

    /// Pops a return address: reads the slot that the stack pointer names,
    /// then lowers the stack pointer.
    pub fn pop_from_stack(&mut self) -> (value: u16)
        ensures
            value == stack_top(old(self)@),
            final(self)@ == pop(old(self)@),
    {
        let sp = self.get_sp();
        let slot = STACK_ADDR as usize + 2 * (sp % 16) as usize;
        let value = self.memory[slot] as u16 * 256 + self.memory[slot + 1] as u16;
        self.set_sp(if sp == 0 { 255 } else { sp - 1 });
        value
    }

    /// Pushes a return address: raises the stack pointer, then writes the
    /// slot that it names.
    pub fn push_into_stack(&mut self, value: u16)
        ensures
            final(self)@ == push(old(self)@, value),
    {
        let sp = self.get_sp();
        let sp = if sp == 255 { 0 } else { sp + 1 };
        self.set_sp(sp);
        let slot = STACK_ADDR as usize + 2 * (sp % 16) as usize;
        self.memory[slot] = (value / 256) as u8;
        self.memory[slot + 1] = (value % 256) as u8;
    }

    /// The instruction word at the program counter: two bytes, the high one
    /// first.
    pub fn fetch_opcode(&self) -> (opcode: u16)
        ensures
            opcode == semantics::opcode(self@),
    {
        let pc = self.get_pc() as usize;
        self.read_memory(pc) as u16 * 256 + self.read_memory(pc + 1) as u16
    }

    /// `CLS`: clears the display.
    pub fn cls(&mut self)
        ensures
            final(self)@ == semantics::cls(old(self)@),
    {
        let ghost before = self@;
        for offset in 0..DISPLAY_BUFFER_SIZE
            invariant
                before.len() == 4096,
                forall|a: int|
                    0 <= a < 4096 ==> self@[a] == if DISPLAY_BUFFER_ADDR <= a < DISPLAY_BUFFER_ADDR
                        + offset {
                        0u8
                    } else {
                        before[a]
                    },
        {
            self.write_memory(DISPLAY_BUFFER_ADDR as usize + offset, 0);
        }
    }

    /// `RET`: pops the address of the call that led here and goes on at the
    /// instruction behind it.
    pub fn ret(&mut self)
        ensures
            final(self)@ == semantics::ret(old(self)@),
    {
        let addr = self.pop_from_stack();
        self.set_pc(((addr as u32 + 2) % 0x10000) as u16);
    }

    /// `JP addr`: goes on at `addr`.
    pub fn jmp_direct(&mut self, addr: u16)
        ensures
            final(self)@ == semantics::jmp_direct(old(self)@, addr),
    {
        self.set_pc(addr);
    }

    /// `CALL addr`: pushes the address of this instruction and goes on at
    /// `addr`.
    pub fn call(&mut self, addr: u16)
        ensures
            final(self)@ == semantics::call(old(self)@, addr),
    {
        let current_pc = self.get_pc();
        self.push_into_stack(current_pc);
        self.set_pc(addr);
    }

    /// `SE Vx, byte`: skips the next instruction if `V[x]` is `byte`.
    pub fn se_immedate(&mut self, x: u8, byte: u8)
        ensures
            final(self)@ == semantics::se_immedate(old(self)@, x, byte),
    {
        let vx = self.get_v(x);
        if vx == byte {
            self.advance_pc(2);
        }
    }

    /// `SNE Vx, byte`: skips the next instruction if `V[x]` is not `byte`.
    pub fn sne_immedate(&mut self, x: u8, byte: u8)
        ensures
            final(self)@ == semantics::sne_immedate(old(self)@, x, byte),
    {
        let vx = self.get_v(x);
        if vx != byte {
            self.advance_pc(2);
        }
    }

    /// `SE Vx, Vy`: skips the next instruction if `V[x]` is `V[y]`.
    pub fn se_registers(&mut self, x: u8, y: u8)
        ensures
            final(self)@ == semantics::se_registers(old(self)@, x, y),
    {
        let vx = self.get_v(x);
        let vy = self.get_v(y);
        if vx == vy {
            self.advance_pc(2);
        }
    }

    /// `SNE Vx, Vy`: skips the next instruction if `V[x]` is not `V[y]`.
    pub fn sne_registers(&mut self, x: u8, y: u8)
        ensures
            final(self)@ == semantics::sne_registers(old(self)@, x, y),
    {
        let vx = self.get_v(x);
        let vy = self.get_v(y);
        if vx != vy {
            self.advance_pc(2);
        }
    }

    /// `LD Vx, byte`: `V[x]` becomes `byte`.
    pub fn ld_immedate(&mut self, x: u8, byte: u8)
        ensures
            final(self)@ == semantics::ld_immedate(old(self)@, x, byte),
    {
        self.set_v(x, byte);
    }

    /// `ADD Vx, byte`: `V[x]` becomes the sum modulo 256; `VF` stays.
    pub fn add_immedate(&mut self, x: u8, byte: u8)
        ensures
            final(self)@ == semantics::add_immedate(old(self)@, x, byte),
    {
        let vx = self.get_v(x);
        self.set_v(x, ((vx as u16 + byte as u16) % 0x100) as u8);
    }

    /// `LD Vx, Vy`: `V[x]` becomes `V[y]`.
    pub fn ld_registers(&mut self, x: u8, y: u8)
        ensures
            final(self)@ == semantics::ld_registers(old(self)@, x, y),
    {
        let vy = self.get_v(y);
        self.set_v(x, vy);
    }

    /// `OR Vx, Vy`: `V[x]` becomes `V[x] | V[y]`.
    pub fn or_registers(&mut self, x: u8, y: u8)
        ensures
            final(self)@ == semantics::or_registers(old(self)@, x, y),
    {
        let vx = self.get_v(x);
        let vy = self.get_v(y);
        self.set_v(x, vx | vy);
    }

    /// `AND Vx, Vy`: `V[x]` becomes `V[x] & V[y]`.
    pub fn and_registers(&mut self, x: u8, y: u8)
        ensures
            final(self)@ == semantics::and_registers(old(self)@, x, y),
    {
        let vx = self.get_v(x);
        let vy = self.get_v(y);
        self.set_v(x, vx & vy);
    }

    /// `XOR Vx, Vy`: `V[x]` becomes `V[x] ^ V[y]`.
    pub fn xor_registers(&mut self, x: u8, y: u8)
        ensures
            final(self)@ == semantics::xor_registers(old(self)@, x, y),
    {
        let vx = self.get_v(x);
        let vy = self.get_v(y);
        self.set_v(x, vx ^ vy);
    }

    /// Writes a flag and a result: `flag` goes to `VF` first, as 1 or 0, and
    /// then `value` goes to `V[x]`, unless `x` names `VF` itself. So the flag
    /// is never overwritten by the result.
    pub fn set_flag_and_v(&mut self, flag: bool, x: u8, value: u8)
        ensures
            final(self)@ == semantics::set_flag_and_reg(old(self)@, flag, x, value),
            reg(final(self)@, FLAG_REGISTER) == if flag { 1int } else { 0int },
            x % 16 != FLAG_REGISTER ==> reg(final(self)@, x) == value,
    {
        let ghost before = self@;
        self.set_v(FLAG_REGISTER, if flag { 1 } else { 0 });
        if x % 16 != FLAG_REGISTER {
            self.set_v(x, value);
        }
        assert(self@ =~= semantics::set_flag_and_reg(before, flag, x, value));
    }

    /// `ADD Vx, Vy`: `VF` becomes 1 if the sum is above 255, else 0, and `V[x]`
    /// becomes the sum modulo 256. With `x` naming `VF` the register keeps the
    /// carry and the sum is not stored.
    pub fn add_registers(&mut self, x: u8, y: u8)
        ensures
            final(self)@ == semantics::add_registers(old(self)@, x, y),
            reg(final(self)@, FLAG_REGISTER) == if reg(old(self)@, x) + reg(old(self)@, y) > 255 {
                1int
            } else {
                0int
            },
            x % 16 != FLAG_REGISTER ==> reg(final(self)@, x) == (reg(old(self)@, x) + reg(
                old(self)@,
                y,
            )) % 256,
    {
        let vx = self.get_v(x);
        let vy = self.get_v(y);
        let sum: u16 = vx as u16 + vy as u16;
        self.set_flag_and_v(sum > 0xFF, x, (sum % 0x100) as u8);
    }

    /// `SUB Vx, Vy`: `VF` becomes 1 if nothing is borrowed, that is if
    /// `V[x] >= V[y]`, else 0, and `V[x]` becomes `V[x] - V[y]` modulo 256.
    /// With `x` naming `VF` the register keeps the flag and the difference is
    /// not stored.
    pub fn sub_registers(&mut self, x: u8, y: u8)
        ensures
            final(self)@ == semantics::sub_registers(old(self)@, x, y),
            reg(final(self)@, FLAG_REGISTER) == if reg(old(self)@, x) >= reg(old(self)@, y) {
                1int
            } else {
                0int
            },
            x % 16 != FLAG_REGISTER ==> reg(final(self)@, x) == (reg(old(self)@, x) - reg(
                old(self)@,
                y,
            )) % 256,
    {
        let vx = self.get_v(x);
        let vy = self.get_v(y);
        self.set_flag_and_v(vx >= vy, x, ((0x100 + vx as u16 - vy as u16) % 0x100) as u8);
    }

    /// `SUBN Vx, Vy`: `VF` becomes 1 if `V[y] >= V[x]`, else 0, and `V[x]`
    /// becomes `V[y] - V[x]` modulo 256. With `x` naming `VF` the register
    /// keeps the flag and the difference is not stored.
    pub fn subn_registers(&mut self, x: u8, y: u8)
        ensures
            final(self)@ == semantics::subn_registers(old(self)@, x, y),
            reg(final(self)@, FLAG_REGISTER) == if reg(old(self)@, y) >= reg(old(self)@, x) {
                1int
            } else {
                0int
            },
            x % 16 != FLAG_REGISTER ==> reg(final(self)@, x) == (reg(old(self)@, y) - reg(
                old(self)@,
                x,
            )) % 256,
    {
        let vx = self.get_v(x);
        let vy = self.get_v(y);
        self.set_flag_and_v(vy >= vx, x, ((0x100 + vy as u16 - vx as u16) % 0x100) as u8);
    }

    /// `SHR Vx`: `VF` becomes the lowest bit of `V[x]` and `V[x]` is shifted
    /// right by one bit. With `x` naming `VF` the register keeps the bit that
    /// is shifted out and the shifted value is not stored.
    pub fn shr(&mut self, x: u8)
        ensures
            final(self)@ == semantics::shr(old(self)@, x),
            reg(final(self)@, FLAG_REGISTER) == reg(old(self)@, x) % 2,
            x % 16 != FLAG_REGISTER ==> reg(final(self)@, x) == reg(old(self)@, x) / 2,
    {
        let vx = self.get_v(x);
        self.set_flag_and_v(vx % 2 == 1, x, vx / 2);
    }

    /// `SHL Vx`: `VF` becomes the highest bit of `V[x]` and `V[x]` is shifted
    /// left by one bit. With `x` naming `VF` the register keeps the bit that is
    /// shifted out and the shifted value is not stored.
    pub fn shl(&mut self, x: u8)
        ensures
            final(self)@ == semantics::shl(old(self)@, x),
            reg(final(self)@, FLAG_REGISTER) == reg(old(self)@, x) / 128,
            x % 16 != FLAG_REGISTER ==> reg(final(self)@, x) == reg(old(self)@, x) * 2 % 256,
    {
        let vx = self.get_v(x);
        self.set_flag_and_v(vx >= 0x80, x, vx % 0x80 * 2);
    }

    /// `LD I, addr`: `I` becomes `addr`.
    pub fn ld_index(&mut self, addr: u16)
        ensures
            final(self)@ == semantics::ld_index(old(self)@, addr),
    {
        self.set_i(addr);
    }

    /// `JP V0, addr`: goes on at `addr + V0`.
    pub fn jmp_indirect(&mut self, addr: u16)
        ensures
            final(self)@ == semantics::jmp_indirect(old(self)@, addr),
    {
        let v0 = self.get_v(0);
        self.set_pc(((addr as u32 + v0 as u32) % 0x10000) as u16);
    }

    /// `RND Vx, byte`, with a byte from the random source: `V[x]` becomes that
    /// byte masked with `byte`, and nothing else changes.
    pub fn rnd(&mut self, x: u8, byte: u8)
        ensures
            exists|sample: u8| final(self)@ == #[trigger] semantics::rnd(old(self)@, x, byte, sample),
            reg(final(self)@, x) & !byte == 0,
    {
        let sample = random_byte();
        self.rnd_with(x, byte, sample);
    }

    /// `RND Vx, byte`, for the random byte `sample`.
    pub fn rnd_with(&mut self, x: u8, byte: u8, sample: u8)
        ensures
            final(self)@ == semantics::rnd(old(self)@, x, byte, sample),
            reg(final(self)@, x) == sample & byte,
            reg(final(self)@, x) & !byte == 0,
    {
        self.set_v(x, sample & byte);
        proof {
            lemma_masked(sample, byte);
        }
    }

    /// Flips the pixels of the display byte at `offset` that `data` has set,
    /// and says whether one of them was lit.
    fn put(&mut self, offset: usize, data: u8) -> (overlap: bool)
        requires
            offset < DISPLAY_BUFFER_SIZE,
        ensures
            final(self)@ == old(self)@.update(
                DISPLAY_BUFFER_ADDR + offset,
                old(self)@[DISPLAY_BUFFER_ADDR + offset] ^ data,
            ),
            overlap == (old(self)@[DISPLAY_BUFFER_ADDR + offset] & data != 0),
    {
        let lit = self.memory[DISPLAY_BUFFER_ADDR as usize + offset];
        self.memory[DISPLAY_BUFFER_ADDR as usize + offset] = lit ^ data;
        lit & data != 0
    }

    /// `DRW Vx, Vy, n`. Draws the sprite of `n mod 16` rows at `I` with its
    /// top left corner in column `V[x]`, row `V[y]`; both coordinates wrap
    /// round the display. A row of the sprite that does not start at a byte
    /// of the display is split over two bytes: the pixels shifted out of the
    /// first enter the next, which after the last byte of a display row is
    /// its first. `VF` becomes 1 if a set bit of the sprite met a lit pixel,
    /// else 0.
    ///
    /// The sprite is read before the first pixel is written, so it is drawn
    /// as it stood when the instruction began, wherever `I` points.
    pub fn drw(&mut self, x: u8, y: u8, n: u8)
        ensures
            final(self)@ == display::drw(old(self)@, x, y, n),
            forall|px: int, py: int|
                on_display(px, py) ==> #[trigger] pixel(final(self)@, px, py) == (pixel(
                    old(self)@,
                    px,
                    py,
                ) != sprite_pixel(old(self)@, x, y, n, px, py)),
            reg(final(self)@, FLAG_REGISTER) == if collides(old(self)@, x, y, n) {
                1int
            } else {
                0int
            },
    {
        let ghost before = self@;
        let vx = self.get_v(x);
        let vy = self.get_v(y);
        let index = self.get_i() as usize;
        let rows = (n % 16) as usize;

        let mut sprite = [0u8; 16];
        for r in 0..rows
            invariant
                rows <= 16,
                index < 0x10000,
                self@ == before,
                forall|k: int| 0 <= k < r ==> sprite@[k] == byte_at(before, index + k),
        {
            sprite[r] = self.read_memory(index + r);
        }

        let left = (vx % 64 / 8) as usize;
        let right = (left + 1) % 8;
        let shift = vx % 8;
        let mut collision = false;
        for r in 0..rows
            invariant
                rows == n % 16,
                vx == reg(before, x),
                vy == reg(before, y),
                index == index_register(before),
                left == vx % 64 / 8,
                right == (left + 1) % 8,
                shift == vx % 8,
                before.len() == 4096,
                forall|k: int| 0 <= k < rows ==> sprite@[k] == byte_at(before, index + k),
                self@ == drawn_upto(before, x, y, n, r as int),
                collision == collides_upto(before, x, y, n, r as int),
        {
            proof {
                lemma_draw_row(before, x, y, n, r as int);
                lemma_collides_row(before, x, y, n, r as int);
            }
            let line = (vy as usize + r) % 32 * 8;
            let data = sprite[r];
            if self.put(line + left, data >> shift) {
                collision = true;
            }
            if shift != 0 {
                if self.put(line + right, data << (8 - shift)) {
                    collision = true;
                }
            }
        }
        self.set_v(FLAG_REGISTER, if collision { 1 } else { 0 });
        proof {
            lemma_drw_by_rows(before, x, y, n);
            lemma_drw_pixels(before, x, y, n);
        }
    }

    /// `SKP Vx`: skips the next instruction if the key whose number is in
    /// `V[x]` is held down.
    pub fn skp(&mut self, x: u8)
        ensures
            final(self)@ == semantics::skp(old(self)@, x),
    {
        let vx = self.get_v(x);
        if self.get_key_pressed(vx) {
            self.advance_pc(2);
        }
    }

    /// `SKNP Vx`: skips the next instruction if the key whose number is in
    /// `V[x]` is not held down.
    pub fn sknp(&mut self, x: u8)
        ensures
            final(self)@ == semantics::sknp(old(self)@, x),
    {
        let vx = self.get_v(x);
        if !self.get_key_pressed(vx) {
            self.advance_pc(2);
        }
    }

    /// `LD Vx, DT`: `V[x]` becomes the delay timer.
    pub fn ld_from_dt(&mut self, x: u8)
        ensures
            final(self)@ == semantics::ld_from_dt(old(self)@, x),
    {
        let dt = self.get_dt();
        self.set_v(x, dt);
    }

    /// `LD Vx, K`. The machine does not block here: it notes that it waits
    /// and for which register, and `set_key_pressed` ends the wait.
    pub fn ld_key_press(&mut self, x: u8)
        ensures
            final(self)@ == semantics::ld_key_press(old(self)@, x),
            waiting_for_key(final(self)@),
            waiting_key_destination(final(self)@) == x % 16,
    {
        self.set_waiting_key_destination(x);
        self.set_waiting_for_key();
    }

    /// `LD DT, Vx`: the delay timer becomes `V[x]`.
    pub fn ld_into_dt(&mut self, x: u8)
        ensures
            final(self)@ == semantics::ld_into_dt(old(self)@, x),
    {
        let vx = self.get_v(x);
        self.set_dt(vx);
    }

    /// `LD ST, Vx`: the sound timer becomes `V[x]`.
    pub fn ld_into_st(&mut self, x: u8)
        ensures
            final(self)@ == semantics::ld_into_st(old(self)@, x),
    {
        let vx = self.get_v(x);
        self.set_st(vx);
    }

    /// `ADD I, Vx`: `I` becomes `I + V[x]` modulo 65536; `VF` stays.
    pub fn add_index(&mut self, x: u8)
        ensures
            final(self)@ == semantics::add_index(old(self)@, x),
    {
        let vx = self.get_v(x);
        let i = self.get_i();
        self.set_i(((i as u32 + vx as u32) % 0x10000) as u16);
    }

    /// `LD F, Vx`: `I` becomes the address of the glyph for the digit in
    /// `V[x]`, which is five times that digit. For a value above 15, which is
    /// no digit, `I` is five times the value all the same.
    pub fn ld_font_addr(&mut self, x: u8)
        ensures
            final(self)@ == semantics::ld_font_addr(old(self)@, x),
    {
        let vx = self.get_v(x);
        self.set_i(FONT_ADDR + vx as u16 * 5);
    }

    /// `LD B, Vx`: the hundreds, tens and ones of `V[x]` go to the bytes at `I`,
    /// `I + 1` and `I + 2`.
    pub fn ld_bcd(&mut self, x: u8)
        ensures
            final(self)@ == semantics::ld_bcd(old(self)@, x),
            byte_at(final(self)@, index_register(old(self)@) as int) == reg(old(self)@, x) / 100,
            byte_at(final(self)@, index_register(old(self)@) + 1) == reg(old(self)@, x) / 10 % 10,
            byte_at(final(self)@, index_register(old(self)@) + 2) == reg(old(self)@, x) % 10,
    {
        let vx = self.get_v(x);
        let i = self.get_i() as usize;
        self.write_memory(i, vx / 100);
        self.write_memory(i + 1, vx / 10 % 10);
        self.write_memory(i + 2, vx % 10);
    }

    /// The registers `V0..=VF` as they stand.
    fn registers(&self) -> (values: [u8; 16])
        ensures
            forall|r: int| 0 <= r < 16 ==> values@[r] == self@[V_REGISTERS_ADDR + r],
    {
        let mut values = [0u8; 16];
        for r in 0..16usize
            invariant
                forall|k: int| 0 <= k < r ==> values@[k] == self@[V_REGISTERS_ADDR + k],
        {
            values[r] = self.memory[V_REGISTERS_ADDR as usize + r];
        }
        values
    }

    /// `LD [I], Vx`. The registers are read before the first byte is written,
    /// so the bytes at `I` get what the registers held when the instruction
    /// began, wherever `I` points.
    pub fn ld_into_mem(&mut self, x: u8)
        ensures
            final(self)@ == semantics::ld_into_mem(old(self)@, x),
            forall|r: u8|
                r <= x % 16 ==> byte_at(final(self)@, index_register(old(self)@) + r) == #[trigger] reg(
                    old(self)@,
                    r,
                ),
    {
        let ghost before = self@;
        let i = self.get_i() as usize;
        let count = (x % 16) as usize + 1;
        let values = self.registers();
        for r in 0..count
            invariant
                count <= 16,
                i < 0x10000,
                forall|k: int| 0 <= k < 16 ==> values@[k] == before[V_REGISTERS_ADDR + k],
                forall|a: int|
                    0 <= a < 4096 ==> self@[a] == if (a - i) % 4096 < r {
                        before[V_REGISTERS_ADDR + (a - i) % 4096]
                    } else {
                        before[a]
                    },
        {
            self.write_memory(i + r, values[r]);
        }
    }

    /// `LD Vx, [I]`. The bytes at `I` are read before the first register is
    /// written, so the registers get what those bytes held when the
    /// instruction began, wherever `I` points.
    pub fn ld_from_mem(&mut self, x: u8)
        ensures
            final(self)@ == semantics::ld_from_mem(old(self)@, x),
            forall|r: u8|
                r <= x % 16 ==> #[trigger] reg(final(self)@, r) == byte_at(
                    old(self)@,
                    index_register(old(self)@) + r,
                ),
            index_register(final(self)@) == index_register(old(self)@),
    {
        let ghost before = self@;
        let i = self.get_i() as usize;
        let count = (x % 16) as usize + 1;
        let mut values = [0u8; 16];
        for r in 0..count
            invariant
                count <= 16,
                i < 0x10000,
                self@ == before,
                forall|k: int| 0 <= k < r ==> values@[k] == byte_at(before, i + k),
        {
            values[r] = self.read_memory(i + r);
        }
        for r in 0..count
            invariant
                count <= 16,
                before.len() == 4096,
                forall|k: int| 0 <= k < count ==> values@[k] == byte_at(before, i + k),
                forall|a: int|
                    0 <= a < 4096 ==> self@[a] == if V_REGISTERS_ADDR <= a < V_REGISTERS_ADDR + r {
                        byte_at(before, i + (a - V_REGISTERS_ADDR))
                    } else {
                        before[a]
                    },
        {
            self.set_v(r as u8, values[r]);
        }
    }
}

} // verus!
