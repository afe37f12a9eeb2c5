//! Laws of the instruction set, proved of the functions in `state`,
//! `semantics` and `display` that the machine's contracts are stated with.

use vstd::prelude::*;
use crate::bits::{bit, lemma_bit_zero, lemma_bits_equal};
use crate::display::{collides, drw, hit, lemma_drw_pixels, on_display, pixel, sprite_pixel};
use crate::layout::{
    DELAY_TIMER_ADDR, DISPLAY_BUFFER_ADDR, DISPLAY_BUFFER_SIZE, FLAG_REGISTER,
    PROGRAM_COUNTER_ADDR, SOUND_TIMER_ADDR, V_REGISTERS_ADDR, WAIT_KEY_PRESS_FLAG_ADDR,
};
use crate::semantics::{
    add_immedate, add_index, add_registers, advance, and_registers, call, cls, effect,
    jmp_direct, jmp_indirect, ld_bcd, ld_font_addr, ld_from_dt, ld_from_mem, ld_immedate,
    ld_index, ld_into_dt, ld_into_mem, ld_into_st, ld_key_press, ld_registers, opcode,
    or_registers, ret, rnd, se_immedate, se_registers, set_key_pressed, sets_program_counter,
    shl, shr, skip_if, skp, sknp, sne_immedate, sne_registers, step, sub_registers,
    subn_registers, wrap16, xor_registers,
};
use crate::state::{
    byte_at, delay_timer, display_bytes, index_register, is_image, key_pressed, pop,
    program_counter, push, reg, set_program_counter, sound_timer, stack_entry, stack_pointer,
    stack_top, waiting_for_key,
};

verus! {

// Drawing

/// No pixel of the display is lit.
pub open spec fn blank(mem: Seq<u8>) -> bool {
    forall|px: int, py: int| on_display(px, py) ==> !#[trigger] pixel(mem, px, py)
}

/// Two images agree in every byte outside the display.
pub open spec fn same_outside_display(a: Seq<u8>, b: Seq<u8>) -> bool {
    forall|i: int|
        0 <= i < 4096 && !(DISPLAY_BUFFER_ADDR <= i < DISPLAY_BUFFER_ADDR + DISPLAY_BUFFER_SIZE)
            ==> #[trigger] a[i] == b[i]
}

/// The sprite of `DRW Vx, Vy, n` is the same in `a` and in `b`, and so is the
/// place where it is drawn.
pub open spec fn same_sprite(a: Seq<u8>, b: Seq<u8>, x: u8, y: u8, n: u8) -> bool {
    &&& reg(a, x) == reg(b, x)
    &&& reg(a, y) == reg(b, y)
    &&& forall|r: int|
        0 <= r < n % 16 ==> #[trigger] byte_at(a, index_register(a) + r) == byte_at(
            b,
            index_register(b) + r,
        )
}

/// After `CLS` the display is blank and nothing else has changed.
pub proof fn lemma_cls_blanks(mem: Seq<u8>)
    requires
        is_image(mem),
    ensures
        blank(cls(mem)),
        same_outside_display(cls(mem), mem),
{
    assert forall|px: int, py: int| on_display(px, py) implies !#[trigger] pixel(cls(mem), px, py) by {
        lemma_bit_zero((7 - px % 8) as u8);
    }
}

/// A blank display is 256 zero bytes.
pub proof fn lemma_blank_is_zero(mem: Seq<u8>)
    requires
        is_image(mem),
        blank(mem),
    ensures
        forall|i: int|
            DISPLAY_BUFFER_ADDR <= i < DISPLAY_BUFFER_ADDR + DISPLAY_BUFFER_SIZE ==> #[trigger] mem[i]
                == 0,
{
    assert forall|i: int|
        DISPLAY_BUFFER_ADDR <= i < DISPLAY_BUFFER_ADDR + DISPLAY_BUFFER_SIZE implies #[trigger] mem[i]
        == 0 by {
        let offset = i - DISPLAY_BUFFER_ADDR;
        assert forall|k: u8| k < 8 implies #[trigger] bit(mem[i], k) == bit(0u8, k) by {
            let px = 8 * (offset % 8) + 7 - k;
            let py = offset / 8;
            assert(on_display(px, py));
            assert(px / 8 == offset % 8 && px % 8 == 7 - k);
            assert(!pixel(mem, px, py));
            lemma_bit_zero(k);
        }
        lemma_bits_equal(mem[i], 0u8);
    }
}

/// Two displays with the same pixels are the same bytes.
pub proof fn lemma_same_pixels_same_display(a: Seq<u8>, b: Seq<u8>)
    requires
        is_image(a),
        is_image(b),
        forall|px: int, py: int| on_display(px, py) ==> #[trigger] pixel(a, px, py) == pixel(b, px, py),
    ensures
        display_bytes(a) == display_bytes(b),
{
    assert forall|o: int| 0 <= o < 256 implies display_bytes(a)[o] == display_bytes(b)[o] by {
        let i = DISPLAY_BUFFER_ADDR + o;
        assert forall|k: u8| k < 8 implies #[trigger] bit(a[i], k) == bit(b[i], k) by {
            let px = 8 * (o % 8) + 7 - k;
            let py = o / 8;
            assert(on_display(px, py));
            assert(px / 8 == o % 8 && px % 8 == 7 - k);
            assert(pixel(a, px, py) == pixel(b, px, py));
        }
        lemma_bits_equal(a[i], b[i]);
    }
    assert(display_bytes(a) =~= display_bytes(b));
}

/// Drawing on a blank display shows the sprite and nothing else, and does not
/// collide.
pub proof fn lemma_draw_on_blank(mem: Seq<u8>, x: u8, y: u8, n: u8)
    requires
        is_image(mem),
        blank(mem),
    ensures
        forall|px: int, py: int|
            on_display(px, py) ==> #[trigger] pixel(drw(mem, x, y, n), px, py) == sprite_pixel(
                mem,
                x,
                y,
                n,
                px,
                py,
            ),
        !collides(mem, x, y, n),
        reg(drw(mem, x, y, n), FLAG_REGISTER) == 0,
{
    lemma_drw_pixels(mem, x, y, n);
    assert(!collides(mem, x, y, n)) by {
        if collides(mem, x, y, n) {
            let (px, py) = choose|px: int, py: int|
                on_display(px, py) && #[trigger] hit(mem, x, y, n, px, py);
            assert(pixel(mem, px, py));
        }
    }
}

/// Clearing the display and then drawing a sprite is a first draw on a blank
/// display: whatever the display showed before, the result is that of drawing
/// on any image with a blank display that is otherwise the same, the display
/// then shows the sprite alone, and `VF` is 0.
pub proof fn lemma_draw_after_clear(mem: Seq<u8>, fresh: Seq<u8>, x: u8, y: u8, n: u8)
    requires
        is_image(mem),
        is_image(fresh),
        blank(fresh),
        same_outside_display(fresh, mem),
    ensures
        drw(cls(mem), x, y, n) == drw(fresh, x, y, n),
        forall|px: int, py: int|
            on_display(px, py) ==> #[trigger] pixel(drw(cls(mem), x, y, n), px, py)
                == sprite_pixel(fresh, x, y, n, px, py),
        reg(drw(cls(mem), x, y, n), FLAG_REGISTER) == 0,
{
    lemma_cls_blanks(mem);
    lemma_blank_is_zero(fresh);
    assert(cls(mem) =~= fresh);
    lemma_draw_on_blank(fresh, x, y, n);
}

/// Drawing the same sprite twice at the same place brings the display back
/// to what it showed before the first draw. The second draw collides just if
/// the sprite has a set bit on a pixel that was dark before the first draw.
pub proof fn lemma_draw_twice(mem: Seq<u8>, x: u8, y: u8, n: u8)
    requires
        is_image(mem),
        same_sprite(mem, drw(mem, x, y, n), x, y, n),
    ensures
        display_bytes(drw(drw(mem, x, y, n), x, y, n)) == display_bytes(mem),
        forall|px: int, py: int|
            on_display(px, py) ==> #[trigger] pixel(drw(drw(mem, x, y, n), x, y, n), px, py)
                == pixel(mem, px, py),
        reg(drw(drw(mem, x, y, n), x, y, n), FLAG_REGISTER) == 1 <==> exists|px: int, py: int|
            on_display(px, py) && #[trigger] sprite_pixel(mem, x, y, n, px, py) && !pixel(
                mem,
                px,
                py,
            ),
        reg(drw(drw(mem, x, y, n), x, y, n), FLAG_REGISTER) == 0 <==> forall|px: int, py: int|
            on_display(px, py) && #[trigger] sprite_pixel(mem, x, y, n, px, py) ==> pixel(
                mem,
                px,
                py,
            ),
{
    let once = drw(mem, x, y, n);
    let twice = drw(once, x, y, n);
    lemma_drw_pixels(mem, x, y, n);
    lemma_drw_pixels(once, x, y, n);
    assert(index_register(once) == index_register(mem));
    assert forall|px: int, py: int| on_display(px, py) implies sprite_pixel(once, x, y, n, px, py)
        == #[trigger] sprite_pixel(mem, x, y, n, px, py) by {
        let row = (py - reg(mem, y)) % 32;
        if row < n % 16 {
            assert(byte_at(mem, index_register(mem) + row) == byte_at(
                once,
                index_register(once) + row,
            ));
        }
    }
    assert forall|px: int, py: int| on_display(px, py) implies #[trigger] pixel(twice, px, py)
        == pixel(mem, px, py) by {
        assert(pixel(once, px, py) == (pixel(mem, px, py) != sprite_pixel(mem, x, y, n, px, py)));
        assert(sprite_pixel(once, x, y, n, px, py) == sprite_pixel(mem, x, y, n, px, py));
    }
    lemma_same_pixels_same_display(twice, mem);
    let dark = exists|px: int, py: int|
        on_display(px, py) && #[trigger] sprite_pixel(mem, x, y, n, px, py) && !pixel(mem, px, py);
    if collides(once, x, y, n) {
        let (px, py) = choose|px: int, py: int|
            on_display(px, py) && #[trigger] hit(once, x, y, n, px, py);
        assert(pixel(once, px, py) == (pixel(mem, px, py) != sprite_pixel(mem, x, y, n, px, py)));
        assert(sprite_pixel(mem, x, y, n, px, py) && !pixel(mem, px, py));
    }
    if dark {
        let (px, py) = choose|px: int, py: int|
            on_display(px, py) && #[trigger] sprite_pixel(mem, x, y, n, px, py) && !pixel(
                mem,
                px,
                py,
            );
        assert(pixel(once, px, py) == (pixel(mem, px, py) != sprite_pixel(mem, x, y, n, px, py)));
        assert(hit(once, x, y, n, px, py));
    }
}

/// Where the sprite is all that the display shows after the first draw, the
/// second draw wipes it out, and collides unless the sprite shows no pixel.
pub proof fn lemma_draw_twice_on_blank(mem: Seq<u8>, x: u8, y: u8, n: u8)
    requires
        is_image(mem),
        blank(mem),
        same_sprite(mem, drw(mem, x, y, n), x, y, n),
    ensures
        blank(drw(drw(mem, x, y, n), x, y, n)),
        reg(drw(drw(mem, x, y, n), x, y, n), FLAG_REGISTER) == 1 <==> exists|px: int, py: int|
            on_display(px, py) && #[trigger] sprite_pixel(mem, x, y, n, px, py),
        reg(drw(drw(mem, x, y, n), x, y, n), FLAG_REGISTER) == 0 <==> forall|px: int, py: int|
            on_display(px, py) ==> !#[trigger] sprite_pixel(mem, x, y, n, px, py),
{
    lemma_draw_twice(mem, x, y, n);
    let dark = exists|px: int, py: int|
        on_display(px, py) && #[trigger] sprite_pixel(mem, x, y, n, px, py) && !pixel(mem, px, py);
    let shown = exists|px: int, py: int|
        on_display(px, py) && #[trigger] sprite_pixel(mem, x, y, n, px, py);
    if dark {
        let (px, py) = choose|px: int, py: int|
            on_display(px, py) && #[trigger] sprite_pixel(mem, x, y, n, px, py) && !pixel(
                mem,
                px,
                py,
            );
        assert(on_display(px, py) && sprite_pixel(mem, x, y, n, px, py));
    }
    if shown {
        let (px, py) = choose|px: int, py: int|
            on_display(px, py) && #[trigger] sprite_pixel(mem, x, y, n, px, py);
        assert(!pixel(mem, px, py));
        assert(on_display(px, py) && sprite_pixel(mem, x, y, n, px, py) && !pixel(mem, px, py));
    }
}

// Block transfers

/// `LD [I], Vx` followed by `LD Vx, [I]` from the same `I` brings back what
/// `V0..=V[x]` held.
pub proof fn lemma_store_load_round_trip(mem: Seq<u8>, x: u8)
    requires
        is_image(mem),
        index_register(ld_into_mem(mem, x)) == index_register(mem),
    ensures
        forall|r: u8|
            r <= x % 16 ==> #[trigger] reg(ld_from_mem(ld_into_mem(mem, x), x), r) == reg(mem, r),
{
    let stored = ld_into_mem(mem, x);
    let i = index_register(mem);
    assert forall|r: u8| r <= x % 16 implies #[trigger] reg(ld_from_mem(stored, x), r) == reg(
        mem,
        r,
    ) by {
        let a = (i + r) % 4096;
        assert((a - i) % 4096 == r);
        assert(stored[a] == reg(mem, r));
    }
}

// The program counter

/// After a skip instruction the program counter has moved by four where the
/// condition holds and by two where it does not, and nothing else has
/// changed.
pub proof fn lemma_skip_moves_pc(mem: Seq<u8>, condition: bool)
    requires
        is_image(mem),
    ensures
        advance(skip_if(mem, condition), 2) == set_program_counter(
            mem,
            wrap16(
                program_counter(mem) + if condition {
                    4int
                } else {
                    2int
                },
            ),
        ),
        program_counter(advance(skip_if(mem, condition), 2)) == (program_counter(mem)
            + if condition {
            4int
        } else {
            2int
        }) % 0x10000,
{
    let target = wrap16(program_counter(mem) + if condition { 4int } else { 2int });
    assert(advance(skip_if(mem, condition), 2) =~= set_program_counter(mem, target));
}

/// A step that executes `SE Vx, nn` moves the program counter by four where
/// `V[x]` is `nn`, and by two where it is not.
pub proof fn lemma_se_immedate_step(mem: Seq<u8>, sample: u8)
    requires
        is_image(mem),
        !waiting_for_key(mem),
        opcode(mem) / 0x1000 == 0x3,
    ensures
        ({
            let x = (opcode(mem) / 0x100 % 0x10) as u8;
            let nn = (opcode(mem) % 0x100) as u8;
            program_counter(step(mem, sample)) == (program_counter(mem) + if reg(mem, x) == nn {
                4int
            } else {
                2int
            }) % 0x10000
        }),
{
    let x = (opcode(mem) / 0x100 % 0x10) as u8;
    let nn = (opcode(mem) % 0x100) as u8;
    lemma_skip_moves_pc(mem, reg(mem, x) == nn);
}

// The call stack

/// A pop after a push yields what was pushed and leaves the stack pointer
/// where it was.
pub proof fn lemma_push_pop(mem: Seq<u8>, value: u16)
    requires
        is_image(mem),
    ensures
        stack_top(push(mem, value)) == value,
        stack_pointer(pop(push(mem, value))) == stack_pointer(mem),
{
}

/// `CALL` followed by `RET` goes on at the instruction behind the call, with
/// the stack pointer where it was.
pub proof fn lemma_call_ret(mem: Seq<u8>, addr: u16)
    requires
        is_image(mem),
    ensures
        program_counter(ret(call(mem, addr))) == (program_counter(mem) + 2) % 0x10000,
        stack_pointer(ret(call(mem, addr))) == stack_pointer(mem),
{
}

/// The return addresses on the stack, the oldest first, while no more than
/// sixteen are on it.
pub open spec fn call_stack(mem: Seq<u8>) -> Seq<u16> {
    Seq::new(stack_pointer(mem) as nat, |level: int| stack_entry(mem, (level + 1) as u8))
}

/// While fewer than sixteen return addresses are on the stack, a push adds
/// one on top and keeps the others.
pub proof fn lemma_push_extends_call_stack(mem: Seq<u8>, value: u16)
    requires
        is_image(mem),
        stack_pointer(mem) < 16,
    ensures
        call_stack(push(mem, value)) == call_stack(mem).push(value),
{
    let pushed = push(mem, value);
    let depth = stack_pointer(mem) as int;
    assert(stack_pointer(pushed) == depth + 1);
    assert forall|level: int| 0 <= level < depth + 1 implies call_stack(pushed)[level]
        == call_stack(mem).push(value)[level] by {
        if level < depth {
            assert(stack_entry(pushed, (level + 1) as u8) == stack_entry(mem, (level + 1) as u8));
        }
    }
    assert(call_stack(pushed) =~= call_stack(mem).push(value));
}

/// While between one and sixteen return addresses are on the stack, a pop
/// yields the one on top and keeps the others.
pub proof fn lemma_pop_shrinks_call_stack(mem: Seq<u8>)
    requires
        is_image(mem),
        0 < stack_pointer(mem) <= 16,
    ensures
        stack_top(mem) == call_stack(mem).last(),
        call_stack(pop(mem)) == call_stack(mem).drop_last(),
{
    assert(call_stack(pop(mem)) =~= call_stack(mem).drop_last());
}

// Waiting for a key

/// While the machine waits for a key a step changes nothing. A key that goes
/// down ends the wait and its number goes to the register that `LD Vx, K`
/// named; a key that goes up does not end it.
pub proof fn lemma_key_wait(mem: Seq<u8>, x: u8, key: u8, sample: u8)
    requires
        is_image(mem),
    ensures
        waiting_for_key(ld_key_press(mem, x)),
        step(ld_key_press(mem, x), sample) == ld_key_press(mem, x),
        !waiting_for_key(set_key_pressed(ld_key_press(mem, x), key, true)),
        reg(set_key_pressed(ld_key_press(mem, x), key, true), x) == key % 16,
        key_pressed(set_key_pressed(ld_key_press(mem, x), key, true), key),
        waiting_for_key(set_key_pressed(ld_key_press(mem, x), key, false)),
{
}

// What a step changes and what it leaves alone

/// The instruction word `op` stores through `I`: it is `LD B, Vx` or
/// `LD [I], Vx`.
pub open spec fn stores_through_index(op: u16) -> bool {
    op / 0x1000 == 0xF && (op % 0x100 == 0x33 || op % 0x100 == 0x55)
}

/// The instruction word `op` loads the delay timer: it is `LD DT, Vx`.
pub open spec fn loads_delay_timer(op: u16) -> bool {
    op / 0x1000 == 0xF && op % 0x100 == 0x15
}

/// The instruction word `op` loads the sound timer: it is `LD ST, Vx`.
pub open spec fn loads_sound_timer(op: u16) -> bool {
    op / 0x1000 == 0xF && op % 0x100 == 0x18
}

/// The instruction word `op` is `LD Vx, K`.
pub open spec fn awaits_key(op: u16) -> bool {
    op / 0x1000 == 0xF && op % 0x100 == 0x0A
}

/// The instruction word `op` is one of the six skips.
pub open spec fn is_skip(op: u16) -> bool {
    let c = op / 0x1000;
    ||| c == 0x3
    ||| c == 0x4
    ||| (c == 0x5 && op % 0x10 == 0x0)
    ||| (c == 0x9 && op % 0x10 == 0x0)
    ||| (c == 0xE && (op % 0x100 == 0x9E || op % 0x100 == 0xA1))
}

/// `after` differs from `before` at most in the registers, the stack, the
/// display, the stack pointer, the timers, the program counter, `I` and the
/// key-wait byte: the font, the key flags and the program are the same.
pub open spec fn keeps_font_keys_and_program(before: Seq<u8>, after: Seq<u8>) -> bool {
    forall|a: int|
        0 <= a < V_REGISTERS_ADDR || WAIT_KEY_PRESS_FLAG_ADDR < a < 4096 ==> #[trigger] after[a]
            == before[a]
}

/// What an instruction that does not store through `I` changes, and what it
/// leaves alone.
pub open spec fn within_frame(before: Seq<u8>, after: Seq<u8>, op: u16) -> bool {
    let pc = program_counter(before);
    &&& is_image(after)
    &&& keeps_font_keys_and_program(before, after)
    &&& !loads_delay_timer(op) ==> delay_timer(after) == delay_timer(before)
    &&& !loads_sound_timer(op) ==> sound_timer(after) == sound_timer(before)
    &&& waiting_for_key(after) == (waiting_for_key(before) || awaits_key(op))
    &&& !sets_program_counter(op) && !is_skip(op) ==> program_counter(after) == pc
    &&& is_skip(op) ==> program_counter(after) == pc || program_counter(after) == (pc + 2)
        % 0x10000
}

/// The instructions of the classes 0 to 7 stay within their frame.
proof fn lemma_frame_of_classes_0_to_7(mem: Seq<u8>, op: u16, sample: u8)
    requires
        is_image(mem),
        op / 0x1000 <= 0x7,
    ensures
        within_frame(mem, effect(mem, op, sample), op),
{
    let c = op / 0x1000;
    let nnn = op % 0x1000;
    let nn = (op % 0x100) as u8;
    let n = (op % 0x10) as u8;
    let x = (op / 0x100 % 0x10) as u8;
    let y = (op / 0x10 % 0x10) as u8;
    let after = effect(mem, op, sample);
    if c == 0x0 && nn == 0xE0 {
        assert(after == cls(mem));
    } else if c == 0x0 && nn == 0xEE {
        assert(after == ret(mem));
    } else if c == 0x0 {
        assert(after == mem);
    } else if c == 0x1 {
        assert(after == jmp_direct(mem, nnn));
    } else if c == 0x2 {
        assert(after == call(mem, nnn));
    } else if c == 0x3 {
        assert(after == se_immedate(mem, x, nn));
    } else if c == 0x4 {
        assert(after == sne_immedate(mem, x, nn));
    } else if c == 0x5 && n == 0x0 {
        assert(after == se_registers(mem, x, y));
    } else if c == 0x5 {
        assert(after == mem);
    } else if c == 0x6 {
        assert(after == ld_immedate(mem, x, nn));
    } else {
        assert(after == add_immedate(mem, x, nn));
    }
}

/// The instructions of the classes 8 to E stay within their frame.
proof fn lemma_frame_of_classes_8_to_e(mem: Seq<u8>, op: u16, sample: u8)
    requires
        is_image(mem),
        0x8 <= op / 0x1000 <= 0xE,
    ensures
        within_frame(mem, effect(mem, op, sample), op),
{
    let c = op / 0x1000;
    let nnn = op % 0x1000;
    let nn = (op % 0x100) as u8;
    let n = (op % 0x10) as u8;
    let x = (op / 0x100 % 0x10) as u8;
    let y = (op / 0x10 % 0x10) as u8;
    let after = effect(mem, op, sample);
    if c == 0x8 && n == 0x0 {
        assert(after == ld_registers(mem, x, y));
    } else if c == 0x8 && n == 0x1 {
        assert(after == or_registers(mem, x, y));
    } else if c == 0x8 && n == 0x2 {
        assert(after == and_registers(mem, x, y));
    } else if c == 0x8 && n == 0x3 {
        assert(after == xor_registers(mem, x, y));
    } else if c == 0x8 && n == 0x4 {
        assert(after == add_registers(mem, x, y));
    } else if c == 0x8 && n == 0x5 {
        assert(after == sub_registers(mem, x, y));
    } else if c == 0x8 && n == 0x6 {
        assert(after == shr(mem, x));
    } else if c == 0x8 && n == 0x7 {
        assert(after == subn_registers(mem, x, y));
    } else if c == 0x8 && n == 0xE {
        assert(after == shl(mem, x));
    } else if c == 0x8 {
        assert(after == mem);
    } else if c == 0x9 && n == 0x0 {
        assert(after == sne_registers(mem, x, y));
    } else if c == 0x9 {
        assert(after == mem);
    } else if c == 0xA {
        assert(after == ld_index(mem, nnn));
    } else if c == 0xB {
        assert(after == jmp_indirect(mem, nnn));
    } else if c == 0xC {
        assert(after == rnd(mem, x, nn, sample));
    } else if c == 0xD {
        assert(after == drw(mem, x, y, n));
    } else if nn == 0x9E {
        assert(after == skp(mem, x));
    } else if nn == 0xA1 {
        assert(after == sknp(mem, x));
    } else {
        assert(after == mem);
    }
}

/// The instructions of class F that do not store through `I` stay within
/// their frame.
proof fn lemma_frame_of_class_f(mem: Seq<u8>, op: u16, sample: u8)
    requires
        is_image(mem),
        op / 0x1000 == 0xF,
        !stores_through_index(op),
    ensures
        within_frame(mem, effect(mem, op, sample), op),
{
    let nn = (op % 0x100) as u8;
    let x = (op / 0x100 % 0x10) as u8;
    let after = effect(mem, op, sample);
    if nn == 0x07 {
        assert(after == ld_from_dt(mem, x));
    } else if nn == 0x0A {
        assert(after == ld_key_press(mem, x));
    } else if nn == 0x15 {
        assert(after == ld_into_dt(mem, x));
    } else if nn == 0x18 {
        assert(after == ld_into_st(mem, x));
    } else if nn == 0x1E {
        assert(after == add_index(mem, x));
    } else if nn == 0x29 {
        assert(after == ld_font_addr(mem, x));
    } else if nn == 0x65 {
        assert(after == ld_from_mem(mem, x));
    } else {
        assert(after == mem);
    }
}

/// An instruction that does not store through `I` stays within its frame.
pub proof fn lemma_effect_within_frame(mem: Seq<u8>, op: u16, sample: u8)
    requires
        is_image(mem),
        !stores_through_index(op),
    ensures
        within_frame(mem, effect(mem, op, sample), op),
{
    if op / 0x1000 <= 0x7 {
        lemma_frame_of_classes_0_to_7(mem, op, sample);
    } else if op / 0x1000 <= 0xE {
        lemma_frame_of_classes_8_to_e(mem, op, sample);
    } else {
        lemma_frame_of_class_f(mem, op, sample);
    }
}

/// The number of bytes that the instruction word `op` stores through `I`:
/// three for `LD B, Vx`, one for each of `V0..=V[x]` for `LD [I], Vx`, none
/// for any other instruction.
pub open spec fn store_length(op: u16) -> int {
    if !stores_through_index(op) {
        0
    } else if op % 0x100 == 0x33 {
        3
    } else {
        op / 0x100 % 0x10 + 1
    }
}

/// The instruction word `op`, executed on `mem`, stores through `I` onto the
/// byte at `addr`.
pub open spec fn stores_onto(mem: Seq<u8>, op: u16, addr: int) -> bool {
    (addr - index_register(mem)) % 4096 < store_length(op)
}

/// An instruction that stores through `I` changes the bytes that it stores
/// onto, and no other.
pub proof fn lemma_store_within_frame(mem: Seq<u8>, op: u16, sample: u8)
    requires
        is_image(mem),
        stores_through_index(op),
    ensures
        is_image(effect(mem, op, sample)),
        forall|a: int|
            0 <= a < 4096 && !stores_onto(mem, op, a) ==> #[trigger] effect(mem, op, sample)[a]
                == mem[a],
{
    let x = (op / 0x100 % 0x10) as u8;
    let i = index_register(mem) as int;
    if op % 0x100 == 0x33 {
        assert(effect(mem, op, sample) == ld_bcd(mem, x));
        assert forall|a: int| 0 <= a < 4096 && !stores_onto(mem, op, a) implies #[trigger] ld_bcd(
            mem,
            x,
        )[a] == mem[a] by {
            assert((a - i) % 4096 >= 3);
            assert(a != i % 4096 && a != (i + 1) % 4096 && a != (i + 2) % 4096);
        }
    } else {
        assert(effect(mem, op, sample) == ld_into_mem(mem, x));
        assert(x % 16 == x);
    }
}

/// A step changes a byte of the font, a key flag or a byte of the program
/// only by storing through `I` onto it.
pub proof fn lemma_step_keeps_font_keys_and_program(mem: Seq<u8>, sample: u8)
    requires
        is_image(mem),
    ensures
        forall|a: int|
            (0 <= a < V_REGISTERS_ADDR || WAIT_KEY_PRESS_FLAG_ADDR < a < 4096) && (waiting_for_key(
                mem,
            ) || !stores_onto(mem, opcode(mem), a)) ==> #[trigger] step(mem, sample)[a] == mem[a],
        waiting_for_key(mem) || !stores_through_index(opcode(mem)) ==> keeps_font_keys_and_program(
            mem,
            step(mem, sample),
        ),
{
    if !waiting_for_key(mem) {
        if stores_through_index(opcode(mem)) {
            lemma_store_within_frame(mem, opcode(mem), sample);
        } else {
            lemma_effect_within_frame(mem, opcode(mem), sample);
        }
    }
}

/// The machine never counts a timer down: a timer changes only in a step
/// that executes the instruction that loads it, or one that stores through
/// `I` onto it.
pub proof fn lemma_step_keeps_timers(mem: Seq<u8>, sample: u8)
    requires
        is_image(mem),
    ensures
        waiting_for_key(mem) || (!loads_delay_timer(opcode(mem)) && !stores_onto(
            mem,
            opcode(mem),
            DELAY_TIMER_ADDR as int,
        )) ==> delay_timer(step(mem, sample)) == delay_timer(mem),
        waiting_for_key(mem) || (!loads_sound_timer(opcode(mem)) && !stores_onto(
            mem,
            opcode(mem),
            SOUND_TIMER_ADDR as int,
        )) ==> sound_timer(step(mem, sample)) == sound_timer(mem),
{
    if !waiting_for_key(mem) {
        if stores_through_index(opcode(mem)) {
            lemma_store_within_frame(mem, opcode(mem), sample);
        } else {
            lemma_effect_within_frame(mem, opcode(mem), sample);
        }
    }
}

/// A running machine starts to wait for a key only in a step that executes
/// `LD Vx, K`, or one that stores through `I` onto the key-wait byte.
pub proof fn lemma_step_waits_only_after_ld_key(mem: Seq<u8>, sample: u8)
    requires
        is_image(mem),
        !waiting_for_key(mem),
        !stores_onto(mem, opcode(mem), WAIT_KEY_PRESS_FLAG_ADDR as int),
    ensures
        waiting_for_key(step(mem, sample)) <==> awaits_key(opcode(mem)),
{
    if stores_through_index(opcode(mem)) {
        lemma_store_within_frame(mem, opcode(mem), sample);
    } else {
        lemma_effect_within_frame(mem, opcode(mem), sample);
    }
}

/// The image after a run of steps, `samples` holding the random byte of each
/// step in turn.
pub open spec fn run(mem: Seq<u8>, samples: Seq<u8>) -> Seq<u8>
    decreases samples.len(),
{
    if samples.len() == 0 {
        mem
    } else {
        step(run(mem, samples.drop_last()), samples.last())
    }
}

/// A machine that waits for a key stays as it is through every run of steps;
/// only a key that goes down ends the wait.
pub proof fn lemma_wait_ends_only_by_key(mem: Seq<u8>, samples: Seq<u8>, key: u8, pressed: bool)
    requires
        is_image(mem),
        waiting_for_key(mem),
    ensures
        run(mem, samples) == mem,
        waiting_for_key(set_key_pressed(mem, key, pressed)) == !pressed,
    decreases samples.len(),
{
    if samples.len() > 0 {
        lemma_wait_ends_only_by_key(mem, samples.drop_last(), key, pressed);
    }
}

/// After a step the program counter points at the next instruction: unless
/// the instruction sets the program counter itself or stores through `I`
/// onto it, the program counter has moved by two, or by four if the
/// instruction is a skip whose condition holds.
pub proof fn lemma_step_moves_pc(mem: Seq<u8>, sample: u8)
    requires
        is_image(mem),
        !waiting_for_key(mem),
        !sets_program_counter(opcode(mem)),
        !stores_onto(mem, opcode(mem), PROGRAM_COUNTER_ADDR as int),
        !stores_onto(mem, opcode(mem), PROGRAM_COUNTER_ADDR + 1),
    ensures
        !is_skip(opcode(mem)) ==> program_counter(step(mem, sample)) == (program_counter(mem) + 2)
            % 0x10000,
        is_skip(opcode(mem)) ==> program_counter(step(mem, sample)) == (program_counter(mem) + 2)
            % 0x10000 || program_counter(step(mem, sample)) == (program_counter(mem) + 4)
            % 0x10000,
{
    if stores_through_index(opcode(mem)) {
        lemma_store_within_frame(mem, opcode(mem), sample);
        assert(program_counter(effect(mem, opcode(mem), sample)) == program_counter(mem));
    } else {
        lemma_effect_within_frame(mem, opcode(mem), sample);
    }
}

} // verus!
