//! The display and the sprite instruction.
//!
//! The display has 64 columns and 32 rows. A row is eight bytes, and within a
//! byte the leftmost pixel is the highest bit.

use vstd::prelude::*;
use vstd::arithmetic::div_mod::lemma_fundamental_div_mod_converse;
use crate::bits::{
    bit, byte_of_bits, lemma_and_nonzero, lemma_bit_shl, lemma_bit_shr, lemma_bit_xor,
    lemma_bit_zero, lemma_byte_of_bits, lemma_byte_of_bits_unique, lemma_xor_zero,
};
use crate::layout::{
    DISPLAY_BUFFER_ADDR, DISPLAY_BUFFER_SIZE, DISPLAY_HEIGHT, DISPLAY_WIDTH, FLAG_REGISTER,
    V_REGISTERS_ADDR,
};
use crate::state::{byte_at, index_register, is_image, reg, set_reg};

verus! {

/// `px` and `py` name a pixel of the display.
pub open spec fn on_display(px: int, py: int) -> bool {
    0 <= px < DISPLAY_WIDTH && 0 <= py < DISPLAY_HEIGHT
}

/// The pixel in column `px` of row `py` is lit.
pub open spec fn pixel(mem: Seq<u8>, px: int, py: int) -> bool {
    bit(mem[DISPLAY_BUFFER_ADDR + py * 8 + px / 8], (7 - px % 8) as u8)
}

/// The sprite of `DRW Vx, Vy, n` covers the pixel (`px`, `py`) with a set bit.
///
/// The sprite has `n mod 16` rows of eight pixels, row `r` being the byte at
/// `I + r`, highest bit leftmost. Its top left corner is at column `V[x]`,
/// row `V[y]`, and both coordinates of each of its pixels wrap round the
/// display.
pub open spec fn sprite_pixel(mem: Seq<u8>, x: u8, y: u8, n: u8, px: int, py: int) -> bool {
    let column = (px - reg(mem, x)) % 64;
    let row = (py - reg(mem, y)) % 32;
    column < 8 && row < n % 16 && bit(
        byte_at(mem, index_register(mem) + row),
        (7 - column) as u8,
    )
}

/// A set bit of the sprite meets a lit pixel at (`px`, `py`).
pub open spec fn hit(mem: Seq<u8>, x: u8, y: u8, n: u8, px: int, py: int) -> bool {
    pixel(mem, px, py) && sprite_pixel(mem, x, y, n, px, py)
}

/// Some set bit of the sprite meets a lit pixel.
pub open spec fn collides(mem: Seq<u8>, x: u8, y: u8, n: u8) -> bool {
    exists|px: int, py: int| on_display(px, py) && #[trigger] hit(mem, x, y, n, px, py)
}

/// The bits of the display byte at `offset` after the sprite is drawn. Bit
/// `k` is the pixel in column `8 * (offset % 8) + 7 - k` of row `offset / 8`,
/// flipped where the sprite covers it with a set bit.
pub open spec fn drawn_bits(mem: Seq<u8>, x: u8, y: u8, n: u8, offset: int) -> spec_fn(int) -> bool {
    |k: int|
        pixel(mem, 8 * (offset % 8) + 7 - k, offset / 8) != sprite_pixel(
            mem,
            x,
            y,
            n,
            8 * (offset % 8) + 7 - k,
            offset / 8,
        )
}

/// The display byte at `offset` after the sprite is drawn.
pub open spec fn drawn_byte(mem: Seq<u8>, x: u8, y: u8, n: u8, offset: int) -> u8 {
    byte_of_bits(drawn_bits(mem, x, y, n, offset))
}

/// `DRW Vx, Vy, n`: the sprite, as it stands in memory before the
/// instruction, is drawn in exclusive or, and `VF` says whether it collided.
pub open spec fn drw(mem: Seq<u8>, x: u8, y: u8, n: u8) -> Seq<u8> {
    Seq::new(
        mem.len(),
        |a: int|
            if DISPLAY_BUFFER_ADDR <= a < DISPLAY_BUFFER_ADDR + DISPLAY_BUFFER_SIZE {
                drawn_byte(mem, x, y, n, a - DISPLAY_BUFFER_ADDR)
            } else if a == V_REGISTERS_ADDR + FLAG_REGISTER {
                if collides(mem, x, y, n) {
                    1u8
                } else {
                    0u8
                }
            } else {
                mem[a]
            },
    )
}

/// The display row that holds row `r` of the sprite.
pub open spec fn sprite_line(mem: Seq<u8>, y: u8, r: int) -> int {
    (reg(mem, y) + r) % 32
}

/// What row `r` of the sprite, the byte `data`, brings to byte `c` of its
/// display row: the sprite starts in byte `left`, `shift` pixels in, and what
/// is shifted out of that byte enters the next one, which after the last byte
/// of the row is the first.
pub open spec fn sprite_mask(data: u8, vx: u8, c: int) -> u8 {
    let left = vx % 64 / 8;
    let shift = vx % 8;
    if c == left {
        data >> shift
    } else if c == (left + 1) % 8 && shift != 0 {
        data << ((8 - shift) as u8)
    } else {
        0u8
    }
}

/// Where the pixel behind bit `k` of byte `c` of a display row falls in a
/// sprite whose left edge is in column `vx`: its column within the sprite,
/// counted from that edge and wrapped round the display.
pub proof fn lemma_sprite_column(vx: int, c: int, k: int)
    requires
        0 <= vx < 256,
        0 <= c < 8,
        0 <= k < 8,
    ensures
        ({
            let left = vx % 64 / 8;
            let shift = vx % 8;
            let column = (8 * c + 7 - k - vx) % 64;
            &&& c == left ==> column == if k + shift <= 7 {
                7 - k - shift
            } else {
                71 - k - shift
            }
            &&& c == (left + 1) % 8 ==> column == 15 - k - shift
            &&& c != left && c != (left + 1) % 8 ==> 8 <= column
        }),
{
    let q = vx / 64;
    let left = vx % 64 / 8;
    let shift = vx % 8;
    let x = 8 * c + 7 - k - vx;
    assert(vx == 64 * q + 8 * left + shift);
    let e = c - left;
    if e == 0 {
        if k + shift <= 7 {
            lemma_fundamental_div_mod_converse(x, 64, -q, 7 - k - shift);
        } else {
            lemma_fundamental_div_mod_converse(x, 64, -q - 1, 71 - k - shift);
        }
    } else if e == 1 {
        lemma_fundamental_div_mod_converse(x, 64, -q, 15 - k - shift);
    } else if e == -7 {
        lemma_fundamental_div_mod_converse(x, 64, -q - 1, 15 - k - shift);
    } else if e >= 2 {
        lemma_fundamental_div_mod_converse(x, 64, -q, 8 * e + 7 - k - shift);
    } else {
        lemma_fundamental_div_mod_converse(x, 64, -q - 1, 64 + 8 * e + 7 - k - shift);
    }
}

/// Bit `k` of display byte `c` in the display row of sprite row `r` is one
/// pixel; the sprite covers that pixel just where its mask has bit `k`.
pub proof fn lemma_sprite_bit(mem: Seq<u8>, x: u8, y: u8, n: u8, r: int, c: int, k: int)
    requires
        is_image(mem),
        0 <= r < n % 16,
        0 <= c < 8,
        0 <= k < 8,
    ensures
        pixel(mem, 8 * c + 7 - k, sprite_line(mem, y, r)) == bit(
            mem[DISPLAY_BUFFER_ADDR + sprite_line(mem, y, r) * 8 + c],
            k as u8,
        ),
        sprite_pixel(mem, x, y, n, 8 * c + 7 - k, sprite_line(mem, y, r)) == bit(
            sprite_mask(byte_at(mem, index_register(mem) + r), reg(mem, x), c),
            k as u8,
        ),
{
    let vx = reg(mem, x);
    let vy = reg(mem, y);
    let line = sprite_line(mem, y, r);
    let px = 8 * c + 7 - k;
    let data = byte_at(mem, index_register(mem) + r);
    let left = vx % 64 / 8;
    let shift = vx % 8;
    let column = (px - vx) % 64;
    assert(px / 8 == c && px % 8 == 7 - k);
    assert((line - vy) % 32 == r);
    lemma_sprite_column(vx as int, c, k);
    if c == left {
        lemma_bit_shr(data, shift, k as u8);
    } else if c == (left + 1) % 8 && shift != 0 {
        lemma_bit_shl(data, (8 - shift) as u8, k as u8);
    } else {
        lemma_bit_zero(k as u8);
    }
}

/// The sprite row that display row `py` shows, if the sprite is that tall.
pub open spec fn sprite_row(mem: Seq<u8>, y: u8, py: int) -> int {
    (py - reg(mem, y)) % 32
}

/// `mem` with the first `rows` rows of the sprite drawn; `VF` is not yet
/// written.
pub open spec fn drawn_upto(mem: Seq<u8>, x: u8, y: u8, n: u8, rows: int) -> Seq<u8> {
    Seq::new(
        mem.len(),
        |a: int|
            if DISPLAY_BUFFER_ADDR <= a < DISPLAY_BUFFER_ADDR + DISPLAY_BUFFER_SIZE && sprite_row(
                mem,
                y,
                (a - DISPLAY_BUFFER_ADDR) / 8,
            ) < rows {
                drawn_byte(mem, x, y, n, a - DISPLAY_BUFFER_ADDR)
            } else {
                mem[a]
            },
    )
}

/// One of the first `rows` rows of the sprite meets a lit pixel with a set
/// bit.
pub open spec fn collides_upto(mem: Seq<u8>, x: u8, y: u8, n: u8, rows: int) -> bool {
    exists|px: int, py: int|
        on_display(px, py) && sprite_row(mem, y, py) < rows && #[trigger] hit(mem, x, y, n, px, py)
}

/// A display row that the sprite does not reach keeps its bytes.
pub proof fn lemma_drawn_byte_outside(mem: Seq<u8>, x: u8, y: u8, n: u8, offset: int)
    requires
        is_image(mem),
        0 <= offset < 256,
        sprite_row(mem, y, offset / 8) >= n % 16,
    ensures
        drawn_byte(mem, x, y, n, offset) == mem[DISPLAY_BUFFER_ADDR + offset],
{
    let bits = drawn_bits(mem, x, y, n, offset);
    let v = mem[DISPLAY_BUFFER_ADDR + offset];
    assert forall|k: int| 0 <= k < 8 implies bit(v, k as u8) == #[trigger] bits(k) by {
        let px = 8 * (offset % 8) + 7 - k;
        assert(px / 8 == offset % 8 && px % 8 == 7 - k);
    }
    lemma_byte_of_bits_unique(v, bits);
}

/// In the display row of sprite row `r`, byte `c` takes the sprite's mask in
/// exclusive or.
pub proof fn lemma_drawn_byte_in_row(mem: Seq<u8>, x: u8, y: u8, n: u8, r: int, c: int)
    requires
        is_image(mem),
        0 <= r < n % 16,
        0 <= c < 8,
    ensures
        drawn_byte(mem, x, y, n, sprite_line(mem, y, r) * 8 + c) == mem[DISPLAY_BUFFER_ADDR
            + sprite_line(mem, y, r) * 8 + c] ^ sprite_mask(
            byte_at(mem, index_register(mem) + r),
            reg(mem, x),
            c,
        ),
{
    let offset = sprite_line(mem, y, r) * 8 + c;
    let bits = drawn_bits(mem, x, y, n, offset);
    let old_byte = mem[DISPLAY_BUFFER_ADDR + offset];
    let mask = sprite_mask(byte_at(mem, index_register(mem) + r), reg(mem, x), c);
    assert(offset % 8 == c && offset / 8 == sprite_line(mem, y, r));
    assert forall|k: int| 0 <= k < 8 implies bit(old_byte ^ mask, k as u8) == #[trigger] bits(
        k,
    ) by {
        lemma_sprite_bit(mem, x, y, n, r, c, k);
        lemma_bit_xor(old_byte, mask, k as u8);
    }
    lemma_byte_of_bits_unique(old_byte ^ mask, bits);
}

/// Display row `py` shows sprite row `r` just if it is the display row of
/// that sprite row.
pub proof fn lemma_line_of_row(vy: int, r: int, py: int)
    requires
        0 <= vy < 256,
        0 <= r < 32,
        0 <= py < 32,
    ensures
        ((py - vy) % 32 == r) <==> (py == (vy + r) % 32),
{
}

/// Drawing row `r` after the rows before it: the byte where the sprite
/// starts takes the left mask in exclusive or and, unless the sprite is
/// aligned to a byte, the next byte of the row takes the right mask.
pub proof fn lemma_draw_row(mem: Seq<u8>, x: u8, y: u8, n: u8, r: int)
    requires
        is_image(mem),
        0 <= r < n % 16,
    ensures
        ({
            let vx = reg(mem, x);
            let data = byte_at(mem, index_register(mem) + r);
            let base = DISPLAY_BUFFER_ADDR + sprite_line(mem, y, r) * 8;
            let left = base + vx % 64 / 8;
            let right = base + (vx % 64 / 8 + 1) % 8;
            let before = drawn_upto(mem, x, y, n, r);
            let with_left = before.update(left, before[left] ^ (data >> (vx % 8)));
            let with_both = with_left.update(
                right,
                with_left[right] ^ (data << ((8 - vx % 8) as u8)),
            );
            &&& before[left] == mem[left]
            &&& with_left[right] == mem[right]
            &&& drawn_upto(mem, x, y, n, r + 1) == if vx % 8 != 0 {
                with_both
            } else {
                with_left
            }
        }),
{
    let vx = reg(mem, x);
    let vy = reg(mem, y);
    let data = byte_at(mem, index_register(mem) + r);
    let line = sprite_line(mem, y, r);
    let base = DISPLAY_BUFFER_ADDR + line * 8;
    let left = base + vx % 64 / 8;
    let right = base + (vx % 64 / 8 + 1) % 8;
    let before = drawn_upto(mem, x, y, n, r);
    let with_left = before.update(left, before[left] ^ (data >> (vx % 8)));
    let with_both = with_left.update(right, with_left[right] ^ (data << ((8 - vx % 8) as u8)));
    let after = if vx % 8 != 0 {
        with_both
    } else {
        with_left
    };
    let lc = (vx % 64 / 8) as int;
    let rc = (vx % 64 / 8 + 1) % 8;
    lemma_line_of_row(vy as int, r, line);
    assert(sprite_row(mem, y, (left - DISPLAY_BUFFER_ADDR) / 8) == r);
    assert(sprite_row(mem, y, (right - DISPLAY_BUFFER_ADDR) / 8) == r);
    assert(before[left] == mem[left]);
    assert(with_left[right] == mem[right]);
    assert forall|a: int| 0 <= a < 4096 implies drawn_upto(mem, x, y, n, r + 1)[a] == after[a] by {
        if DISPLAY_BUFFER_ADDR <= a < DISPLAY_BUFFER_ADDR + DISPLAY_BUFFER_SIZE {
            let offset = a - DISPLAY_BUFFER_ADDR;
            lemma_line_of_row(vy as int, r, offset / 8);
            if offset / 8 == line {
                let c = offset % 8;
                assert(a == base + c);
                lemma_drawn_byte_in_row(mem, x, y, n, r, c);
                if c == lc {
                    assert(after[a] == mem[a] ^ (data >> (vx % 8)));
                } else if c == rc && vx % 8 != 0 {
                    assert(after[a] == mem[a] ^ (data << ((8 - vx % 8) as u8)));
                } else {
                    lemma_xor_zero(mem[a]);
                    assert(after[a] == mem[a]);
                }
            } else {
                assert(after[a] == before[a]);
            }
        } else {
            assert(after[a] == mem[a]);
        }
    }
    assert(drawn_upto(mem, x, y, n, r + 1) =~= after);
}

/// A set bit that a display byte in the row of sprite row `r` shares with
/// the sprite's mask is a collision in that row.
proof fn lemma_shared_bit_collides(mem: Seq<u8>, x: u8, y: u8, n: u8, r: int, c: int, k: u8)
    requires
        is_image(mem),
        0 <= r < n % 16,
        0 <= c < 8,
        k < 8,
        bit(mem[DISPLAY_BUFFER_ADDR + sprite_line(mem, y, r) * 8 + c], k),
        bit(sprite_mask(byte_at(mem, index_register(mem) + r), reg(mem, x), c), k),
    ensures
        collides_upto(mem, x, y, n, r + 1),
{
    let line = sprite_line(mem, y, r);
    lemma_sprite_bit(mem, x, y, n, r, c, k as int);
    lemma_line_of_row(reg(mem, y) as int, r, line);
    assert(on_display(8 * c + 7 - k, line));
    assert(hit(mem, x, y, n, 8 * c + 7 - k, line));
}

/// A display byte in the row of sprite row `r` that has a set bit in common
/// with the sprite's mask is a collision in that row.
proof fn lemma_overlap_collides(mem: Seq<u8>, x: u8, y: u8, n: u8, r: int, c: int)
    requires
        is_image(mem),
        0 <= r < n % 16,
        0 <= c < 8,
        mem[DISPLAY_BUFFER_ADDR + sprite_line(mem, y, r) * 8 + c] & sprite_mask(
            byte_at(mem, index_register(mem) + r),
            reg(mem, x),
            c,
        ) != 0,
    ensures
        collides_upto(mem, x, y, n, r + 1),
{
    let a = mem[DISPLAY_BUFFER_ADDR + sprite_line(mem, y, r) * 8 + c];
    let m = sprite_mask(byte_at(mem, index_register(mem) + r), reg(mem, x), c);
    lemma_and_nonzero(a, m);
    if bit(a, 0) && bit(m, 0) {
        lemma_shared_bit_collides(mem, x, y, n, r, c, 0);
    } else if bit(a, 1) && bit(m, 1) {
        lemma_shared_bit_collides(mem, x, y, n, r, c, 1);
    } else if bit(a, 2) && bit(m, 2) {
        lemma_shared_bit_collides(mem, x, y, n, r, c, 2);
    } else if bit(a, 3) && bit(m, 3) {
        lemma_shared_bit_collides(mem, x, y, n, r, c, 3);
    } else if bit(a, 4) && bit(m, 4) {
        lemma_shared_bit_collides(mem, x, y, n, r, c, 4);
    } else if bit(a, 5) && bit(m, 5) {
        lemma_shared_bit_collides(mem, x, y, n, r, c, 5);
    } else if bit(a, 6) && bit(m, 6) {
        lemma_shared_bit_collides(mem, x, y, n, r, c, 6);
    } else {
        lemma_shared_bit_collides(mem, x, y, n, r, c, 7);
    }
}

/// A collision at a pixel of the display row of sprite row `r` shows in the
/// byte that holds the pixel: it has a set bit in common with the sprite's
/// mask.
proof fn lemma_hit_overlaps(mem: Seq<u8>, x: u8, y: u8, n: u8, r: int, px: int)
    requires
        is_image(mem),
        0 <= r < n % 16,
        0 <= px < 64,
        hit(mem, x, y, n, px, sprite_line(mem, y, r)),
    ensures
        mem[DISPLAY_BUFFER_ADDR + sprite_line(mem, y, r) * 8 + px / 8] & sprite_mask(
            byte_at(mem, index_register(mem) + r),
            reg(mem, x),
            px / 8,
        ) != 0,
{
    let c = px / 8;
    let k = 7 - px % 8;
    let a = mem[DISPLAY_BUFFER_ADDR + sprite_line(mem, y, r) * 8 + c];
    let m = sprite_mask(byte_at(mem, index_register(mem) + r), reg(mem, x), c);
    assert(px == 8 * c + 7 - k);
    lemma_sprite_bit(mem, x, y, n, r, c, k);
    assert(bit(a, k as u8) && bit(m, k as u8));
    lemma_and_nonzero(a, m);
}

/// Row `r` adds to the collisions of the rows before it what its two bytes
/// have in common with the sprite's masks.
pub proof fn lemma_collides_row(mem: Seq<u8>, x: u8, y: u8, n: u8, r: int)
    requires
        is_image(mem),
        0 <= r < n % 16,
    ensures
        ({
            let vx = reg(mem, x);
            let data = byte_at(mem, index_register(mem) + r);
            let base = DISPLAY_BUFFER_ADDR + sprite_line(mem, y, r) * 8;
            let left = base + vx % 64 / 8;
            let right = base + (vx % 64 / 8 + 1) % 8;
            collides_upto(mem, x, y, n, r + 1) == (collides_upto(mem, x, y, n, r) || mem[left] & (
            data >> (vx % 8)) != 0 || (vx % 8 != 0 && mem[right] & (data << ((8 - vx % 8) as u8))
                != 0))
        }),
{
    let vx = reg(mem, x);
    let vy = reg(mem, y);
    let data = byte_at(mem, index_register(mem) + r);
    let line = sprite_line(mem, y, r);
    let base = DISPLAY_BUFFER_ADDR + line * 8;
    let lc = (vx % 64 / 8) as int;
    let rc = (vx % 64 / 8 + 1) % 8;
    let left = base + lc;
    let right = base + rc;
    let left_overlap = mem[left] & (data >> (vx % 8)) != 0;
    let right_overlap = vx % 8 != 0 && mem[right] & (data << ((8 - vx % 8) as u8)) != 0;
    if collides_upto(mem, x, y, n, r) {
        let (px, py) = choose|px: int, py: int|
            on_display(px, py) && sprite_row(mem, y, py) < r && #[trigger] hit(
                mem,
                x,
                y,
                n,
                px,
                py,
            );
        assert(on_display(px, py) && sprite_row(mem, y, py) < r + 1 && hit(mem, x, y, n, px, py));
    }
    if left_overlap {
        lemma_overlap_collides(mem, x, y, n, r, lc);
    }
    if right_overlap {
        lemma_overlap_collides(mem, x, y, n, r, rc);
    }
    if collides_upto(mem, x, y, n, r + 1) && !collides_upto(mem, x, y, n, r) {
        let (px, py) = choose|px: int, py: int|
            on_display(px, py) && sprite_row(mem, y, py) < r + 1 && #[trigger] hit(
                mem,
                x,
                y,
                n,
                px,
                py,
            );
        assert(sprite_row(mem, y, py) == r);
        lemma_line_of_row(vy as int, r, py);
        lemma_hit_overlaps(mem, x, y, n, r, px);
        let c = px / 8;
        let m = sprite_mask(data, vx, c);
        if c != lc && !(c == rc && vx % 8 != 0) {
            assert(m == 0);
            lemma_and_nonzero(mem[base + c], 0);
            lemma_bit_zero(0);
            lemma_bit_zero(1);
            lemma_bit_zero(2);
            lemma_bit_zero(3);
            lemma_bit_zero(4);
            lemma_bit_zero(5);
            lemma_bit_zero(6);
            lemma_bit_zero(7);
        }
    }
}

/// Drawing is drawing every row of the sprite and then writing `VF`.
pub proof fn lemma_drw_by_rows(mem: Seq<u8>, x: u8, y: u8, n: u8)
    requires
        is_image(mem),
    ensures
        collides(mem, x, y, n) == collides_upto(mem, x, y, n, (n % 16) as int),
        drw(mem, x, y, n) == set_reg(
            drawn_upto(mem, x, y, n, (n % 16) as int),
            FLAG_REGISTER,
            if collides_upto(mem, x, y, n, (n % 16) as int) {
                1u8
            } else {
                0u8
            },
        ),
{
    let rows = (n % 16) as int;
    if collides(mem, x, y, n) {
        let (px, py) = choose|px: int, py: int|
            on_display(px, py) && #[trigger] hit(mem, x, y, n, px, py);
        assert(on_display(px, py) && sprite_row(mem, y, py) < rows && hit(mem, x, y, n, px, py));
    }
    if collides_upto(mem, x, y, n, rows) {
        let (px, py) = choose|px: int, py: int|
            on_display(px, py) && sprite_row(mem, y, py) < rows && #[trigger] hit(
                mem,
                x,
                y,
                n,
                px,
                py,
            );
        assert(on_display(px, py) && hit(mem, x, y, n, px, py));
    }
    let flag = if collides_upto(mem, x, y, n, rows) {
        1u8
    } else {
        0u8
    };
    let by_rows = set_reg(drawn_upto(mem, x, y, n, rows), FLAG_REGISTER, flag);
    assert forall|a: int| 0 <= a < 4096 implies drw(mem, x, y, n)[a] == by_rows[a] by {
        if DISPLAY_BUFFER_ADDR <= a < DISPLAY_BUFFER_ADDR + DISPLAY_BUFFER_SIZE {
            let offset = a - DISPLAY_BUFFER_ADDR;
            if sprite_row(mem, y, offset / 8) >= rows {
                lemma_drawn_byte_outside(mem, x, y, n, offset);
            }
        }
    }
    assert(drw(mem, x, y, n) =~= by_rows);
}

/// After `DRW` a pixel is lit just if it was lit or is covered by a set bit
/// of the sprite, and not both; and `VF` tells of a collision.
pub proof fn lemma_drw_pixels(mem: Seq<u8>, x: u8, y: u8, n: u8)
    requires
        is_image(mem),
    ensures
        forall|px: int, py: int|
            on_display(px, py) ==> #[trigger] pixel(drw(mem, x, y, n), px, py) == (pixel(
                mem,
                px,
                py,
            ) != sprite_pixel(mem, x, y, n, px, py)),
        reg(drw(mem, x, y, n), FLAG_REGISTER) == if collides(mem, x, y, n) {
            1int
        } else {
            0int
        },
{
    assert forall|px: int, py: int| on_display(px, py) implies #[trigger] pixel(
        drw(mem, x, y, n),
        px,
        py,
    ) == (pixel(mem, px, py) != sprite_pixel(mem, x, y, n, px, py)) by {
        let offset = py * 8 + px / 8;
        let k = 7 - px % 8;
        assert(offset % 8 == px / 8 && offset / 8 == py);
        assert(8 * (offset % 8) + 7 - k == px);
        lemma_byte_of_bits(drawn_bits(mem, x, y, n, offset), k);
    }
}

} // verus!
