use chip8::Chip8;

fn pixel(buffer: &[u8; 256], x: usize, y: usize) -> bool {
    buffer[y * 8 + x / 8] & (0x80 >> (x % 8)) != 0
}

fn with_sprite(sprite: &[u8], x: u8, y: u8) -> Chip8 {
    let mut chip8 = Chip8::new();
    chip8.set_i(0x300);
    for (row, byte) in sprite.iter().enumerate() {
        chip8.write_memory(0x300 + row, *byte);
    }
    chip8.set_v(0, x);
    chip8.set_v(1, y);
    chip8
}

fn expect_pixels(chip8: &Chip8, lit: &[(usize, usize)]) {
    let buffer = chip8.get_display_buffer();
    for y in 0..32 {
        for x in 0..64 {
            assert_eq!(pixel(&buffer, x, y), lit.contains(&(x, y)), "pixel ({}, {})", x, y);
        }
    }
}

#[test]
fn an_aligned_sprite_goes_into_one_byte_per_row() {
    let mut chip8 = with_sprite(&[0xF0, 0x81], 8, 2);
    chip8.drw(0, 1, 2);
    let buffer = chip8.get_display_buffer();
    assert_eq!(buffer[2 * 8 + 1], 0xF0);
    assert_eq!(buffer[3 * 8 + 1], 0x81);
    assert_eq!(buffer.iter().filter(|b| **b != 0).count(), 2);
    assert_eq!(chip8.get_v(0xF), 0);
}

#[test]
fn an_unaligned_sprite_is_split_over_two_bytes() {
    let mut chip8 = with_sprite(&[0b1011_0101], 11, 0);
    chip8.drw(0, 1, 1);
    let buffer = chip8.get_display_buffer();
    assert_eq!(buffer[1], 0b0001_0110);
    assert_eq!(buffer[2], 0b1010_0000);
    assert_eq!(buffer.iter().filter(|b| **b != 0).count(), 2);
    expect_pixels(&chip8, &[(11, 0), (13, 0), (14, 0), (16, 0), (18, 0)]);
}

#[test]
fn a_sprite_wraps_round_the_right_edge_within_its_row() {
    let mut chip8 = with_sprite(&[0xFF], 60, 5);
    chip8.drw(0, 1, 1);
    let buffer = chip8.get_display_buffer();
    assert_eq!(buffer[5 * 8 + 7], 0x0F);
    assert_eq!(buffer[5 * 8], 0xF0);
    assert_eq!(buffer.iter().filter(|b| **b != 0).count(), 2);
}

#[test]
fn a_sprite_wraps_round_the_bottom_edge() {
    let mut chip8 = with_sprite(&[0x80, 0x80, 0x80], 0, 30);
    chip8.drw(0, 1, 3);
    expect_pixels(&chip8, &[(0, 30), (0, 31), (0, 0)]);
}

#[test]
fn the_corner_wraps_before_the_sprite_is_placed() {
    let mut chip8 = with_sprite(&[0xC0], 64 + 3, 32 + 4);
    chip8.drw(0, 1, 1);
    expect_pixels(&chip8, &[(3, 4), (4, 4)]);

    let mut chip8 = with_sprite(&[0xC0], 255, 255);
    chip8.drw(0, 1, 1);
    expect_pixels(&chip8, &[(63, 31), (0, 31)]);
}

#[test]
fn only_the_low_nibble_of_the_height_counts() {
    let mut chip8 = with_sprite(&[0x80, 0x80, 0x80], 0, 0);
    chip8.drw(0, 1, 16 + 2);
    expect_pixels(&chip8, &[(0, 0), (0, 1)]);
}

#[test]
fn a_sprite_of_no_rows_draws_nothing_and_clears_vf() {
    let mut chip8 = with_sprite(&[0xFF], 0, 0);
    chip8.set_v(0xF, 1);
    chip8.drw(0, 1, 0);
    assert_eq!(chip8.get_display_buffer(), [0u8; 256]);
    assert_eq!(chip8.get_v(0xF), 0);
}

#[test]
fn a_lit_pixel_under_a_set_bit_is_a_collision() {
    let mut chip8 = with_sprite(&[0b1100_0000], 4, 4);
    chip8.write_memory(0x80 + 4 * 8, 0b0000_0100);
    chip8.drw(0, 1, 1);
    assert_eq!(chip8.get_v(0xF), 1);
    expect_pixels(&chip8, &[(4, 4)]);
}

#[test]
fn a_lit_pixel_beside_the_sprite_is_no_collision() {
    let mut chip8 = with_sprite(&[0b1100_0000], 4, 4);
    chip8.write_memory(0x80 + 4 * 8, 0b0000_0010);
    chip8.set_v(0xF, 1);
    chip8.drw(0, 1, 1);
    assert_eq!(chip8.get_v(0xF), 0);
    expect_pixels(&chip8, &[(4, 4), (5, 4), (6, 4)]);
}

#[test]
fn a_collision_in_the_second_byte_is_seen() {
    let mut chip8 = with_sprite(&[0b0000_0001], 4, 0);
    chip8.write_memory(0x80 + 1, 0b0001_0000);
    chip8.drw(0, 1, 1);
    assert_eq!(chip8.get_v(0xF), 1);
    assert_eq!(chip8.get_display_buffer(), [0u8; 256]);
}

#[test]
fn draw_leaves_everything_but_the_display_and_vf() {
    let mut chip8 = with_sprite(&[0xFF, 0x81, 0xFF], 13, 7);
    chip8.set_v(0xF, 9);
    let before = chip8.memory;
    chip8.drw(0, 1, 3);
    for addr in 0..4096 {
        if !(0x80..0x180).contains(&addr) && addr != 0x5F {
            assert_eq!(chip8.memory[addr], before[addr], "address {:#x}", addr);
        }
    }
    assert_eq!(chip8.get_v(0xF), 0);
}

#[test]
fn clear_then_draw_is_a_first_draw() {
    let sprite = [0x3C, 0x42, 0x81, 0x42, 0x3C];
    let mut fresh = with_sprite(&sprite, 21, 9);
    fresh.drw(0, 1, 5);

    let mut used = with_sprite(&sprite, 21, 9);
    for offset in 0..256 {
        used.write_memory(0x80 + offset, (offset * 7 + 3) as u8);
    }
    used.cls();
    assert_eq!(used.get_display_buffer(), [0u8; 256]);
    used.drw(0, 1, 5);

    assert_eq!(used.get_display_buffer(), fresh.get_display_buffer());
    assert_eq!(used.get_v(0xF), 0);
    assert_eq!(used.memory, fresh.memory);
}

#[test]
fn cls_through_a_step_touches_only_the_display() {
    let mut chip8 = Chip8::new();
    chip8.set_pc(0x200);
    chip8.write_memory(0x200, 0x00);
    chip8.write_memory(0x201, 0xE0);
    for offset in 0..256 {
        chip8.write_memory(0x80 + offset, 0xFF);
    }
    chip8.write_memory(0x7F, 0xEE);
    chip8.write_memory(0x180, 0xDD);
    chip8.execute_instruction();
    assert_eq!(chip8.get_display_buffer(), [0u8; 256]);
    assert_eq!(chip8.read_memory(0x7F), 0xEE);
    assert_eq!(chip8.read_memory(0x180), 0xDD);
    assert_eq!(chip8.get_pc(), 0x202);
}

#[test]
fn drawing_twice_restores_the_display() {
    let sprite = [0xA5, 0x5A, 0xFF, 0x00, 0x18];
    for x in [0u8, 3, 8, 59, 63] {
        for y in [0u8, 5, 29, 31] {
            let mut chip8 = with_sprite(&sprite, x, y);
            for offset in 0..256 {
                chip8.write_memory(0x80 + offset, (offset * 13 + 5) as u8);
            }
            let before = chip8.get_display_buffer();
            chip8.drw(0, 1, 5);
            assert_ne!(chip8.get_display_buffer(), before);
            chip8.drw(0, 1, 5);
            assert_eq!(chip8.get_display_buffer(), before);
        }
    }
}

#[test]
fn the_second_draw_collides_where_the_first_lit_a_dark_pixel() {
    // on a blank display the first draw lights the sprite, the second erases it
    let mut chip8 = with_sprite(&[0x80], 0, 0);
    chip8.drw(0, 1, 1);
    assert_eq!(chip8.get_v(0xF), 0);
    chip8.drw(0, 1, 1);
    assert_eq!(chip8.get_v(0xF), 1);
    assert_eq!(chip8.get_display_buffer(), [0u8; 256]);

    // where every pixel of the sprite was lit before, the second draw meets none
    let mut chip8 = with_sprite(&[0x80], 0, 0);
    chip8.write_memory(0x80, 0xC0);
    chip8.drw(0, 1, 1);
    assert_eq!(chip8.get_v(0xF), 1);
    chip8.drw(0, 1, 1);
    assert_eq!(chip8.get_v(0xF), 0);
    assert_eq!(chip8.get_display_buffer()[0], 0xC0);
}

#[test]
fn draw_through_a_step_shows_a_glyph() {
    // LD V2, 0xB; LD F, V2; LD V0, 10; LD V1, 3; DRW V0, V1, 5
    let program = [0x62, 0x0B, 0xF2, 0x29, 0x60, 0x0A, 0x61, 0x03, 0xD0, 0x15];
    let mut chip8 = Chip8::new();
    chip8.set_pc(0x200);
    for (offset, byte) in program.iter().enumerate() {
        chip8.write_memory(0x200 + offset, *byte);
    }
    for _ in 0..5 {
        chip8.execute_instruction();
    }
    assert_eq!(chip8.get_pc(), 0x20A);
    // B is E0 90 E0 90 E0
    expect_pixels(
        &chip8,
        &[
            (10, 3), (11, 3), (12, 3),
            (10, 4), (13, 4),
            (10, 5), (11, 5), (12, 5),
            (10, 6), (13, 6),
            (10, 7), (11, 7), (12, 7),
        ],
    );
    assert_eq!(chip8.get_v(0xF), 0);
}

#[test]
fn a_sprite_that_lies_in_the_display_is_drawn_as_it_stood() {
    // the second row of the sprite is the display byte that the first row is drawn on
    let mut chip8 = Chip8::new();
    chip8.set_i(0x7F);
    chip8.write_memory(0x7F, 0xFF);
    chip8.write_memory(0x80, 0x0F);
    chip8.drw(0, 1, 2);
    let buffer = chip8.get_display_buffer();
    assert_eq!(buffer[0], 0xF0);
    assert_eq!(buffer[8], 0x0F);
    assert_eq!(chip8.get_v(0xF), 1);
}

#[test]
fn the_sprite_is_read_round_the_end_of_memory() {
    let mut chip8 = Chip8::new();
    chip8.set_i(0x0FFF);
    chip8.write_memory(0x0FFF, 0x80);
    chip8.drw(0, 1, 2);
    // the second row is the byte at address 0: the top row of glyph 0
    let buffer = chip8.get_display_buffer();
    assert_eq!(buffer[0], 0x80);
    assert_eq!(buffer[8], 0xF0);
}
