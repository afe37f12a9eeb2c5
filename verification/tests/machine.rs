use chip8::layout::PROGRAM_ADDR;
use chip8::Chip8;

fn machine_at(pc: u16, program: &[u8]) -> Chip8 {
    let mut chip8 = Chip8::new();
    chip8.set_pc(pc);
    for (offset, byte) in program.iter().enumerate() {
        chip8.write_memory(pc as usize + offset, *byte);
    }
    chip8
}

#[test]
fn new_installs_the_font_and_zeroes_the_rest() {
    let chip8 = Chip8::new();
    let zero = [0xF0, 0x90, 0x90, 0x90, 0xF0];
    let one = [0x20, 0x60, 0x20, 0x20, 0x70];
    let seven = [0xF0, 0x10, 0x20, 0x40, 0x40];
    let b = [0xE0, 0x90, 0xE0, 0x90, 0xE0];
    let f = [0xF0, 0x80, 0xF0, 0x80, 0x80];
    for row in 0..5 {
        assert_eq!(chip8.read_memory(row), zero[row]);
        assert_eq!(chip8.read_memory(5 + row), one[row]);
        assert_eq!(chip8.read_memory(7 * 5 + row), seven[row]);
        assert_eq!(chip8.read_memory(0xB * 5 + row), b[row]);
        assert_eq!(chip8.read_memory(0xF * 5 + row), f[row]);
    }
    for addr in 80..4096 {
        assert_eq!(chip8.read_memory(addr), 0, "address {}", addr);
    }
    assert_eq!(chip8.get_pc(), 0);
    assert_eq!(chip8.get_i(), 0);
    assert_eq!(chip8.get_sp(), 0);
    assert_eq!(chip8.get_dt(), 0);
    assert_eq!(chip8.get_st(), 0);
    assert!(!chip8.is_waiting_for_key());
    for key in 0..16 {
        assert!(!chip8.get_key_pressed(key));
    }
    assert_eq!(chip8.get_display_buffer(), [0u8; 256]);
}

#[test]
fn every_glyph_row_keeps_its_low_nibble_clear() {
    let chip8 = Chip8::new();
    for addr in 0..80 {
        assert_eq!(chip8.read_memory(addr) & 0x0F, 0);
    }
}

#[test]
fn memory_addresses_wrap_at_4096() {
    let mut chip8 = Chip8::new();
    chip8.write_memory(4096 + 0x300, 0xAB);
    assert_eq!(chip8.read_memory(0x300), 0xAB);
    assert_eq!(chip8.read_memory(3 * 4096 + 0x300), 0xAB);
    assert_eq!(chip8.memory[0x300], 0xAB);
}

#[test]
fn registers_live_at_their_addresses() {
    let mut chip8 = Chip8::new();
    for index in 0..16u8 {
        chip8.set_v(index, 0xA0 + index);
    }
    for index in 0..16u8 {
        assert_eq!(chip8.get_v(index), 0xA0 + index);
        assert_eq!(chip8.read_memory(0x50 + index as usize), 0xA0 + index);
    }
    chip8.set_sp(3);
    chip8.set_st(4);
    chip8.set_dt(5);
    assert_eq!(chip8.read_memory(0x180), 3);
    assert_eq!(chip8.read_memory(0x181), 4);
    assert_eq!(chip8.read_memory(0x182), 5);
    assert_eq!((chip8.get_sp(), chip8.get_st(), chip8.get_dt()), (3, 4, 5));
}

#[test]
fn register_and_key_numbers_wrap_at_16() {
    let mut chip8 = Chip8::new();
    chip8.set_v(0x13, 7);
    assert_eq!(chip8.get_v(3), 7);
    assert_eq!(chip8.get_v(0x23), 7);
    chip8.set_key_pressed(0x15, true);
    assert!(chip8.get_key_pressed(5));
    assert!(chip8.get_key_pressed(0x25));
    assert_eq!(chip8.read_memory(0x188 + 5), 1);
}

#[test]
fn words_are_stored_high_byte_first() {
    let mut chip8 = Chip8::new();
    chip8.set_pc(0x1234);
    chip8.set_i(0xABCD);
    assert_eq!(chip8.read_memory(0x183), 0x12);
    assert_eq!(chip8.read_memory(0x184), 0x34);
    assert_eq!(chip8.read_memory(0x185), 0xAB);
    assert_eq!(chip8.read_memory(0x186), 0xCD);
    assert_eq!(chip8.get_pc(), 0x1234);
    assert_eq!(chip8.get_i(), 0xABCD);
    chip8.write_memory(0x183, 0xFE);
    assert_eq!(chip8.get_pc(), 0xFE34);
}

#[test]
fn fetch_reads_a_big_endian_word() {
    let chip8 = machine_at(0x200, &[0xA2, 0xF0]);
    assert_eq!(chip8.fetch_opcode(), 0xA2F0);
}

#[test]
fn fetch_wraps_round_the_end_of_memory() {
    let mut chip8 = Chip8::new();
    chip8.set_pc(0x0FFF);
    chip8.write_memory(0x0FFF, 0x61);
    assert_eq!(chip8.fetch_opcode(), 0x61F0);
    chip8.set_pc(0x1FFF);
    assert_eq!(chip8.fetch_opcode(), 0x61F0);
}

#[test]
fn push_and_pop_use_the_slot_that_the_stack_pointer_names() {
    let mut chip8 = Chip8::new();
    chip8.push_into_stack(0x0ABC);
    assert_eq!(chip8.get_sp(), 1);
    assert_eq!(chip8.read_memory(0x62), 0x0A);
    assert_eq!(chip8.read_memory(0x63), 0xBC);
    chip8.push_into_stack(0x0DEF);
    assert_eq!(chip8.get_sp(), 2);
    assert_eq!(chip8.pop_from_stack(), 0x0DEF);
    assert_eq!(chip8.pop_from_stack(), 0x0ABC);
    assert_eq!(chip8.get_sp(), 0);
}

#[test]
fn sixteen_levels_fit_in_the_stack() {
    let mut chip8 = Chip8::new();
    let display_before = chip8.get_display_buffer();
    for level in 1..=16u16 {
        chip8.push_into_stack(0x200 + level);
    }
    assert_eq!(chip8.get_sp(), 16);
    assert_eq!(chip8.read_memory(0x60), 0x02);
    assert_eq!(chip8.read_memory(0x61), 0x10);
    assert_eq!(chip8.get_display_buffer(), display_before);
    for level in (1..=16u16).rev() {
        assert_eq!(chip8.pop_from_stack(), 0x200 + level);
    }
    assert_eq!(chip8.get_sp(), 0);
}

#[test]
fn the_stack_pointer_wraps() {
    let mut chip8 = Chip8::new();
    assert_eq!(chip8.pop_from_stack(), 0);
    assert_eq!(chip8.get_sp(), 255);
    chip8.push_into_stack(0x0321);
    assert_eq!(chip8.get_sp(), 0);
    assert_eq!(chip8.read_memory(0x60), 0x03);
    assert_eq!(chip8.read_memory(0x61), 0x21);
}

#[test]
fn display_buffer_is_the_display_region() {
    let mut chip8 = Chip8::new();
    chip8.write_memory(0x80, 0x12);
    chip8.write_memory(0x17F, 0x34);
    chip8.write_memory(0x7F, 0x56);
    chip8.write_memory(0x180, 0x78);
    let buffer = chip8.get_display_buffer();
    assert_eq!(buffer[0], 0x12);
    assert_eq!(buffer[255], 0x34);
    assert_eq!(buffer[1..255].iter().filter(|b| **b != 0).count(), 0);
}

#[test]
fn key_wait_flag_and_destination_share_a_byte() {
    let mut chip8 = Chip8::new();
    chip8.set_waiting_key_destination(0xA);
    assert_eq!(chip8.get_waiting_key_destination(), 0xA);
    assert!(!chip8.is_waiting_for_key());
    chip8.set_waiting_for_key();
    assert!(chip8.is_waiting_for_key());
    assert_eq!(chip8.read_memory(0x187), 0x8A);
    chip8.set_waiting_key_destination(0x3);
    assert_eq!(chip8.read_memory(0x187), 0x83);
    chip8.clear_waiting_for_key();
    assert!(!chip8.is_waiting_for_key());
    assert_eq!(chip8.read_memory(0x187), 0x03);
    chip8.write_memory(0x187, 0x7F);
    assert!(!chip8.is_waiting_for_key());
    chip8.set_waiting_for_key();
    assert_eq!(chip8.read_memory(0x187), 0xFF);
}

#[test]
fn set_key_pressed_sets_and_clears_the_flag() {
    let mut chip8 = Chip8::new();
    chip8.set_key_pressed(9, true);
    assert!(chip8.get_key_pressed(9));
    assert_eq!(chip8.read_memory(0x188 + 9), 1);
    assert!(!chip8.get_key_pressed(8));
    chip8.set_key_pressed(9, false);
    assert!(!chip8.get_key_pressed(9));
    assert_eq!(chip8.get_v(0), 0);
}

#[test]
fn any_non_zero_flag_is_a_pressed_key() {
    let mut chip8 = Chip8::new();
    chip8.write_memory(0x188 + 2, 0x40);
    assert!(chip8.get_key_pressed(2));
}

#[test]
fn key_wait_scenario() {
    // LD V3, K; LD V0, 0x11
    let mut chip8 = machine_at(0x200, &[0xF3, 0x0A, 0x60, 0x11]);
    chip8.execute_instruction();
    assert!(chip8.is_waiting_for_key());
    assert_eq!(chip8.get_waiting_key_destination(), 3);
    assert_eq!(chip8.get_pc(), 0x202);

    let blocked = chip8.memory;
    chip8.execute_instruction();
    assert_eq!(chip8.memory, blocked);
    assert_eq!(chip8.get_pc(), 0x202);

    chip8.set_key_pressed(5, false);
    assert!(chip8.is_waiting_for_key());

    chip8.set_key_pressed(5, true);
    assert!(!chip8.is_waiting_for_key());
    assert_eq!(chip8.get_v(3), 5);
    assert!(chip8.get_key_pressed(5));

    chip8.execute_instruction();
    assert_eq!(chip8.get_v(0), 0x11);
    assert_eq!(chip8.get_pc(), 0x204);
}

#[test]
fn a_key_press_while_running_touches_no_register() {
    let mut chip8 = Chip8::new();
    chip8.set_waiting_key_destination(4);
    chip8.set_key_pressed(7, true);
    assert_eq!(chip8.get_v(4), 0);
    assert!(!chip8.is_waiting_for_key());
}

#[test]
fn stack_round_trip() {
    // at 0x200: CALL 0x300; at 0x300: RET
    let mut chip8 = machine_at(0x200, &[0x23, 0x00]);
    chip8.write_memory(0x300, 0x00);
    chip8.write_memory(0x301, 0xEE);
    chip8.execute_instruction();
    assert_eq!(chip8.get_pc(), 0x300);
    assert_eq!(chip8.get_sp(), 1);
    assert_eq!(chip8.read_memory(0x62), 0x02);
    assert_eq!(chip8.read_memory(0x63), 0x00);
    chip8.execute_instruction();
    assert_eq!(chip8.get_pc(), 0x202);
    assert_eq!(chip8.get_sp(), 0);
}

#[test]
fn jumps_set_the_program_counter() {
    let mut chip8 = machine_at(0x200, &[0x1A, 0xBC]);
    chip8.execute_instruction();
    assert_eq!(chip8.get_pc(), 0xABC);

    let mut chip8 = machine_at(0x200, &[0xBF, 0xFF]);
    chip8.set_v(0, 0xFF);
    chip8.execute_instruction();
    assert_eq!(chip8.get_pc(), 0x10FE);
}

#[test]
fn skip_equal_immediate_moves_by_four_or_two() {
    let mut chip8 = machine_at(0x200, &[0x34, 0x2A]);
    chip8.set_v(4, 0x2A);
    chip8.execute_instruction();
    assert_eq!(chip8.get_pc(), 0x204);

    let mut chip8 = machine_at(0x200, &[0x34, 0x2A]);
    chip8.set_v(4, 0x2B);
    chip8.execute_instruction();
    assert_eq!(chip8.get_pc(), 0x202);
}

#[test]
fn the_other_skips_move_by_four_or_two() {
    // SNE V4, 0x2A
    for (value, pc) in [(0x2Au8, 0x202u16), (0x2B, 0x204)] {
        let mut chip8 = machine_at(0x200, &[0x44, 0x2A]);
        chip8.set_v(4, value);
        chip8.execute_instruction();
        assert_eq!(chip8.get_pc(), pc);
    }
    // SE V1, V2 and SNE V1, V2
    for (word, equal_pc, different_pc) in [(0x5120u16, 0x204u16, 0x202u16), (0x9120, 0x202, 0x204)] {
        for (a, b) in [(7u8, 7u8), (7, 8)] {
            let mut chip8 = machine_at(0x200, &[(word >> 8) as u8, word as u8]);
            chip8.set_v(1, a);
            chip8.set_v(2, b);
            chip8.execute_instruction();
            assert_eq!(chip8.get_pc(), if a == b { equal_pc } else { different_pc });
        }
    }
    // SKP V6 and SKNP V6
    for (word, down_pc, up_pc) in [(0xE69Eu16, 0x204u16, 0x202u16), (0xE6A1, 0x202, 0x204)] {
        for down in [true, false] {
            let mut chip8 = machine_at(0x200, &[(word >> 8) as u8, word as u8]);
            chip8.set_v(6, 0xC);
            chip8.set_key_pressed(0xC, down);
            chip8.execute_instruction();
            assert_eq!(chip8.get_pc(), if down { down_pc } else { up_pc });
        }
    }
}

#[test]
fn the_program_counter_wraps_at_65536() {
    let mut chip8 = Chip8::new();
    chip8.set_pc(0xFFFE);
    chip8.write_memory(0xFFE, 0x60);
    chip8.write_memory(0xFFF, 0x01);
    chip8.execute_instruction();
    assert_eq!(chip8.get_v(0), 1);
    assert_eq!(chip8.get_pc(), 0);
}

#[test]
fn a_word_that_is_no_instruction_only_moves_on() {
    for word in [0x0000u16, 0x0123, 0x5121, 0x8128, 0x812F, 0x9121, 0xE100, 0xF1FF, 0xF100] {
        let mut chip8 = machine_at(0x200, &[(word >> 8) as u8, word as u8]);
        for index in 0..16u8 {
            chip8.set_v(index, 0x10 + index);
        }
        let mut expected = chip8.memory;
        expected[0x183] = 0x02;
        expected[0x184] = 0x02;
        chip8.execute_instruction();
        assert_eq!(chip8.memory, expected, "word {:#06x}", word);
    }
}

#[test]
fn the_high_nibble_of_x_is_ignored_for_cls_and_ret() {
    let mut chip8 = machine_at(0x200, &[0x0A, 0xE0]);
    chip8.write_memory(0x90, 0xFF);
    chip8.execute_instruction();
    assert_eq!(chip8.get_display_buffer(), [0u8; 256]);
    assert_eq!(chip8.get_pc(), 0x202);
}

#[test]
fn loads_and_timers() {
    // LD V1, 0x42; LD DT, V1; LD ST, V1; LD V2, DT; LD V3, V1; LD I, 0x345; ADD I, V1
    let program = [
        0x61, 0x42, 0xF1, 0x15, 0xF1, 0x18, 0xF2, 0x07, 0x83, 0x10, 0xA3, 0x45, 0xF1, 0x1E,
    ];
    let mut chip8 = machine_at(0x200, &program);
    for _ in 0..7 {
        chip8.execute_instruction();
    }
    assert_eq!(chip8.get_v(1), 0x42);
    assert_eq!(chip8.get_dt(), 0x42);
    assert_eq!(chip8.get_st(), 0x42);
    assert_eq!(chip8.get_v(2), 0x42);
    assert_eq!(chip8.get_v(3), 0x42);
    assert_eq!(chip8.get_i(), 0x345 + 0x42);
    assert_eq!(chip8.get_pc(), 0x20E);
}

#[test]
fn add_index_wraps_at_65536() {
    let mut chip8 = Chip8::new();
    chip8.set_i(0xFFFF);
    chip8.set_v(2, 3);
    chip8.add_index(2);
    assert_eq!(chip8.get_i(), 2);
}

#[test]
fn font_address_is_five_times_the_digit() {
    let mut chip8 = machine_at(0x200, &[0xF5, 0x29]);
    chip8.set_v(5, 0xA);
    chip8.execute_instruction();
    assert_eq!(chip8.get_i(), 50);
    chip8.set_v(5, 0xFF);
    chip8.ld_font_addr(5);
    assert_eq!(chip8.get_i(), 1275);
}

#[test]
fn bcd_of_157() {
    let mut chip8 = machine_at(0x200, &[0xF7, 0x33]);
    chip8.set_v(7, 157);
    chip8.set_i(0x400);
    chip8.execute_instruction();
    assert_eq!(chip8.read_memory(0x400), 1);
    assert_eq!(chip8.read_memory(0x401), 5);
    assert_eq!(chip8.read_memory(0x402), 7);
    assert_eq!(chip8.get_i(), 0x400);
    assert_eq!(chip8.get_pc(), 0x202);
}

#[test]
fn bcd_of_every_byte() {
    for value in 0..=255u8 {
        let mut chip8 = Chip8::new();
        chip8.set_v(0, value);
        chip8.set_i(0xFFF);
        chip8.ld_bcd(0);
        assert_eq!(chip8.read_memory(0xFFF), value / 100);
        assert_eq!(chip8.read_memory(0x000), value / 10 % 10);
        assert_eq!(chip8.read_memory(0x001), value % 10);
    }
}

#[test]
fn store_then_load_restores_the_registers() {
    // LD [I], V5; then the registers are overwritten; LD V5, [I]
    let mut chip8 = machine_at(0x200, &[0xF5, 0x55, 0xF5, 0x65]);
    chip8.set_i(0x500);
    for index in 0..16u8 {
        chip8.set_v(index, 0x30 + index);
    }
    chip8.execute_instruction();
    for index in 0..=5u8 {
        assert_eq!(chip8.read_memory(0x500 + index as usize), 0x30 + index);
    }
    assert_eq!(chip8.read_memory(0x506), 0);
    assert_eq!(chip8.get_i(), 0x500);
    for index in 0..16u8 {
        chip8.set_v(index, 0);
    }
    chip8.execute_instruction();
    for index in 0..16u8 {
        assert_eq!(chip8.get_v(index), if index <= 5 { 0x30 + index } else { 0 });
    }
    assert_eq!(chip8.get_i(), 0x500);
    assert_eq!(chip8.get_pc(), 0x204);
}

#[test]
fn store_copies_the_registers_as_they_stood() {
    // I points one byte into the registers, so the store lands on V1..=V3
    let mut chip8 = Chip8::new();
    chip8.set_i(0x51);
    chip8.set_v(0, 1);
    chip8.set_v(1, 2);
    chip8.set_v(2, 3);
    chip8.set_v(3, 4);
    chip8.ld_into_mem(2);
    assert_eq!(
        (chip8.get_v(0), chip8.get_v(1), chip8.get_v(2), chip8.get_v(3)),
        (1, 1, 2, 3)
    );
    chip8.ld_from_mem(2);
    assert_eq!(
        (chip8.get_v(0), chip8.get_v(1), chip8.get_v(2), chip8.get_v(3)),
        (1, 2, 3, 3)
    );
}

#[test]
fn load_copies_the_bytes_as_they_stood() {
    let mut chip8 = Chip8::new();
    chip8.set_i(0x51);
    for index in 0..4u8 {
        chip8.set_v(index, 10 + index);
    }
    chip8.ld_from_mem(2);
    assert_eq!(
        (chip8.get_v(0), chip8.get_v(1), chip8.get_v(2), chip8.get_v(3)),
        (11, 12, 13, 13)
    );
}

#[test]
fn block_transfers_wrap_round_the_end_of_memory() {
    let mut chip8 = Chip8::new();
    chip8.set_i(0x0FFE);
    chip8.set_v(0, 0xA1);
    chip8.set_v(1, 0xA2);
    chip8.set_v(2, 0xA3);
    chip8.ld_into_mem(2);
    assert_eq!(chip8.read_memory(0xFFE), 0xA1);
    assert_eq!(chip8.read_memory(0xFFF), 0xA2);
    assert_eq!(chip8.read_memory(0x000), 0xA3);
    chip8.set_v(2, 0);
    chip8.ld_from_mem(2);
    assert_eq!(chip8.get_v(2), 0xA3);
}

#[test]
fn random_byte_is_masked() {
    for _ in 0..200 {
        let mut chip8 = machine_at(0x200, &[0xC4, 0x0F, 0xC5, 0x00]);
        chip8.set_v(4, 0xFF);
        chip8.set_v(5, 0xFF);
        chip8.execute_instruction();
        assert_eq!(chip8.get_v(4) & 0xF0, 0);
        chip8.execute_instruction();
        assert_eq!(chip8.get_v(5), 0);
        assert_eq!(chip8.get_pc(), 0x204);
    }
}

#[test]
fn random_bytes_differ() {
    let mut seen = [false; 256];
    for _ in 0..4000 {
        let mut chip8 = Chip8::new();
        chip8.rnd(0, 0xFF);
        seen[chip8.get_v(0) as usize] = true;
    }
    assert!(seen.iter().filter(|s| **s).count() > 100);
}

#[test]
fn rnd_with_a_given_sample() {
    let mut chip8 = Chip8::new();
    chip8.rnd_with(2, 0b1010_1010, 0b1100_1100);
    assert_eq!(chip8.get_v(2), 0b1000_1000);
}

#[test]
fn run_a_small_program() {
    // V0 = 0; V1 = 5; loop: V0 += V1; V1 += 255; SE V1, 0; JP loop
    let program = [0x60, 0x00, 0x61, 0x05, 0x80, 0x14, 0x71, 0xFF, 0x31, 0x00, 0x12, 0x04];
    let mut chip8 = machine_at(PROGRAM_ADDR, &program);
    let mut steps = 0;
    while chip8.get_pc() != PROGRAM_ADDR + 12 {
        chip8.execute_instruction();
        steps += 1;
        assert!(steps < 100);
    }
    assert_eq!(chip8.get_v(0), 15);
    assert_eq!(chip8.get_v(1), 0);
}

#[test]
fn a_program_that_does_not_store_leaves_font_keys_and_timers() {
    // CLS; LD V1, 9; ADD V1, V1; DRW V1, V1, 5; CALL 0x20A; RET (at 0x20A); JP 0x200
    let program = [
        0x00, 0xE0, 0x61, 0x09, 0x81, 0x14, 0xD1, 0x15, 0x22, 0x0A, 0x00, 0xEE,
    ];
    let mut chip8 = machine_at(0x200, &program);
    chip8.set_dt(77);
    chip8.set_st(88);
    chip8.set_key_pressed(3, true);
    let before = chip8.memory;
    for _ in 0..6 {
        chip8.execute_instruction();
    }
    for addr in (0..0x50).chain(0x188..0x1000) {
        assert_eq!(chip8.memory[addr], before[addr], "address {:#x}", addr);
    }
    assert_eq!(chip8.get_dt(), 77);
    assert_eq!(chip8.get_st(), 88);
    assert!(!chip8.is_waiting_for_key());
    assert_eq!(chip8.get_pc(), 0x20A);
    assert_eq!(chip8.get_sp(), 0);
}

#[test]
fn a_seventeenth_push_reuses_the_oldest_slot() {
    let mut chip8 = Chip8::new();
    for level in 1..=17u16 {
        chip8.push_into_stack(0x300 + level);
    }
    assert_eq!(chip8.get_sp(), 17);
    assert_eq!(chip8.read_memory(0x62), 0x03);
    assert_eq!(chip8.read_memory(0x63), 0x11);
    assert_eq!(chip8.get_display_buffer(), [0u8; 256]);
    assert_eq!(chip8.pop_from_stack(), 0x311);
    assert_eq!(chip8.pop_from_stack(), 0x310);
}

#[test]
fn a_store_through_i_reaches_whatever_i_points_at() {
    // LD [I], V1 with I at the sound timer: V0 goes to the sound timer, V1 to the delay timer
    let mut chip8 = machine_at(0x200, &[0xF1, 0x55]);
    chip8.set_i(0x181);
    chip8.set_v(0, 0x11);
    chip8.set_v(1, 0x22);
    chip8.execute_instruction();
    assert_eq!(chip8.get_st(), 0x11);
    assert_eq!(chip8.get_dt(), 0x22);
    assert_eq!(chip8.get_pc(), 0x202);
}

#[test]
fn a_waiting_machine_stays_as_it_is_through_many_steps() {
    let mut chip8 = machine_at(0x200, &[0xF2, 0x0A, 0x61, 0x01]);
    chip8.execute_instruction();
    let waiting = chip8.memory;
    for _ in 0..50 {
        chip8.execute_instruction();
        assert_eq!(chip8.memory, waiting);
    }
    chip8.set_key_pressed(0xB, true);
    assert_eq!(chip8.get_v(2), 0xB);
    chip8.execute_instruction();
    assert_eq!(chip8.get_v(1), 1);
}
