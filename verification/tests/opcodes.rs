use chip8::{Chip8Error, Emulator, SCREEN_WIDTH};

/// Loads `prog` into a fresh machine and executes `ticks` instructions.
fn run(prog: &[u8], ticks: usize) -> Emulator {
    let mut e = Emulator::new();
    e.load(prog).unwrap();
    for _ in 0..ticks {
        e.tick().unwrap();
    }
    e
}

#[test]
fn load_imm_and_move() {
    let e = run(&[0x60, 0x12, 0x68, 0x34, 0x81, 0x80], 3);
    assert_eq!(e.register(0), 0x12);
    assert_eq!(e.register(8), 0x34);
    assert_eq!(e.register(1), 0x34);
    assert_eq!(e.program_counter(), 0x206);
}

#[test]
fn add_imm_wraps_without_flag() {
    let e = run(&[0x60, 0xFF, 0x70, 0x02], 2);
    assert_eq!(e.register(0), 0x01);
    assert_eq!(e.register(0xF), 0);
}

#[test]
fn add_with_carry() {
    // V0 = 0xFF, V1 = 0x01, V0 += V1 -> 0x00 with carry.
    let e = run(&[0x60, 0xFF, 0x61, 0x01, 0x80, 0x14], 3);
    assert_eq!(e.register(0), 0x00);
    assert_eq!(e.register(0xF), 1);
}

#[test]
fn add_without_carry() {
    let e = run(&[0x60, 0x03, 0x61, 0x04, 0x80, 0x14], 3);
    assert_eq!(e.register(0), 0x07);
    assert_eq!(e.register(0xF), 0);
}

#[test]
fn sub_with_borrow() {
    // V0 = 0x01, V1 = 0x02, V0 -= V1 -> 0xFF and VF = 0 (borrow).
    let e = run(&[0x60, 0x01, 0x61, 0x02, 0x80, 0x15], 3);
    assert_eq!(e.register(0), 0xFF);
    assert_eq!(e.register(0xF), 0);
}

#[test]
fn sub_without_borrow() {
    let e = run(&[0x60, 0x09, 0x61, 0x02, 0x80, 0x15], 3);
    assert_eq!(e.register(0), 0x07);
    assert_eq!(e.register(0xF), 1);
}

#[test]
fn rsub_reverses_operands() {
    // V0 = V1 - V0 = 0x05 - 0x03.
    let e = run(&[0x60, 0x03, 0x61, 0x05, 0x80, 0x17], 3);
    assert_eq!(e.register(0), 0x02);
    assert_eq!(e.register(0xF), 1);
}

#[test]
fn or_and_xor() {
    let e = run(&[0x60, 0x0C, 0x61, 0x0A, 0x80, 0x11], 3);
    assert_eq!(e.register(0), 0x0E);
    let e = run(&[0x60, 0x0C, 0x61, 0x0A, 0x80, 0x12], 3);
    assert_eq!(e.register(0), 0x08);
    let e = run(&[0x60, 0x0C, 0x61, 0x0A, 0x80, 0x13], 3);
    assert_eq!(e.register(0), 0x06);
}

#[test]
fn shift_right_keeps_dropped_bit() {
    let e = run(&[0x60, 0x05, 0x80, 0x06], 2);
    assert_eq!(e.register(0), 0x02);
    assert_eq!(e.register(0xF), 1);
}

#[test]
fn shift_left_keeps_dropped_bit() {
    let e = run(&[0x60, 0x81, 0x80, 0x0E], 2);
    assert_eq!(e.register(0), 0x02);
    assert_eq!(e.register(0xF), 1);
}

#[test]
fn jump_sets_pc() {
    let e = run(&[0x13, 0x45], 1);
    assert_eq!(e.program_counter(), 0x345);
}

#[test]
fn jump_offset_adds_v0() {
    let e = run(&[0x60, 0x10, 0xB3, 0x00], 2);
    assert_eq!(e.program_counter(), 0x310);
}

#[test]
fn call_then_return_resumes_after_call() {
    // 0x200: call 0xABC; 0xABC: return.
    let mut prog = vec![0u8; 0x8BE];
    prog[0] = 0x2A;
    prog[1] = 0xBC;
    prog[0x8BC] = 0x00;
    prog[0x8BD] = 0xEE;
    let mut e = Emulator::new();
    e.load(&prog).unwrap();
    e.tick().unwrap();
    assert_eq!(e.program_counter(), 0xABC);
    assert_eq!(e.stack_depth(), 1);
    e.tick().unwrap();
    assert_eq!(e.program_counter(), 0x202);
    assert_eq!(e.stack_depth(), 0);
}

#[test]
fn skip_eq_imm_skips_when_equal() {
    // V0 = 5; skip if V0 == 5; the skipped instruction would set V1 = 1.
    let e = run(&[0x60, 0x05, 0x30, 0x05, 0x61, 0x01, 0x00, 0x00], 3);
    assert_eq!(e.register(1), 0);
    assert_eq!(e.program_counter(), 0x208);
}

#[test]
fn skip_eq_imm_falls_through_when_not_equal() {
    let e = run(&[0x60, 0x05, 0x30, 0x06, 0x61, 0x01], 3);
    assert_eq!(e.register(1), 1);
}

#[test]
fn skip_ne_imm_skips_when_not_equal() {
    let e = run(&[0x60, 0x05, 0x40, 0x06, 0x61, 0x01, 0x00, 0x00], 3);
    assert_eq!(e.register(1), 0);
}

#[test]
fn skip_reg_comparisons() {
    // V0 == V1: skip.
    let e = run(&[0x60, 0x05, 0x61, 0x05, 0x50, 0x10, 0x62, 0x01, 0x00, 0x00], 4);
    assert_eq!(e.register(2), 0);
    // V0 != V1: skip.
    let e = run(&[0x60, 0x05, 0x61, 0x06, 0x90, 0x10, 0x62, 0x01, 0x00, 0x00], 4);
    assert_eq!(e.register(2), 0);
}

#[test]
fn set_index_and_add_index() {
    let e = run(&[0xA1, 0x23, 0x60, 0x02, 0xF0, 0x1E], 3);
    assert_eq!(e.index_register(), 0x125);
}

#[test]
fn font_addr_points_at_glyph() {
    let e = run(&[0x60, 0x0A, 0xF0, 0x29], 2);
    assert_eq!(e.index_register(), 50);
    assert_eq!(e.memory_byte(50), 0xF0);
}

#[test]
fn read_and_write_timers() {
    let e = run(&[0x60, 0x2A, 0xF0, 0x15, 0xF0, 0x18, 0xF1, 0x07], 4);
    assert_eq!(e.delay_timer(), 0x2A);
    assert_eq!(e.sound_timer(), 0x2A);
    assert_eq!(e.register(1), 0x2A);
}

#[test]
fn store_bcd_writes_three_digits() {
    let e = run(&[0x60, 0xEA, 0xA3, 0x00, 0xF0, 0x33], 3);
    assert_eq!(e.memory_byte(0x300), 2);
    assert_eq!(e.memory_byte(0x301), 3);
    assert_eq!(e.memory_byte(0x302), 4);
}

#[test]
fn store_and_load_registers() {
    // Store V0..=V1 at 0x300, clear them, load them back.
    let e = run(
        &[
            0x60, 0x0A, // V0 = 0x0A
            0x61, 0x0B, // V1 = 0x0B
            0xA3, 0x00, // I = 0x300
            0xF1, 0x55, // memory[0x300..=0x301] = V0..=V1
            0x60, 0x00, // V0 = 0
            0x61, 0x00, // V1 = 0
            0xF1, 0x65, // V0..=V1 = memory[0x300..=0x301]
        ],
        7,
    );
    assert_eq!(e.memory_byte(0x300), 0x0A);
    assert_eq!(e.memory_byte(0x301), 0x0B);
    assert_eq!(e.register(0), 0x0A);
    assert_eq!(e.register(1), 0x0B);
}

#[test]
fn random_and_with_zero_mask_clears_register() {
    let e = run(&[0x60, 0xAA, 0xC0, 0x00], 2);
    assert_eq!(e.register(0), 0);
}

#[test]
fn draw_wraps_around_screen_edge() {
    // An 8x1 sprite 0xFF drawn at (60, 0) wraps onto columns 60..63 and 0..3.
    let e = run(
        &[0x60, 0x3C, 0x61, 0x00, 0xA2, 0x08, 0xD0, 0x11, 0xFF],
        4,
    );
    let display = e.get_display();
    let lit: Vec<usize> = (0..SCREEN_WIDTH).filter(|&c| display[c]).collect();
    assert_eq!(lit, vec![0, 1, 2, 3, 60, 61, 62, 63]);
    // Nothing outside row 0 is lit.
    assert!(display[SCREEN_WIDTH..].iter().all(|&px| !px));
    assert_eq!(e.register(0xF), 0);
}

#[test]
fn draw_wraps_around_bottom_edge() {
    // A 1x2 sprite drawn at (0, 31): its second row wraps onto row 0.
    let e = run(
        &[0x60, 0x00, 0x61, 0x1F, 0xA2, 0x08, 0xD0, 0x12, 0x80, 0x80],
        4,
    );
    let display = e.get_display();
    assert!(display[31 * SCREEN_WIDTH]);
    assert!(display[0]);
    let lit = display.iter().filter(|&&px| px).count();
    assert_eq!(lit, 2);
}

#[test]
fn draw_twice_erases_and_reports_collision() {
    let e = run(
        &[0x60, 0x3C, 0x61, 0x00, 0xA2, 0x0A, 0xD0, 0x11, 0xD0, 0x11, 0xFF],
        5,
    );
    assert!(e.get_display().iter().all(|&px| !px));
    assert_eq!(e.register(0xF), 1);
}

#[test]
fn clear_screen_unlights_everything() {
    let e = run(
        &[0x60, 0x05, 0x61, 0x07, 0xA2, 0x0A, 0xD0, 0x13, 0x00, 0xE0, 0xAB, 0xCD, 0xEF],
        5,
    );
    assert!(e.get_display().iter().all(|&px| !px));
}

#[test]
fn key_wait_blocks_until_key_held() {
    let mut e = Emulator::new();
    e.load(&[0xF5, 0x0A]).unwrap();
    e.tick().unwrap();
    assert_eq!(e.program_counter(), 0x200);
    assert_eq!(e.register(5), 0);
    e.tick().unwrap();
    assert_eq!(e.program_counter(), 0x200);
    e.keypress(7, true);
    e.tick().unwrap();
    assert_eq!(e.program_counter(), 0x202);
    assert_eq!(e.register(5), 7);
}

#[test]
fn key_wait_takes_highest_held_key() {
    let mut e = Emulator::new();
    e.load(&[0xF5, 0x0A]).unwrap();
    e.keypress(3, true);
    e.keypress(0xB, true);
    e.tick().unwrap();
    assert_eq!(e.register(5), 0xB);
}

#[test]
fn skip_if_key_down_and_up() {
    let mut e = Emulator::new();
    e.load(&[0x60, 0x04, 0xE0, 0x9E, 0x61, 0x01, 0x00, 0x00]).unwrap();
    e.keypress(4, true);
    for _ in 0..3 {
        e.tick().unwrap();
    }
    assert_eq!(e.register(1), 0);

    let mut e = Emulator::new();
    e.load(&[0x60, 0x04, 0xE0, 0xA1, 0x61, 0x01, 0x00, 0x00]).unwrap();
    for _ in 0..3 {
        e.tick().unwrap();
    }
    assert_eq!(e.register(1), 0);
}

#[test]
fn undefined_opcodes_are_fatal_and_change_nothing() {
    for bad in [0x5001u16, 0x800F, 0xE000, 0xF0FF, 0x0123] {
        let mut e = Emulator::new();
        e.load(&[(bad >> 8) as u8, (bad & 0xFF) as u8]).unwrap();
        assert_eq!(e.tick(), Err(Chip8Error::UndefinedOpcode(bad)));
        assert_eq!(e.program_counter(), 0x200);
    }
}

#[test]
fn stack_underflow_on_return_without_call() {
    let mut e = Emulator::new();
    e.load(&[0x00, 0xEE]).unwrap();
    assert_eq!(e.tick(), Err(Chip8Error::StackUnderflow(0x202)));
    assert_eq!(e.program_counter(), 0x200);
    assert_eq!(e.stack_depth(), 0);
}

#[test]
fn stack_overflow_on_seventeenth_nested_call() {
    let mut prog: Vec<u8> = Vec::new();
    for k in 0..17u16 {
        let target = 0x202 + 2 * k;
        prog.push(0x20 | (target >> 8) as u8);
        prog.push((target & 0xFF) as u8);
    }
    let mut e = Emulator::new();
    e.load(&prog).unwrap();
    for _ in 0..16 {
        e.tick().unwrap();
    }
    assert_eq!(e.stack_depth(), 16);
    assert_eq!(e.tick(), Err(Chip8Error::StackOverflow(0x222)));
    assert_eq!(e.stack_depth(), 16);
}

#[test]
fn pc_out_of_range_is_fatal() {
    let mut e = Emulator::new();
    e.load(&[0x1F, 0xFF]).unwrap();
    e.tick().unwrap();
    assert_eq!(e.program_counter(), 0xFFF);
    assert_eq!(e.tick(), Err(Chip8Error::PcOutOfRange(0xFFF)));
    assert_eq!(e.program_counter(), 0xFFF);
}

#[test]
fn draw_past_memory_end_is_fatal() {
    let mut e = Emulator::new();
    e.load(&[0xAF, 0xFF, 0xD0, 0x12]).unwrap();
    e.tick().unwrap();
    assert_eq!(e.tick(), Err(Chip8Error::AddressOutOfRange(0xFFF)));
}

#[test]
fn bcd_past_memory_end_is_fatal() {
    let mut e = Emulator::new();
    e.load(&[0xAF, 0xFE, 0xF0, 0x33]).unwrap();
    e.tick().unwrap();
    assert_eq!(e.tick(), Err(Chip8Error::AddressOutOfRange(0xFFE)));
}

#[test]
fn register_dump_past_memory_end_is_fatal() {
    let mut e = Emulator::new();
    e.load(&[0xAF, 0xFD, 0xF5, 0x55]).unwrap();
    e.tick().unwrap();
    assert_eq!(e.tick(), Err(Chip8Error::AddressOutOfRange(0xFFD)));
}

#[test]
fn key_test_with_key_index_out_of_range_is_fatal() {
    let mut e = Emulator::new();
    e.load(&[0x60, 0xFF, 0xE0, 0x9E]).unwrap();
    e.tick().unwrap();
    assert_eq!(e.tick(), Err(Chip8Error::KeyOutOfRange(0xFF)));
}
