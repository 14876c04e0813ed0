use chip8::{Chip8Error, Emulator, RAM_SIZE, SCREEN_HEIGHT, SCREEN_WIDTH, START_ADDR};

fn font_bytes() -> Vec<u8> {
    vec![
        0xF0, 0x90, 0x90, 0x90, 0xF0, 0x20, 0x60, 0x20, 0x20, 0x70, 0xF0, 0x10, 0xF0, 0x80, 0xF0,
        0xF0, 0x10, 0xF0, 0x10, 0xF0, 0x90, 0x90, 0xF0, 0x10, 0x10, 0xF0, 0x80, 0xF0, 0x10, 0xF0,
        0xF0, 0x80, 0xF0, 0x90, 0xF0, 0xF0, 0x10, 0x20, 0x40, 0x40, 0xF0, 0x90, 0xF0, 0x90, 0xF0,
        0xF0, 0x90, 0xF0, 0x10, 0xF0, 0xF0, 0x90, 0xF0, 0x90, 0x90, 0xE0, 0x90, 0xE0, 0x90, 0xE0,
        0xF0, 0x80, 0x80, 0x80, 0xF0, 0xE0, 0x90, 0x90, 0x90, 0xE0, 0xF0, 0x80, 0xF0, 0x80, 0xF0,
        0xF0, 0x80, 0xF0, 0x80, 0x80,
    ]
}

fn assert_initial(e: &Emulator) {
    let font = font_bytes();
    assert_eq!(e.program_counter(), START_ADDR);
    assert_eq!(e.stack_depth(), 0);
    assert_eq!(e.index_register(), 0);
    assert_eq!(e.delay_timer(), 0);
    assert_eq!(e.sound_timer(), 0);
    for i in 0..16 {
        assert_eq!(e.register(i), 0);
        assert!(!e.key(i));
    }
    for j in 0..80 {
        assert_eq!(e.memory_byte(j), font[j]);
    }
    for j in 80..RAM_SIZE {
        assert_eq!(e.memory_byte(j), 0);
    }
    let display = e.get_display();
    assert_eq!(display.len(), SCREEN_WIDTH * SCREEN_HEIGHT);
    assert!(display.iter().all(|&px| !px));
}

#[test]
fn construction_gives_initial_state() {
    let e = Emulator::new();
    assert_initial(&e);
}

#[test]
fn reset_restores_initial_state_after_mutation() {
    let mut e = Emulator::new();
    // Mutate broadly: registers, index, a call, a draw, timers, keys.
    let prog: Vec<u8> = vec![
        0x60, 0x3C, // V0 = 60
        0x61, 0x01, // V1 = 1
        0xA2, 0x0C, // I = 0x20C
        0xD0, 0x11, // draw one row at (60, 1)
        0xF0, 0x15, // delay = V0
        0x22, 0x0C, // call 0x20C
        0xFF, // sprite data and subroutine landing byte
    ];
    e.load(&prog).unwrap();
    for _ in 0..6 {
        e.tick().unwrap();
    }
    e.keypress(7, true);
    e.tick_timers();
    e.reset();
    assert_initial(&e);
}

#[test]
fn load_fills_memory_from_load_address() {
    let mut e = Emulator::new();
    let prog: Vec<u8> = vec![0xAB, 0xCD, 0xEF];
    e.load(&prog).unwrap();
    assert_eq!(e.memory_byte(0x200), 0xAB);
    assert_eq!(e.memory_byte(0x201), 0xCD);
    assert_eq!(e.memory_byte(0x202), 0xEF);
    assert_eq!(e.memory_byte(0x203), 0);
}

#[test]
fn load_of_exactly_full_capacity_succeeds() {
    let mut e = Emulator::new();
    let prog: Vec<u8> = vec![0x11; RAM_SIZE - START_ADDR as usize];
    assert!(e.load(&prog).is_ok());
    assert_eq!(e.memory_byte(RAM_SIZE - 1), 0x11);
}

#[test]
fn load_one_byte_over_capacity_fails() {
    let mut e = Emulator::new();
    let n = RAM_SIZE - START_ADDR as usize + 1;
    let prog: Vec<u8> = vec![0x11; n];
    assert_eq!(e.load(&prog), Err(Chip8Error::ProgramTooLarge(n)));
    // Nothing was written.
    assert_eq!(e.memory_byte(0x200), 0);
}

#[test]
fn keypress_sets_and_clears_keys() {
    let mut e = Emulator::new();
    e.keypress(0, true);
    e.keypress(15, true);
    assert!(e.key(0));
    assert!(e.key(15));
    assert!(!e.key(7));
    e.keypress(0, false);
    assert!(!e.key(0));
}

#[test]
fn timer_tick_decrements_nonzero_timers() {
    let mut e = Emulator::new();
    let prog: Vec<u8> = vec![
        0x60, 0x02, // V0 = 2
        0xF0, 0x15, // delay = 2
        0xF0, 0x18, // sound = 2
    ];
    e.load(&prog).unwrap();
    for _ in 0..3 {
        e.tick().unwrap();
    }
    assert_eq!(e.delay_timer(), 2);
    assert_eq!(e.sound_timer(), 2);
    e.tick_timers();
    assert_eq!(e.delay_timer(), 1);
    assert_eq!(e.sound_timer(), 1);
    e.tick_timers();
    assert_eq!(e.delay_timer(), 0);
    assert_eq!(e.sound_timer(), 0);
}

#[test]
fn timer_tick_at_zero_stays_at_zero() {
    let mut e = Emulator::new();
    assert_eq!(e.delay_timer(), 0);
    assert_eq!(e.sound_timer(), 0);
    e.tick_timers();
    assert_eq!(e.delay_timer(), 0);
    assert_eq!(e.sound_timer(), 0);
}
