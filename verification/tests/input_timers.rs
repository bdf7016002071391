use chip8::cpu::Chip8;

fn boot(rom: Vec<u8>) -> Chip8 {
    let mut m = Chip8::new();
    m.load_rom(&rom).unwrap();
    m
}

fn keys_with(pressed: &[usize]) -> Vec<bool> {
    let mut keys = vec![false; 16];
    for &k in pressed {
        keys[k] = true;
    }
    keys
}

#[test]
fn skip_if_key_pressed() {
    let mut m = boot(vec![0x60, 0x05, 0xE0, 0x9E]);
    m.set_keypad(&keys_with(&[5]));
    m.step(0).unwrap();
    m.step(0).unwrap();
    assert_eq!(m.pc, 0x206);

    let mut m2 = boot(vec![0x60, 0x05, 0xE0, 0x9E]);
    m2.step(0).unwrap();
    m2.step(0).unwrap();
    assert_eq!(m2.pc, 0x204);
}

#[test]
fn skip_if_key_not_pressed() {
    let mut m = boot(vec![0x60, 0x05, 0xE0, 0xA1]);
    m.step(0).unwrap();
    m.step(0).unwrap();
    assert_eq!(m.pc, 0x206);

    let mut m2 = boot(vec![0x60, 0x05, 0xE0, 0xA1]);
    m2.set_keypad(&keys_with(&[5]));
    m2.step(0).unwrap();
    m2.step(0).unwrap();
    assert_eq!(m2.pc, 0x204);
}

#[test]
fn wait_key_spins_until_a_key_arrives() {
    let mut m = boot(vec![0xF0, 0x0A]);
    // With no key pressed the program counter rewinds to the same
    // instruction, cycle after cycle.
    m.step(0).unwrap();
    assert_eq!(m.pc, 0x200);
    m.step(0).unwrap();
    assert_eq!(m.pc, 0x200);
    // A key arrives: its lowest index lands in V0 and the machine moves on.
    m.set_keypad(&keys_with(&[9, 3]));
    m.step(0).unwrap();
    assert_eq!(m.pc, 0x202);
    assert_eq!(m.registers[0], 3);
}

#[test]
fn timers_load_and_read() {
    let mut m = boot(vec![0x60, 0x2A, 0xF0, 0x15, 0xF0, 0x18, 0xF1, 0x07]);
    for _ in 0..4 {
        m.step(0).unwrap();
    }
    assert_eq!(m.dt, 0x2A);
    assert_eq!(m.st, 0x2A);
    assert_eq!(m.registers[1], 0x2A);
}

#[test]
fn tick_counts_nonzero_timers_down() {
    let mut m = Chip8::new();
    m.dt = 2;
    m.st = 1;
    m.tick_timers();
    assert_eq!(m.dt, 1);
    assert_eq!(m.st, 0);
    m.tick_timers();
    assert_eq!(m.dt, 0);
    assert_eq!(m.st, 0);
    m.tick_timers();
    assert_eq!(m.dt, 0);
    assert_eq!(m.st, 0);
}

#[test]
fn cycle_runs_instruction_then_tick() {
    // LD DT, V0 with V0 = 2: the cycle's own tick already counts the fresh
    // value down once.
    let mut m = boot(vec![0x60, 0x02, 0xF0, 0x15]);
    m.cycle(0).unwrap();
    m.cycle(0).unwrap();
    assert_eq!(m.dt, 1);
}

#[test]
fn step_leaves_timers_alone() {
    let mut m = boot(vec![0x60, 0x02]);
    m.dt = 5;
    m.st = 5;
    m.step(0).unwrap();
    assert_eq!(m.dt, 5);
    assert_eq!(m.st, 5);
}

#[test]
fn index_addition_wraps_at_sixteen_bits() {
    // Drive I up with repeated ADD I, V0 until it wraps past 0xFFFF.
    let mut m = boot(vec![0x60, 0xFF, 0xAF, 0xFF, 0xF0, 0x1E]);
    m.step(0).unwrap();
    m.step(0).unwrap();
    // 258 additions of 255 on top of 0xFFF reach 0x110FD, which wraps at
    // sixteen bits to 0x10FD.
    for _ in 0..258 {
        m.step(0).unwrap();
        m.pc = 0x204;
    }
    assert_eq!(m.index, 0x10FD);
}
