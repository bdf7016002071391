use chip8::cpu::Chip8;
use chip8::model::Chip8Error;

/// A machine with `rom` loaded and the program counter at the start address.
fn boot(rom: Vec<u8>) -> Chip8 {
    let mut m = Chip8::new();
    m.load_rom(&rom).unwrap();
    m
}

#[test]
fn power_on_state() {
    let m = Chip8::new();
    assert_eq!(m.pc, 0x200);
    assert_eq!(m.index, 0);
    assert_eq!(m.sp, 0);
    assert_eq!(m.dt, 0);
    assert_eq!(m.st, 0);
    assert!(m.registers.iter().all(|&v| v == 0));
    assert!(m.video.iter().all(|&p| !p));
    assert!(m.keypad.iter().all(|&k| !k));
    // The font table sits at its fixed region: sprite 0 starts with 0xF0,
    // sprite F ends with 0x80, and the byte after the table is zero.
    assert_eq!(m.memory[0x50], 0xF0);
    assert_eq!(m.memory[0x9F], 0x80);
    assert_eq!(m.memory[0xA0], 0x00);
    assert_eq!(m.memory.len(), 4096);
}

#[test]
fn load_rom_writes_at_start_address() {
    let m = boot(vec![0x12, 0x34, 0x56]);
    assert_eq!(m.memory[0x200], 0x12);
    assert_eq!(m.memory[0x201], 0x34);
    assert_eq!(m.memory[0x202], 0x56);
    assert_eq!(m.memory[0x203], 0x00);
}

#[test]
fn add_registers_with_carry() {
    // V0 = 0xFF, V1 = 0x01, then ADD V0,V1: V0 wraps to 0 and VF reports
    // the carry.
    let mut m = boot(vec![0x60, 0xFF, 0x61, 0x01, 0x80, 0x14]);
    m.step(0).unwrap();
    m.step(0).unwrap();
    m.step(0).unwrap();
    assert_eq!(m.registers[0], 0x00);
    assert_eq!(m.registers[0xF], 1);
}

#[test]
fn add_registers_without_carry() {
    let mut m = boot(vec![0x60, 0x12, 0x61, 0x22, 0x80, 0x14]);
    m.step(0).unwrap();
    m.step(0).unwrap();
    m.step(0).unwrap();
    assert_eq!(m.registers[0], 0x34);
    assert_eq!(m.registers[0xF], 0);
}

#[test]
fn sub_registers_with_borrow() {
    // V0 = 0x05, V1 = 0x0A, then SUB V0,V1: the difference wraps to 0xFB
    // and VF reports that a borrow happened.
    let mut m = boot(vec![0x60, 0x05, 0x61, 0x0A, 0x80, 0x15]);
    m.step(0).unwrap();
    m.step(0).unwrap();
    m.step(0).unwrap();
    assert_eq!(m.registers[0], 0xFB);
    assert_eq!(m.registers[0xF], 0);
}

#[test]
fn sub_registers_without_borrow() {
    let mut m = boot(vec![0x60, 0x0A, 0x61, 0x05, 0x80, 0x15]);
    m.step(0).unwrap();
    m.step(0).unwrap();
    m.step(0).unwrap();
    assert_eq!(m.registers[0], 0x05);
    assert_eq!(m.registers[0xF], 1);
}

#[test]
fn subn_registers() {
    // SUBN V0,V1 computes V1 - V0.
    let mut m = boot(vec![0x60, 0x05, 0x61, 0x0A, 0x80, 0x17]);
    m.step(0).unwrap();
    m.step(0).unwrap();
    m.step(0).unwrap();
    assert_eq!(m.registers[0], 0x05);
    assert_eq!(m.registers[0xF], 1);
}

#[test]
fn jump_sets_pc() {
    let mut m = boot(vec![0x13, 0x00]);
    m.step(0).unwrap();
    assert_eq!(m.pc, 0x300);
}

#[test]
fn jump_v0_adds_offset() {
    let mut m = boot(vec![0x60, 0x05, 0xB3, 0x00]);
    m.step(0).unwrap();
    m.step(0).unwrap();
    assert_eq!(m.pc, 0x305);
}

#[test]
fn call_then_ret_restores_pc() {
    // CALL 0x400 from 0x200; RET at 0x400 lands on the instruction after
    // the call.
    let mut m = boot(vec![0x24, 0x00]);
    m.memory[0x400] = 0x00;
    m.memory[0x401] = 0xEE;
    m.step(0).unwrap();
    assert_eq!(m.pc, 0x400);
    assert_eq!(m.sp, 1);
    assert_eq!(m.stack[0], 0x202);
    m.step(0).unwrap();
    assert_eq!(m.pc, 0x202);
    assert_eq!(m.sp, 0);
}

#[test]
fn nested_calls_to_full_depth() {
    // Sixteen nested calls fill the stack; sixteen returns walk all the way
    // back to the instruction after the first call.
    // Subroutine k at 0x200 + 4k holds CALL (next subroutine); RET. The
    // innermost target at 0x240 is a lone RET.
    let mut rom = vec![0u8; 0x42];
    for k in 0..16usize {
        let target: u16 = (0x204 + 4 * k) as u16;
        rom[4 * k] = 0x20 | (target >> 8) as u8;
        rom[4 * k + 1] = (target & 0xFF) as u8;
        rom[4 * k + 2] = 0x00;
        rom[4 * k + 3] = 0xEE;
    }
    rom[0x40] = 0x00;
    rom[0x41] = 0xEE;
    let mut m = boot(rom);
    for _ in 0..16 {
        m.step(0).unwrap();
    }
    assert_eq!(m.sp, 16);
    assert_eq!(m.pc, 0x240);
    for _ in 0..16 {
        m.step(0).unwrap();
    }
    assert_eq!(m.sp, 0);
    assert_eq!(m.pc, 0x202);
}

#[test]
fn skip_equal_immediate() {
    let mut m = boot(vec![0x60, 0x42, 0x30, 0x42]);
    m.step(0).unwrap();
    m.step(0).unwrap();
    assert_eq!(m.pc, 0x206);
    let mut m2 = boot(vec![0x60, 0x42, 0x30, 0x43]);
    m2.step(0).unwrap();
    m2.step(0).unwrap();
    assert_eq!(m2.pc, 0x204);
}

#[test]
fn skip_not_equal_immediate() {
    let mut m = boot(vec![0x40, 0x01]);
    m.step(0).unwrap();
    assert_eq!(m.pc, 0x204);
    let mut m2 = boot(vec![0x40, 0x00]);
    m2.step(0).unwrap();
    assert_eq!(m2.pc, 0x202);
}

#[test]
fn skip_register_compare() {
    let mut m = boot(vec![0x60, 0x07, 0x61, 0x07, 0x50, 0x10]);
    m.step(0).unwrap();
    m.step(0).unwrap();
    m.step(0).unwrap();
    assert_eq!(m.pc, 0x208);
    let mut m2 = boot(vec![0x60, 0x07, 0x61, 0x08, 0x90, 0x10]);
    m2.step(0).unwrap();
    m2.step(0).unwrap();
    m2.step(0).unwrap();
    assert_eq!(m2.pc, 0x208);
}

#[test]
fn add_immediate_wraps_without_flag() {
    let mut m = boot(vec![0x60, 0xFF, 0x6F, 0x07, 0x70, 0x02]);
    m.step(0).unwrap();
    m.step(0).unwrap();
    m.step(0).unwrap();
    assert_eq!(m.registers[0], 0x01);
    // VF keeps its prior value: 7xkk never touches the flag.
    assert_eq!(m.registers[0xF], 0x07);
}

#[test]
fn bitwise_ops() {
    let mut m = boot(vec![0x60, 0b1100, 0x61, 0b1010, 0x80, 0x11]);
    m.step(0).unwrap();
    m.step(0).unwrap();
    m.step(0).unwrap();
    assert_eq!(m.registers[0], 0b1110);
    let mut m2 = boot(vec![0x60, 0b1100, 0x61, 0b1010, 0x80, 0x12]);
    m2.step(0).unwrap();
    m2.step(0).unwrap();
    m2.step(0).unwrap();
    assert_eq!(m2.registers[0], 0b1000);
    let mut m3 = boot(vec![0x60, 0b1100, 0x61, 0b1010, 0x80, 0x13]);
    m3.step(0).unwrap();
    m3.step(0).unwrap();
    m3.step(0).unwrap();
    assert_eq!(m3.registers[0], 0b0110);
}

#[test]
fn shifts_report_shifted_bit() {
    let mut m = boot(vec![0x60, 0x05, 0x80, 0x06]);
    m.step(0).unwrap();
    m.step(0).unwrap();
    assert_eq!(m.registers[0], 0x02);
    assert_eq!(m.registers[0xF], 1);
    let mut m2 = boot(vec![0x60, 0x81, 0x80, 0x0E]);
    m2.step(0).unwrap();
    m2.step(0).unwrap();
    assert_eq!(m2.registers[0], 0x02);
    assert_eq!(m2.registers[0xF], 1);
}

#[test]
fn load_index_and_add_index() {
    let mut m = boot(vec![0xA1, 0x23, 0x60, 0x10, 0xF0, 0x1E]);
    m.step(0).unwrap();
    assert_eq!(m.index, 0x123);
    m.step(0).unwrap();
    m.step(0).unwrap();
    assert_eq!(m.index, 0x133);
}

#[test]
fn font_address_for_digit() {
    let mut m = boot(vec![0x60, 0x0A, 0xF0, 0x29]);
    m.step(0).unwrap();
    m.step(0).unwrap();
    assert_eq!(m.index, 0x50 + 5 * 0x0A);
}

#[test]
fn bcd_of_234() {
    // V0 = 234 and I = 0x300: memory takes the digits 2, 3, 4.
    let mut m = boot(vec![0x60, 0xEA, 0xA3, 0x00, 0xF0, 0x33]);
    m.step(0).unwrap();
    m.step(0).unwrap();
    m.step(0).unwrap();
    assert_eq!(m.memory[0x300], 2);
    assert_eq!(m.memory[0x301], 3);
    assert_eq!(m.memory[0x302], 4);
}

#[test]
fn store_and_load_registers() {
    let mut m = boot(vec![
        0x60, 0x11, 0x61, 0x22, 0x62, 0x33, 0xA3, 0x00, 0xF2, 0x55,
    ]);
    for _ in 0..5 {
        m.step(0).unwrap();
    }
    assert_eq!(m.memory[0x300], 0x11);
    assert_eq!(m.memory[0x301], 0x22);
    assert_eq!(m.memory[0x302], 0x33);
    assert_eq!(m.memory[0x303], 0x00);

    // Load them back into a machine with different register contents.
    let mut m2 = boot(vec![0x60, 0x99, 0x63, 0x44, 0xA3, 0x00, 0xF2, 0x65]);
    m2.memory[0x300] = 0xAA;
    m2.memory[0x301] = 0xBB;
    m2.memory[0x302] = 0xCC;
    for _ in 0..4 {
        m2.step(0).unwrap();
    }
    assert_eq!(m2.registers[0], 0xAA);
    assert_eq!(m2.registers[1], 0xBB);
    assert_eq!(m2.registers[2], 0xCC);
    // Registers above Vx are untouched.
    assert_eq!(m2.registers[3], 0x44);
}

#[test]
fn random_is_masked() {
    // The caller's byte is masked by kk.
    let mut m = boot(vec![0xC0, 0x0F]);
    m.step(0xAB).unwrap();
    assert_eq!(m.registers[0], 0x0B);
    let mut m2 = boot(vec![0xC0, 0xFF]);
    m2.step(0xAB).unwrap();
    assert_eq!(m2.registers[0], 0xAB);
}

#[test]
fn random_masked_by_zero_is_zero() {
    // Whatever byte the randomness source draws, the zero mask wipes it.
    let mut m = boot(vec![0xC0, 0x00]);
    m.registers[0] = 0x55;
    m.step_random().unwrap();
    assert_eq!(m.registers[0], 0x00);
}
