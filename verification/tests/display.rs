use chip8::cpu::Chip8;
use chip8::model::Chip8Error;

fn boot(rom: Vec<u8>) -> Chip8 {
    let mut m = Chip8::new();
    m.load_rom(&rom).unwrap();
    m
}

/// A machine whose ROM draws the one-row sprite 0xF0 at (V0, V1) = (8, 4):
/// LD V0; LD V1; LD I 0x300; DRW V0,V1,1 — with 0xF0 planted at 0x300.
fn draw_program() -> Chip8 {
    let mut m = boot(vec![0x60, 0x08, 0x61, 0x04, 0xA3, 0x00, 0xD0, 0x11]);
    m.memory[0x300] = 0xF0;
    m
}

#[test]
fn draw_sets_pixels_without_collision() {
    let mut m = draw_program();
    for _ in 0..4 {
        m.step(0).unwrap();
    }
    // The four leftmost sprite bits land at columns 8..12 of row 4.
    for col in 8..12 {
        assert!(m.pixel(col, 4));
    }
    assert!(!m.pixel(12, 4));
    assert_eq!(m.registers[0xF], 0);
}

#[test]
fn draw_twice_collides_and_restores() {
    // The same sprite drawn again at the same position turns the four
    // pixels off and reports the collision.
    let mut m = draw_program();
    for _ in 0..4 {
        m.step(0).unwrap();
    }
    // Jump back to the draw instruction and run it once more.
    m.pc = 0x206;
    m.step(0).unwrap();
    assert_eq!(m.registers[0xF], 1);
    for col in 8..12 {
        assert!(!m.pixel(col, 4));
    }
    assert!(m.video.iter().all(|&p| !p));
}

#[test]
fn draw_clips_at_right_edge() {
    // At column 62 only two of the four set bits fit on the row; nothing
    // wraps to the next row.
    let mut m = boot(vec![0x60, 0x3E, 0x61, 0x00, 0xA3, 0x00, 0xD0, 0x11]);
    m.memory[0x300] = 0xF0;
    for _ in 0..4 {
        m.step(0).unwrap();
    }
    assert!(m.pixel(62, 0));
    assert!(m.pixel(63, 0));
    assert!(!m.pixel(0, 1));
    assert!(!m.pixel(1, 1));
    assert_eq!(m.video.iter().filter(|&&p| p).count(), 2);
}

#[test]
fn draw_coordinates_wrap_modulo_screen() {
    // Starting coordinates reduce modulo 64 and 32: (72, 36) draws at
    // (8, 4).
    let mut m = boot(vec![0x60, 0x48, 0x61, 0x24, 0xA3, 0x00, 0xD0, 0x11]);
    m.memory[0x300] = 0xF0;
    for _ in 0..4 {
        m.step(0).unwrap();
    }
    for col in 8..12 {
        assert!(m.pixel(col, 4));
    }
}

#[test]
fn draw_multi_row_sprite() {
    // The font sprite for 0 is a 5-row box: point I at it and draw it.
    let mut m = boot(vec![0x60, 0x00, 0x61, 0x00, 0xF0, 0x29, 0xD0, 0x15]);
    for _ in 0..4 {
        m.step(0).unwrap();
    }
    // 0xF0: the top row has four pixels on.
    assert!(m.pixel(0, 0) && m.pixel(1, 0) && m.pixel(2, 0) && m.pixel(3, 0));
    // 0x90: the middle rows keep only the edges.
    assert!(m.pixel(0, 1) && !m.pixel(1, 1) && !m.pixel(2, 1) && m.pixel(3, 1));
    assert_eq!(m.video.iter().filter(|&&p| p).count(), 4 + 2 + 2 + 2 + 4);
}

#[test]
fn cls_clears_everything() {
    let mut m = draw_program();
    for _ in 0..4 {
        m.step(0).unwrap();
    }
    assert!(m.video.iter().any(|&p| p));
    m.memory[0x208] = 0x00;
    m.memory[0x209] = 0xE0;
    m.step(0).unwrap();
    assert!(m.video.iter().all(|&p| !p));
}

#[test]
fn draw_out_of_bounds_sprite_is_rejected() {
    // I at the last byte with a two-row sprite reaches past memory.
    let mut m = boot(vec![0xAF, 0xFF, 0xD0, 0x02]);
    m.step(0).unwrap();
    let pc_before = m.pc;
    assert_eq!(m.step(0), Err(Chip8Error::OutOfBoundsAccess));
    assert_eq!(m.pc, pc_before);
    assert_eq!(m.registers[0xF], 0);
}
