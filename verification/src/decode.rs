//! Decoding of 16-bit instruction words into the 35-entry CHIP-8 opcode set.

use vstd::prelude::*;

verus! {

/// One decoded CHIP-8 instruction. `x` and `y` are register indices taken
/// from the second and third nibble of the word, `kk` is the low byte,
/// `nnn` the low 12 bits and `n` the low nibble.
#[derive(Clone, Copy, PartialEq, Eq, Structural, Debug)]
pub enum Instr {
    /// 00E0: clear the display.
    Cls,
    /// 00EE: return from a subroutine.
    Ret,
    /// 1nnn: jump to nnn.
    Jp(u16),
    /// 2nnn: call the subroutine at nnn.
    Call(u16),
    /// 3xkk: skip the next instruction if Vx == kk.
    SeByte(u8, u8),
    /// 4xkk: skip the next instruction if Vx != kk.
    SneByte(u8, u8),
    /// 5xy0: skip the next instruction if Vx == Vy.
    SeReg(u8, u8),
    /// 6xkk: Vx = kk.
    LdByte(u8, u8),
    /// 7xkk: Vx = Vx + kk, wrapping, no flag.
    AddByte(u8, u8),
    /// 8xy0: Vx = Vy.
    LdReg(u8, u8),
    /// 8xy1: Vx |= Vy.
    Or(u8, u8),
    /// 8xy2: Vx &= Vy.
    And(u8, u8),
    /// 8xy3: Vx ^= Vy.
    Xor(u8, u8),
    /// 8xy4: Vx = Vx + Vy wrapping; VF = carry.
    AddReg(u8, u8),
    /// 8xy5: Vx = Vx - Vy wrapping; VF = 1 if no borrow.
    Sub(u8, u8),
    /// 8xy6: VF = Vx & 1; Vx >>= 1.
    Shr(u8),
    /// 8xy7: Vx = Vy - Vx wrapping; VF = 1 if no borrow.
    Subn(u8, u8),
    /// 8xyE: VF = high bit of Vx; Vx <<= 1, wrapping.
    Shl(u8),
    /// 9xy0: skip the next instruction if Vx != Vy.
    SneReg(u8, u8),
    /// Annn: I = nnn.
    LdIndex(u16),
    /// Bnnn: jump to V0 + nnn.
    JpV0(u16),
    /// Cxkk: Vx = random byte & kk.
    Rnd(u8, u8),
    /// Dxyn: draw the n-row sprite at memory[I..] at (Vx mod 64, Vy mod 32).
    Drw(u8, u8, u8),
    /// Ex9E: skip the next instruction if key Vx is pressed.
    Skp(u8),
    /// ExA1: skip the next instruction if key Vx is not pressed.
    Sknp(u8),
    /// Fx07: Vx = delay timer.
    LdVxDt(u8),
    /// Fx0A: wait for a key press; rewind PC while none is pressed.
    WaitKey(u8),
    /// Fx15: delay timer = Vx.
    LdDtVx(u8),
    /// Fx18: sound timer = Vx.
    LdStVx(u8),
    /// Fx1E: I = I + Vx, wrapping.
    AddIndex(u8),
    /// Fx29: I = address of the font sprite for digit Vx.
    LdFont(u8),
    /// Fx33: store the three decimal digits of Vx at memory[I..I+3].
    StoreBcd(u8),
    /// Fx55: copy V0..=Vx into memory[I..].
    StoreRegs(u8),
    /// Fx65: copy memory[I..] into V0..=Vx.
    LoadRegs(u8),
}

/// Every register index carried by a decoded instruction is a nibble, and the
/// wide operands fit in 12 bits.
pub open spec fn instr_wf(i: Instr) -> bool {
    match i {
        Instr::Cls => true,
        Instr::Ret => true,
        Instr::Jp(nnn) => nnn < 0x1000,
        Instr::Call(nnn) => nnn < 0x1000,
        Instr::SeByte(x, _) => x < 16,
        Instr::SneByte(x, _) => x < 16,
        Instr::SeReg(x, y) => x < 16 && y < 16,
        Instr::LdByte(x, _) => x < 16,
        Instr::AddByte(x, _) => x < 16,
        Instr::LdReg(x, y) => x < 16 && y < 16,
        Instr::Or(x, y) => x < 16 && y < 16,
        Instr::And(x, y) => x < 16 && y < 16,
        Instr::Xor(x, y) => x < 16 && y < 16,
        Instr::AddReg(x, y) => x < 16 && y < 16,
        Instr::Sub(x, y) => x < 16 && y < 16,
        Instr::Shr(x) => x < 16,
        Instr::Subn(x, y) => x < 16 && y < 16,
        Instr::Shl(x) => x < 16,
        Instr::SneReg(x, y) => x < 16 && y < 16,
        Instr::LdIndex(nnn) => nnn < 0x1000,
        Instr::JpV0(nnn) => nnn < 0x1000,
        Instr::Rnd(x, _) => x < 16,
        Instr::Drw(x, y, n) => x < 16 && y < 16 && n < 16,
        Instr::Skp(x) => x < 16,
        Instr::Sknp(x) => x < 16,
        Instr::LdVxDt(x) => x < 16,
        Instr::WaitKey(x) => x < 16,
        Instr::LdDtVx(x) => x < 16,
        Instr::LdStVx(x) => x < 16,
        Instr::AddIndex(x) => x < 16,
        Instr::LdFont(x) => x < 16,
        Instr::StoreBcd(x) => x < 16,
        Instr::StoreRegs(x) => x < 16,
        Instr::LoadRegs(x) => x < 16,
    }
}

/// The decode table of the instruction set: the first nibble (and for some
/// rows the last nibble or low byte) selects the instruction; a word that
/// matches no row decodes to `None`.
pub open spec fn spec_decode(op: u16) -> Option<Instr> {
    let d1 = op / 0x1000;
    let d4 = op % 16;
    let x = ((op / 0x100) % 16) as u8;
    let y = ((op / 16) % 16) as u8;
    let kk = (op % 0x100) as u8;
    let nnn = op % 0x1000;
    let n = (op % 16) as u8;
    if op == 0x00E0 {
        Some(Instr::Cls)
    } else if op == 0x00EE {
        Some(Instr::Ret)
    } else if d1 == 0x1 {
        Some(Instr::Jp(nnn))
    } else if d1 == 0x2 {
        Some(Instr::Call(nnn))
    } else if d1 == 0x3 {
        Some(Instr::SeByte(x, kk))
    } else if d1 == 0x4 {
        Some(Instr::SneByte(x, kk))
    } else if d1 == 0x5 && d4 == 0x0 {
        Some(Instr::SeReg(x, y))
    } else if d1 == 0x6 {
        Some(Instr::LdByte(x, kk))
    } else if d1 == 0x7 {
        Some(Instr::AddByte(x, kk))
    } else if d1 == 0x8 && d4 == 0x0 {
        Some(Instr::LdReg(x, y))
    } else if d1 == 0x8 && d4 == 0x1 {
        Some(Instr::Or(x, y))
    } else if d1 == 0x8 && d4 == 0x2 {
        Some(Instr::And(x, y))
    } else if d1 == 0x8 && d4 == 0x3 {
        Some(Instr::Xor(x, y))
    } else if d1 == 0x8 && d4 == 0x4 {
        Some(Instr::AddReg(x, y))
    } else if d1 == 0x8 && d4 == 0x5 {
        Some(Instr::Sub(x, y))
    } else if d1 == 0x8 && d4 == 0x6 {
        Some(Instr::Shr(x))
    } else if d1 == 0x8 && d4 == 0x7 {
        Some(Instr::Subn(x, y))
    } else if d1 == 0x8 && d4 == 0xE {
        Some(Instr::Shl(x))
    } else if d1 == 0x9 && d4 == 0x0 {
        Some(Instr::SneReg(x, y))
    } else if d1 == 0xA {
        Some(Instr::LdIndex(nnn))
    } else if d1 == 0xB {
        Some(Instr::JpV0(nnn))
    } else if d1 == 0xC {
        Some(Instr::Rnd(x, kk))
    } else if d1 == 0xD {
        Some(Instr::Drw(x, y, n))
    } else if d1 == 0xE && kk == 0x9E {
        Some(Instr::Skp(x))
    } else if d1 == 0xE && kk == 0xA1 {
        Some(Instr::Sknp(x))
    } else if d1 == 0xF && kk == 0x07 {
        Some(Instr::LdVxDt(x))
    } else if d1 == 0xF && kk == 0x0A {
        Some(Instr::WaitKey(x))
    } else if d1 == 0xF && kk == 0x15 {
        Some(Instr::LdDtVx(x))
    } else if d1 == 0xF && kk == 0x18 {
        Some(Instr::LdStVx(x))
    } else if d1 == 0xF && kk == 0x1E {
        Some(Instr::AddIndex(x))
    } else if d1 == 0xF && kk == 0x29 {
        Some(Instr::LdFont(x))
    } else if d1 == 0xF && kk == 0x33 {
        Some(Instr::StoreBcd(x))
    } else if d1 == 0xF && kk == 0x55 {
        Some(Instr::StoreRegs(x))
    } else if d1 == 0xF && kk == 0x65 {
        Some(Instr::LoadRegs(x))
    } else {
        None
    }
}

/// Split a 16-bit word against the decode table.
pub fn decode(op: u16) -> (r: Option<Instr>)
    ensures
        r == spec_decode(op),
        r is Some ==> instr_wf(r->0),
{
    let d1: u16 = op / 0x1000;
    let d4: u16 = op % 16;
    let x: u8 = ((op / 0x100) % 16) as u8;
    let y: u8 = ((op / 16) % 16) as u8;
    let kk: u8 = (op % 0x100) as u8;
    let nnn: u16 = op % 0x1000;
    let n: u8 = (op % 16) as u8;
    if op == 0x00E0 {
        Some(Instr::Cls)
    } else if op == 0x00EE {
        Some(Instr::Ret)
    } else if d1 == 0x1 {
        Some(Instr::Jp(nnn))
    } else if d1 == 0x2 {
        Some(Instr::Call(nnn))
    } else if d1 == 0x3 {
        Some(Instr::SeByte(x, kk))
    } else if d1 == 0x4 {
        Some(Instr::SneByte(x, kk))
    } else if d1 == 0x5 && d4 == 0x0 {
        Some(Instr::SeReg(x, y))
    } else if d1 == 0x6 {
        Some(Instr::LdByte(x, kk))
    } else if d1 == 0x7 {
        Some(Instr::AddByte(x, kk))
    } else if d1 == 0x8 && d4 == 0x0 {
        Some(Instr::LdReg(x, y))
    } else if d1 == 0x8 && d4 == 0x1 {
        Some(Instr::Or(x, y))
    } else if d1 == 0x8 && d4 == 0x2 {
        Some(Instr::And(x, y))
    } else if d1 == 0x8 && d4 == 0x3 {
        Some(Instr::Xor(x, y))
    } else if d1 == 0x8 && d4 == 0x4 {
        Some(Instr::AddReg(x, y))
    } else if d1 == 0x8 && d4 == 0x5 {
        Some(Instr::Sub(x, y))
    } else if d1 == 0x8 && d4 == 0x6 {
        Some(Instr::Shr(x))
    } else if d1 == 0x8 && d4 == 0x7 {
        Some(Instr::Subn(x, y))
    } else if d1 == 0x8 && d4 == 0xE {
        Some(Instr::Shl(x))
    } else if d1 == 0x9 && d4 == 0x0 {
        Some(Instr::SneReg(x, y))
    } else if d1 == 0xA {
        Some(Instr::LdIndex(nnn))
    } else if d1 == 0xB {
        Some(Instr::JpV0(nnn))
    } else if d1 == 0xC {
        Some(Instr::Rnd(x, kk))
    } else if d1 == 0xD {
        Some(Instr::Drw(x, y, n))
    } else if d1 == 0xE && kk == 0x9E {
        Some(Instr::Skp(x))
    } else if d1 == 0xE && kk == 0xA1 {
        Some(Instr::Sknp(x))
    } else if d1 == 0xF && kk == 0x07 {
        Some(Instr::LdVxDt(x))
    } else if d1 == 0xF && kk == 0x0A {
        Some(Instr::WaitKey(x))
    } else if d1 == 0xF && kk == 0x15 {
        Some(Instr::LdDtVx(x))
    } else if d1 == 0xF && kk == 0x18 {
        Some(Instr::LdStVx(x))
    } else if d1 == 0xF && kk == 0x1E {
        Some(Instr::AddIndex(x))
    } else if d1 == 0xF && kk == 0x29 {
        Some(Instr::LdFont(x))
    } else if d1 == 0xF && kk == 0x33 {
        Some(Instr::StoreBcd(x))
    } else if d1 == 0xF && kk == 0x55 {
        Some(Instr::StoreRegs(x))
    } else if d1 == 0xF && kk == 0x65 {
        Some(Instr::LoadRegs(x))
    } else {
        None
    }
}

} // verus!
