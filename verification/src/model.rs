//! The mathematical model of the machine: an abstract state over sequences
//! and integers, one transition function per opcode, and the fetch-decode-
//! execute step built from them. The executable machine in [`crate::cpu`]
//! views into this model and every handler is proved against it.

use vstd::prelude::*;

use crate::decode::{spec_decode, Instr};

verus! {

/// The display is 64 pixels wide.
pub const VIDEO_WIDTH: usize = 64;

/// The display is 32 pixels tall.
pub const VIDEO_HEIGHT: usize = 32;

/// The addressable memory holds 4096 bytes.
pub const MEMORY_SIZE: usize = 4096;

/// Programs are loaded at, and execution starts at, this address.
pub const START_ADDRESS: u16 = 0x200;

/// The font sprite table starts at this address.
pub const FONTSET_START_ADDRESS: usize = 0x50;

/// The font sprite table holds 16 sprites of 5 bytes each.
pub const FONTSET_SIZE: usize = 80;

/// Everything that can go wrong in the core.
#[derive(Clone, Copy, PartialEq, Eq, Structural, Debug)]
pub enum Chip8Error {
    /// A fetched word matches no row of the decode table; carries the word.
    UnknownOpcode(u16),
    /// A call was made with the 16-entry stack already full.
    StackOverflow,
    /// A return was executed with an empty stack.
    StackUnderflow,
    /// An address computed by a handler, the index register, or the program
    /// counter reaches outside the 4096-byte memory, or a key index taken
    /// from a register reaches outside the 16-entry keypad.
    OutOfBoundsAccess,
    /// A ROM image does not fit in the memory above the start address.
    RomLoadError,
}

/// The abstract machine state.
#[verifier::ext_equal]
pub struct State {
    /// The sixteen general registers V0..VF, as a sequence of 16 bytes.
    pub regs: Seq<u8>,
    /// The 4096-byte memory.
    pub mem: Seq<u8>,
    /// The index register I.
    pub index: u16,
    /// The program counter.
    pub pc: u16,
    /// The 16-entry call stack of return addresses.
    pub stack: Seq<u16>,
    /// The stack pointer: the number of live stack entries.
    pub sp: int,
    /// The delay timer.
    pub dt: u8,
    /// The sound timer.
    pub st: u8,
    /// The 16 key states, true when pressed.
    pub keypad: Seq<bool>,
    /// The 64x32 display, row-major, true when a pixel is on.
    pub video: Seq<bool>,
}

impl State {
    /// Well-formedness: every component has its fixed size and the stack
    /// pointer stays within the 16-entry stack.
    pub open spec fn wf(self) -> bool {
        &&& self.regs.len() == 16
        &&& self.mem.len() == 4096
        &&& self.stack.len() == 16
        &&& 0 <= self.sp <= 16
        &&& self.keypad.len() == 16
        &&& self.video.len() == 2048
    }
}

/// The state with register `x` set to `v` and all else unchanged.
pub open spec fn upd_reg(s: State, x: int, v: u8) -> State {
    State { regs: s.regs.update(x, v), ..s }
}

/// The state with the program counter moved past the next instruction.
pub open spec fn skipped(s: State) -> State {
    State { pc: (s.pc + 2) as u16, ..s }
}

/// 00E0: all pixels off.
pub open spec fn spec_cls(s: State) -> State {
    State { video: Seq::new(s.video.len(), |p: int| false), ..s }
}

/// 00EE: pop the return address, or fail on an empty stack.
pub open spec fn spec_ret(s: State) -> Result<State, Chip8Error> {
    if s.sp <= 0 {
        Err(Chip8Error::StackUnderflow)
    } else {
        Ok(State { sp: s.sp - 1, pc: s.stack[s.sp - 1], ..s })
    }
}

/// 1nnn: jump.
pub open spec fn spec_jp(s: State, nnn: u16) -> State {
    State { pc: nnn, ..s }
}

/// 2nnn: push the current program counter and jump, or fail on a full stack.
pub open spec fn spec_call(s: State, nnn: u16) -> Result<State, Chip8Error> {
    if s.sp >= 16 {
        Err(Chip8Error::StackOverflow)
    } else {
        Ok(State { stack: s.stack.update(s.sp, s.pc), sp: s.sp + 1, pc: nnn, ..s })
    }
}

/// 3xkk: skip if Vx == kk.
pub open spec fn spec_se_byte(s: State, x: u8, kk: u8) -> State {
    if s.regs[x as int] == kk { skipped(s) } else { s }
}

/// 4xkk: skip if Vx != kk.
pub open spec fn spec_sne_byte(s: State, x: u8, kk: u8) -> State {
    if s.regs[x as int] != kk { skipped(s) } else { s }
}

/// 5xy0: skip if Vx == Vy.
pub open spec fn spec_se_reg(s: State, x: u8, y: u8) -> State {
    if s.regs[x as int] == s.regs[y as int] { skipped(s) } else { s }
}

/// 9xy0: skip if Vx != Vy.
pub open spec fn spec_sne_reg(s: State, x: u8, y: u8) -> State {
    if s.regs[x as int] != s.regs[y as int] { skipped(s) } else { s }
}

/// 6xkk: load an immediate.
pub open spec fn spec_ld_byte(s: State, x: u8, kk: u8) -> State {
    upd_reg(s, x as int, kk)
}

/// 7xkk: add an immediate, wrapping, without touching VF.
pub open spec fn spec_add_byte(s: State, x: u8, kk: u8) -> State {
    upd_reg(s, x as int, ((s.regs[x as int] + kk) % 256) as u8)
}

/// 8xy0: copy a register.
pub open spec fn spec_ld_reg(s: State, x: u8, y: u8) -> State {
    upd_reg(s, x as int, s.regs[y as int])
}

/// 8xy1: bitwise or.
pub open spec fn spec_or(s: State, x: u8, y: u8) -> State {
    upd_reg(s, x as int, s.regs[x as int] | s.regs[y as int])
}

/// 8xy2: bitwise and.
pub open spec fn spec_and(s: State, x: u8, y: u8) -> State {
    upd_reg(s, x as int, s.regs[x as int] & s.regs[y as int])
}

/// 8xy3: bitwise xor.
pub open spec fn spec_xor(s: State, x: u8, y: u8) -> State {
    upd_reg(s, x as int, s.regs[x as int] ^ s.regs[y as int])
}

/// 8xy4: wrapping sum into Vx, then the carry into VF. The flag is written
/// last, from the original operands, so it wins when x is 15.
pub open spec fn spec_add_reg(s: State, x: u8, y: u8) -> State {
    let sum = s.regs[x as int] + s.regs[y as int];
    State {
        regs: s.regs.update(x as int, (sum % 256) as u8).update(
            15,
            if sum > 255 { 1u8 } else { 0u8 },
        ),
        ..s
    }
}

/// 8xy5: wrapping difference Vx - Vy into Vx, then the no-borrow flag into
/// VF, written last from the original operands.
pub open spec fn spec_sub(s: State, x: u8, y: u8) -> State {
    let vx = s.regs[x as int];
    let vy = s.regs[y as int];
    State {
        regs: s.regs.update(x as int, ((vx - vy) % 256) as u8).update(
            15,
            if vx >= vy { 1u8 } else { 0u8 },
        ),
        ..s
    }
}

/// 8xy7: wrapping difference Vy - Vx into Vx, then the no-borrow flag into
/// VF, written last from the original operands.
pub open spec fn spec_subn(s: State, x: u8, y: u8) -> State {
    let vx = s.regs[x as int];
    let vy = s.regs[y as int];
    State {
        regs: s.regs.update(x as int, ((vy - vx) % 256) as u8).update(
            15,
            if vy >= vx { 1u8 } else { 0u8 },
        ),
        ..s
    }
}

/// 8xy6: halve Vx, then the shifted-out low bit into VF, written last.
pub open spec fn spec_shr(s: State, x: u8) -> State {
    let vx = s.regs[x as int];
    State {
        regs: s.regs.update(x as int, (vx / 2) as u8).update(15, (vx % 2) as u8),
        ..s
    }
}

/// 8xyE: double Vx modulo 256, then the shifted-out high bit into VF,
/// written last.
pub open spec fn spec_shl(s: State, x: u8) -> State {
    let vx = s.regs[x as int];
    State {
        regs: s.regs.update(x as int, ((vx * 2) % 256) as u8).update(15, (vx / 128) as u8),
        ..s
    }
}

/// Annn: load the index register.
pub open spec fn spec_ld_index(s: State, nnn: u16) -> State {
    State { index: nnn, ..s }
}

/// Bnnn: jump to V0 + nnn.
pub open spec fn spec_jp_v0(s: State, nnn: u16) -> State {
    State { pc: (s.regs[0] + nnn) as u16, ..s }
}

/// Cxkk: the random byte masked by kk into Vx.
pub open spec fn spec_rnd(s: State, x: u8, kk: u8, b: u8) -> State {
    upd_reg(s, x as int, b & kk)
}

/// The value of the bit for column `c` of a sprite row, most significant
/// bit first.
pub open spec fn col_weight(c: int) -> int {
    if c == 0 {
        128
    } else if c == 1 {
        64
    } else if c == 2 {
        32
    } else if c == 3 {
        16
    } else if c == 4 {
        8
    } else if c == 5 {
        4
    } else if c == 6 {
        2
    } else {
        1
    }
}

/// Whether column `c` (0 is leftmost) of sprite row byte `b` is set.
pub open spec fn sprite_row_bit(b: u8, c: int) -> bool {
    (b as int / col_weight(c)) % 2 == 1
}

/// Whether drawing `sprite` with its top-left corner at column `xp`, row
/// `yp` toggles the pixel at row-major position `p`. Positions outside the
/// 64-wide rows never qualify, so sprites are clipped at the display edge
/// rather than wrapped.
pub open spec fn draw_flips(sprite: Seq<u8>, xp: int, yp: int, p: int) -> bool {
    let r = p / 64;
    let c = p % 64;
    &&& yp <= r < yp + sprite.len()
    &&& xp <= c < xp + 8
    &&& sprite_row_bit(sprite[r - yp], c - xp)
}

/// The order in which the drawing loops visit the cell that toggles pixel
/// `p`: row-major within the 8-wide sprite box.
pub open spec fn cell_ord(xp: int, yp: int, p: int) -> int {
    (p / 64 - yp) * 8 + (p % 64 - xp)
}

/// The pixel at display row `yp + row`, column `xp + col` decomposes back
/// into that row and column.
pub proof fn lemma_pixel_coords(xp: int, yp: int, row: int, col: int)
    requires
        0 <= xp < 64,
        0 <= yp < 32,
        0 <= row,
        yp + row < 32,
        0 <= col < 8,
        xp + col < 64,
    ensures
        ((yp + row) * 64 + (xp + col)) / 64 == yp + row,
        ((yp + row) * 64 + (xp + col)) % 64 == xp + col,
        0 <= (yp + row) * 64 + (xp + col) < 2048,
        cell_ord(xp, yp, (yp + row) * 64 + (xp + col)) == 8 * row + col,
{
    let p = (yp + row) * 64 + (xp + col);
    assert(p / 64 == yp + row && p % 64 == xp + col) by (nonlinear_arith)
        requires
            p == (yp + row) * 64 + (xp + col),
            0 <= xp + col < 64,
            0 <= yp + row,
    ;
}

/// Within the sprite box, a cell order determines the pixel: the pixel with
/// order `8 * row + col` is the one at display row `yp + row`, column
/// `xp + col`, and its sprite bit is the bit the loops tested there.
pub proof fn lemma_cell_ord_unique(sprite: Seq<u8>, xp: int, yp: int, row: int, col: int, q: int)
    requires
        0 <= xp < 64,
        0 <= yp < 32,
        0 <= row,
        0 <= col < 8,
        0 <= q < 2048,
        draw_flips(sprite, xp, yp, q),
        cell_ord(xp, yp, q) == 8 * row + col,
    ensures
        yp + row < 32,
        xp + col < 64,
        q == (yp + row) * 64 + (xp + col),
        sprite_row_bit(sprite[row], col),
        row < sprite.len(),
{
    let r = q / 64;
    let c = q % 64;
    assert(q == 64 * r + c && 0 <= c < 64 && 0 <= r < 32);
    assert((r - yp) * 8 + (c - xp) == 8 * row + col);
    assert(r - yp == row && c - xp == col) by (nonlinear_arith)
        requires
            (r - yp) * 8 + (c - xp) == 8 * row + col,
            0 <= c - xp < 8,
            0 <= col < 8,
    ;
}

/// The display after xor-compositing `sprite` at (`xp`, `yp`).
pub open spec fn draw_video(v: Seq<bool>, sprite: Seq<u8>, xp: int, yp: int) -> Seq<bool> {
    Seq::new(v.len(), |p: int| if draw_flips(sprite, xp, yp, p) { !v[p] } else { v[p] })
}

/// Whether the drawing turns some pixel from on to off.
pub open spec fn draw_collision(v: Seq<bool>, sprite: Seq<u8>, xp: int, yp: int) -> bool {
    exists|p: int| 0 <= p < v.len() && #[trigger] draw_flips(sprite, xp, yp, p) && v[p]
}

/// Dxyn: xor the n-row sprite at memory[I..] onto the display at
/// (Vx mod 64, Vy mod 32), then the collision flag into VF. Fails without
/// effect when the sprite bytes reach outside memory.
pub open spec fn spec_drw(s: State, x: u8, y: u8, n: u8) -> Result<State, Chip8Error> {
    if s.index + n > 4096 {
        Err(Chip8Error::OutOfBoundsAccess)
    } else {
        let xp = (s.regs[x as int] as int) % 64;
        let yp = (s.regs[y as int] as int) % 32;
        let sprite = s.mem.subrange(s.index as int, s.index as int + n);
        Ok(
            State {
                video: draw_video(s.video, sprite, xp, yp),
                regs: s.regs.update(
                    15,
                    if draw_collision(s.video, sprite, xp, yp) { 1u8 } else { 0u8 },
                ),
                ..s
            },
        )
    }
}

/// Ex9E: skip if the key named by Vx is pressed; a key index above 15 is an
/// out-of-bounds access.
pub open spec fn spec_skp(s: State, x: u8) -> Result<State, Chip8Error> {
    let k = s.regs[x as int];
    if k >= 16 {
        Err(Chip8Error::OutOfBoundsAccess)
    } else if s.keypad[k as int] {
        Ok(skipped(s))
    } else {
        Ok(s)
    }
}

/// ExA1: skip if the key named by Vx is not pressed; a key index above 15 is
/// an out-of-bounds access.
pub open spec fn spec_sknp(s: State, x: u8) -> Result<State, Chip8Error> {
    let k = s.regs[x as int];
    if k >= 16 {
        Err(Chip8Error::OutOfBoundsAccess)
    } else if s.keypad[k as int] {
        Ok(s)
    } else {
        Ok(skipped(s))
    }
}

/// Fx07: read the delay timer.
pub open spec fn spec_ld_vx_dt(s: State, x: u8) -> State {
    upd_reg(s, x as int, s.dt)
}

/// The lowest pressed key index at or above `i`, if any.
pub open spec fn first_pressed_from(keys: Seq<bool>, i: int) -> Option<u8>
    decreases 16 - i,
{
    if i < 0 || i >= 16 {
        None
    } else if keys[i] {
        Some(i as u8)
    } else {
        first_pressed_from(keys, i + 1)
    }
}

/// Fx0A: if a key is pressed, its lowest index goes into Vx; otherwise the
/// program counter rewinds by 2, so the instruction runs again next cycle.
pub open spec fn spec_wait_key(s: State, x: u8) -> State {
    match first_pressed_from(s.keypad, 0) {
        Some(k) => upd_reg(s, x as int, k),
        None => State { pc: (s.pc - 2) as u16, ..s },
    }
}

/// Fx15: load the delay timer.
pub open spec fn spec_ld_dt_vx(s: State, x: u8) -> State {
    State { dt: s.regs[x as int], ..s }
}

/// Fx18: load the sound timer.
pub open spec fn spec_ld_st_vx(s: State, x: u8) -> State {
    State { st: s.regs[x as int], ..s }
}

/// Fx1E: add Vx to the index register, wrapping at 16 bits.
pub open spec fn spec_add_index(s: State, x: u8) -> State {
    State { index: ((s.index + s.regs[x as int]) % 0x10000) as u16, ..s }
}

/// Fx29: point the index register at the 5-byte font sprite for digit Vx.
pub open spec fn spec_ld_font(s: State, x: u8) -> State {
    State { index: (0x50 + 5 * s.regs[x as int]) as u16, ..s }
}

/// Fx33: the decimal hundreds, tens and units of Vx into memory[I..I+3].
/// Fails without effect when those addresses reach outside memory.
pub open spec fn spec_bcd(s: State, x: u8) -> Result<State, Chip8Error> {
    if s.index + 3 > 4096 {
        Err(Chip8Error::OutOfBoundsAccess)
    } else {
        let v = s.regs[x as int] as int;
        let base = s.index as int;
        Ok(
            State {
                mem: s.mem.update(base, (v / 100) as u8).update(
                    base + 1,
                    ((v / 10) % 10) as u8,
                ).update(base + 2, (v % 10) as u8),
                ..s
            },
        )
    }
}

/// Fx55: copy V0..=Vx into memory[I..]. Fails without effect when the
/// destination reaches outside memory.
pub open spec fn spec_store_regs(s: State, x: u8) -> Result<State, Chip8Error> {
    if s.index + x + 1 > 4096 {
        Err(Chip8Error::OutOfBoundsAccess)
    } else {
        let base = s.index as int;
        Ok(
            State {
                mem: Seq::new(
                    s.mem.len(),
                    |j: int| if base <= j <= base + x { s.regs[j - base] } else { s.mem[j] },
                ),
                ..s
            },
        )
    }
}

/// Fx65: copy memory[I..] into V0..=Vx, the higher registers unchanged.
/// Fails without effect when the source reaches outside memory.
pub open spec fn spec_load_regs(s: State, x: u8) -> Result<State, Chip8Error> {
    if s.index + x + 1 > 4096 {
        Err(Chip8Error::OutOfBoundsAccess)
    } else {
        let base = s.index as int;
        Ok(
            State {
                regs: Seq::new(
                    s.regs.len(),
                    |j: int| if 0 <= j <= x { s.mem[base + j] } else { s.regs[j] },
                ),
                ..s
            },
        )
    }
}

/// The effect of one decoded instruction on the machine state, given the
/// byte `b` drawn for a random-number instruction.
pub open spec fn spec_exec(s: State, i: Instr, b: u8) -> Result<State, Chip8Error> {
    match i {
        Instr::Cls => Ok(spec_cls(s)),
        Instr::Ret => spec_ret(s),
        Instr::Jp(nnn) => Ok(spec_jp(s, nnn)),
        Instr::Call(nnn) => spec_call(s, nnn),
        Instr::SeByte(x, kk) => Ok(spec_se_byte(s, x, kk)),
        Instr::SneByte(x, kk) => Ok(spec_sne_byte(s, x, kk)),
        Instr::SeReg(x, y) => Ok(spec_se_reg(s, x, y)),
        Instr::LdByte(x, kk) => Ok(spec_ld_byte(s, x, kk)),
        Instr::AddByte(x, kk) => Ok(spec_add_byte(s, x, kk)),
        Instr::LdReg(x, y) => Ok(spec_ld_reg(s, x, y)),
        Instr::Or(x, y) => Ok(spec_or(s, x, y)),
        Instr::And(x, y) => Ok(spec_and(s, x, y)),
        Instr::Xor(x, y) => Ok(spec_xor(s, x, y)),
        Instr::AddReg(x, y) => Ok(spec_add_reg(s, x, y)),
        Instr::Sub(x, y) => Ok(spec_sub(s, x, y)),
        Instr::Shr(x) => Ok(spec_shr(s, x)),
        Instr::Subn(x, y) => Ok(spec_subn(s, x, y)),
        Instr::Shl(x) => Ok(spec_shl(s, x)),
        Instr::SneReg(x, y) => Ok(spec_sne_reg(s, x, y)),
        Instr::LdIndex(nnn) => Ok(spec_ld_index(s, nnn)),
        Instr::JpV0(nnn) => Ok(spec_jp_v0(s, nnn)),
        Instr::Rnd(x, kk) => Ok(spec_rnd(s, x, kk, b)),
        Instr::Drw(x, y, n) => spec_drw(s, x, y, n),
        Instr::Skp(x) => spec_skp(s, x),
        Instr::Sknp(x) => spec_sknp(s, x),
        Instr::LdVxDt(x) => Ok(spec_ld_vx_dt(s, x)),
        Instr::WaitKey(x) => Ok(spec_wait_key(s, x)),
        Instr::LdDtVx(x) => Ok(spec_ld_dt_vx(s, x)),
        Instr::LdStVx(x) => Ok(spec_ld_st_vx(s, x)),
        Instr::AddIndex(x) => Ok(spec_add_index(s, x)),
        Instr::LdFont(x) => Ok(spec_ld_font(s, x)),
        Instr::StoreBcd(x) => spec_bcd(s, x),
        Instr::StoreRegs(x) => spec_store_regs(s, x),
        Instr::LoadRegs(x) => spec_load_regs(s, x),
    }
}

/// The big-endian 16-bit word at the program counter.
pub open spec fn spec_fetch(s: State) -> u16 {
    ((s.mem[s.pc as int] as int) * 256 + (s.mem[s.pc as int + 1] as int)) as u16
}

/// One fetch-decode-execute step: fetch the word at the program counter,
/// advance past it, decode and execute. An error leaves the state as it was,
/// the program counter included.
pub open spec fn spec_step(s: State, b: u8) -> Result<State, Chip8Error> {
    if s.pc as int + 1 >= 4096 {
        Err(Chip8Error::OutOfBoundsAccess)
    } else {
        let op = spec_fetch(s);
        match spec_decode(op) {
            None => Err(Chip8Error::UnknownOpcode(op)),
            Some(i) => spec_exec(State { pc: (s.pc + 2) as u16, ..s }, i, b),
        }
    }
}

/// One 60 Hz timer tick: each nonzero timer counts down by one.
pub open spec fn spec_tick(s: State) -> State {
    State {
        dt: if s.dt > 0 { (s.dt - 1) as u8 } else { 0u8 },
        st: if s.st > 0 { (s.st - 1) as u8 } else { 0u8 },
        ..s
    }
}

/// A step followed by a timer tick, for a driver that ages the timers at
/// the instruction rate.
pub open spec fn spec_cycle(s: State, b: u8) -> Result<State, Chip8Error> {
    match spec_step(s, b) {
        Ok(s2) => Ok(spec_tick(s2)),
        Err(e) => Err(e),
    }
}

/// A ROM image written into memory from the start address up; the rest of
/// memory keeps its contents.
pub open spec fn spec_load_rom(s: State, rom: Seq<u8>) -> State {
    State {
        mem: Seq::new(
            s.mem.len(),
            |j: int| if 0x200 <= j < 0x200 + rom.len() { rom[j - 0x200] } else { s.mem[j] },
        ),
        ..s
    }
}

/// A fresh keypad snapshot supplied by the caller.
pub open spec fn spec_set_keypad(s: State, keys: Seq<bool>) -> State {
    State { keypad: keys, ..s }
}

/// How an executable transition relates to its model: on success the new
/// state is the transition's result; on an error it is the transition's
/// error and the state is untouched.
pub open spec fn steps_to(
    pre: State,
    post: State,
    r: Result<(), Chip8Error>,
    t: Result<State, Chip8Error>,
) -> bool {
    match (r, t) {
        (Ok(()), Ok(s2)) => post == s2,
        (Err(e1), Err(e2)) => e1 == e2 && post == pre,
        _ => false,
    }
}

} // verus!
