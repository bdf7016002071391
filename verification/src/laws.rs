//! Laws of the instruction set that relate the transition functions, stated
//! and proved once for every well-formed state.

use vstd::prelude::*;

use crate::decode::spec_decode;
use crate::model::{
    draw_video, spec_add_reg, spec_call, spec_cls, spec_drw, spec_fetch, spec_jp, spec_ret,
    spec_step, spec_sub, Chip8Error, State,
};

verus! {

/// Adding registers leaves the wrapped sum in the destination and puts the
/// carry in VF: the flag is 1 exactly when the unwrapped sum exceeds 255,
/// and where the destination is not VF itself, it holds the sum modulo 256.
pub proof fn lemma_add_reg_carry(s: State, x: u8, y: u8)
    requires
        s.wf(),
        x < 16,
        y < 16,
    ensures
        spec_add_reg(s, x, y).regs[15] == (if s.regs[x as int] + s.regs[y as int] > 255 {
            1u8
        } else {
            0u8
        }),
        x != 15 ==> spec_add_reg(s, x, y).regs[x as int] == ((s.regs[x as int]
            + s.regs[y as int]) % 256) as u8,
{
}

/// Subtracting registers leaves the wrapped difference in the destination
/// and puts the no-borrow flag in VF: the flag is 1 exactly when Vx >= Vy,
/// and where the destination is not VF itself, it holds Vx - Vy modulo 256.
pub proof fn lemma_sub_borrow(s: State, x: u8, y: u8)
    requires
        s.wf(),
        x < 16,
        y < 16,
    ensures
        spec_sub(s, x, y).regs[15] == (if s.regs[x as int] >= s.regs[y as int] {
            1u8
        } else {
            0u8
        }),
        x != 15 ==> spec_sub(s, x, y).regs[x as int] == ((s.regs[x as int] - s.regs[y as int])
            % 256) as u8,
{
}

/// Clearing the display turns every pixel off, whatever was shown before.
pub proof fn lemma_cls_all_off(s: State, p: int)
    requires
        s.wf(),
        0 <= p < 2048,
    ensures
        !spec_cls(s).video[p],
{
}

/// A jump sets the program counter to its target, whatever it was before.
pub proof fn lemma_jp_sets_pc(s: State, nnn: u16)
    ensures
        spec_jp(s, nnn).pc == nnn,
{
}

/// Xor-compositing is its own inverse: drawing the same sprite at the same
/// position twice restores every pixel.
pub proof fn lemma_draw_round_trip(v: Seq<bool>, sprite: Seq<u8>, xp: int, yp: int)
    ensures
        draw_video(draw_video(v, sprite, xp, yp), sprite, xp, yp) == v,
{
    assert(draw_video(draw_video(v, sprite, xp, yp), sprite, xp, yp) =~= v);
}

/// The drawing instruction run twice with the same operands restores the
/// display, as long as neither coordinate register is VF, which the first
/// drawing overwrites with its collision flag.
pub proof fn lemma_drw_round_trip(s: State, x: u8, y: u8, n: u8)
    requires
        s.wf(),
        x < 16,
        y < 16,
        x != 15,
        y != 15,
        spec_drw(s, x, y, n) is Ok,
    ensures
        spec_drw(spec_drw(s, x, y, n)->Ok_0, x, y, n) is Ok,
        spec_drw(spec_drw(s, x, y, n)->Ok_0, x, y, n)->Ok_0.video == s.video,
{
    let s1 = spec_drw(s, x, y, n)->Ok_0;
    assert(s1.regs[x as int] == s.regs[x as int]);
    assert(s1.regs[y as int] == s.regs[y as int]);
    let sprite = s.mem.subrange(s.index as int, s.index as int + n);
    let xp = (s.regs[x as int] as int) % 64;
    let yp = (s.regs[y as int] as int) % 32;
    assert(s1.mem.subrange(s1.index as int, s1.index as int + n) == sprite);
    lemma_draw_round_trip(s.video, sprite, xp, yp);
}

/// A call followed at once by a return restores the program counter and the
/// stack depth, for any stack depth that has room for the call; registers,
/// memory, display and timers are untouched by the pair.
pub proof fn lemma_call_ret_round_trip(s: State, nnn: u16)
    requires
        s.wf(),
        0 <= s.sp < 16,
    ensures
        spec_call(s, nnn) is Ok,
        spec_ret(spec_call(s, nnn)->Ok_0) is Ok,
        spec_ret(spec_call(s, nnn)->Ok_0)->Ok_0.pc == s.pc,
        spec_ret(spec_call(s, nnn)->Ok_0)->Ok_0.sp == s.sp,
        spec_ret(spec_call(s, nnn)->Ok_0)->Ok_0.regs == s.regs,
        spec_ret(spec_call(s, nnn)->Ok_0)->Ok_0.mem == s.mem,
        spec_ret(spec_call(s, nnn)->Ok_0)->Ok_0.video == s.video,
        spec_ret(spec_call(s, nnn)->Ok_0)->Ok_0.dt == s.dt,
        spec_ret(spec_call(s, nnn)->Ok_0)->Ok_0.st == s.st,
{
}

/// A word that matches no row of the decode table makes the step report it
/// as an unknown opcode; together with the step contract this leaves every
/// register, memory cell and pixel as it was.
pub proof fn lemma_unknown_opcode_rejected(s: State, b: u8)
    requires
        s.pc as int + 1 < 4096,
        spec_decode(spec_fetch(s)) is None,
    ensures
        spec_step(s, b) == Err::<State, Chip8Error>(Chip8Error::UnknownOpcode(spec_fetch(s))),
{
}

} // verus!
