//! The opcode handlers and the fetch-decode-execute cycle, each proved
//! against its transition in [`crate::model`].

use vstd::prelude::*;

use crate::cpu::Chip8;
use crate::decode::{decode, instr_wf, Instr};
use crate::model::{
    cell_ord, col_weight, draw_collision, draw_flips, draw_video, first_pressed_from,
    lemma_cell_ord_unique, lemma_pixel_coords, sprite_row_bit, spec_add_byte,
    spec_add_index, spec_add_reg, spec_and, spec_bcd, spec_call, spec_cls, spec_cycle, spec_drw,
    spec_exec, spec_jp, spec_jp_v0, spec_ld_byte, spec_ld_dt_vx, spec_ld_font, spec_ld_index,
    spec_ld_reg, spec_ld_st_vx, spec_ld_vx_dt, spec_load_regs, spec_or, spec_ret, spec_rnd,
    spec_se_byte, spec_se_reg, spec_shl, spec_shr, spec_sknp, spec_skp, spec_sne_byte,
    spec_sne_reg, spec_step, spec_store_regs, spec_sub, spec_subn, spec_tick, spec_wait_key,
    spec_xor, steps_to, Chip8Error, State,
};
use crate::rng::random_byte;

verus! {

impl Chip8 {
    /// 00E0: clear the display.
    pub fn op_00e0(&mut self)
        requires
            old(self)@.wf(),
        ensures
            final(self)@.wf(),
            final(self)@ == spec_cls(old(self)@),
    {
        let ghost s0 = self@;
        let mut i: usize = 0;
        while i < 64 * 32
            invariant
                i <= 2048,
                self@ == (State { video: self.video@, ..s0 }),
                self.video@.len() == 2048,
                forall|j: int| 0 <= j < i ==> !self.video@[j],
            decreases 2048 - i,
        {
            self.video.set(i, false);
            i += 1;
        }
        proof {
            assert(self.video@ =~= spec_cls(s0).video);
            assert(self@ =~= spec_cls(s0));
        }
    }

    /// 00EE: return from a subroutine, or report an underflow untouched.
    pub fn op_00ee(&mut self) -> (r: Result<(), Chip8Error>)
        requires
            old(self)@.wf(),
        ensures
            final(self)@.wf(),
            steps_to(old(self)@, final(self)@, r, spec_ret(old(self)@)),
    {
        if self.sp == 0 {
            return Err(Chip8Error::StackUnderflow);
        }
        self.sp = self.sp - 1;
        self.pc = self.stack[self.sp];
        Ok(())
    }

    /// 1nnn: jump.
    pub fn op_1nnn(&mut self, nnn: u16)
        requires
            old(self)@.wf(),
        ensures
            final(self)@.wf(),
            final(self)@ == spec_jp(old(self)@, nnn),
    {
        self.pc = nnn;
    }

    /// 2nnn: call a subroutine, or report an overflow untouched.
    pub fn op_2nnn(&mut self, nnn: u16) -> (r: Result<(), Chip8Error>)
        requires
            old(self)@.wf(),
        ensures
            final(self)@.wf(),
            steps_to(old(self)@, final(self)@, r, spec_call(old(self)@, nnn)),
    {
        if self.sp >= 16 {
            return Err(Chip8Error::StackOverflow);
        }
        let pc = self.pc;
        self.stack.set(self.sp, pc);
        self.sp = self.sp + 1;
        self.pc = nnn;
        Ok(())
    }

    /// 3xkk: skip the next instruction if Vx == kk.
    pub fn op_3xkk(&mut self, x: u8, kk: u8)
        requires
            old(self)@.wf(),
            x < 16,
            old(self).pc + 2 <= 0xFFFF,
        ensures
            final(self)@.wf(),
            final(self)@ == spec_se_byte(old(self)@, x, kk),
    {
        if self.registers[x as usize] == kk {
            self.pc = self.pc + 2;
        }
    }

    /// 4xkk: skip the next instruction if Vx != kk.
    pub fn op_4xkk(&mut self, x: u8, kk: u8)
        requires
            old(self)@.wf(),
            x < 16,
            old(self).pc + 2 <= 0xFFFF,
        ensures
            final(self)@.wf(),
            final(self)@ == spec_sne_byte(old(self)@, x, kk),
    {
        if self.registers[x as usize] != kk {
            self.pc = self.pc + 2;
        }
    }

    /// 5xy0: skip the next instruction if Vx == Vy.
    pub fn op_5xy0(&mut self, x: u8, y: u8)
        requires
            old(self)@.wf(),
            x < 16,
            y < 16,
            old(self).pc + 2 <= 0xFFFF,
        ensures
            final(self)@.wf(),
            final(self)@ == spec_se_reg(old(self)@, x, y),
    {
        if self.registers[x as usize] == self.registers[y as usize] {
            self.pc = self.pc + 2;
        }
    }

    /// 9xy0: skip the next instruction if Vx != Vy.
    pub fn op_9xy0(&mut self, x: u8, y: u8)
        requires
            old(self)@.wf(),
            x < 16,
            y < 16,
            old(self).pc + 2 <= 0xFFFF,
        ensures
            final(self)@.wf(),
            final(self)@ == spec_sne_reg(old(self)@, x, y),
    {
        if self.registers[x as usize] != self.registers[y as usize] {
            self.pc = self.pc + 2;
        }
    }

    /// 6xkk: load an immediate into Vx.
    pub fn op_6xkk(&mut self, x: u8, kk: u8)
        requires
            old(self)@.wf(),
            x < 16,
        ensures
            final(self)@.wf(),
            final(self)@ == spec_ld_byte(old(self)@, x, kk),
    {
        self.registers.set(x as usize, kk);
    }

    /// 7xkk: add an immediate to Vx, wrapping, without touching VF.
    pub fn op_7xkk(&mut self, x: u8, kk: u8)
        requires
            old(self)@.wf(),
            x < 16,
        ensures
            final(self)@.wf(),
            final(self)@ == spec_add_byte(old(self)@, x, kk),
    {
        let sum: u16 = self.registers[x as usize] as u16 + kk as u16;
        self.registers.set(x as usize, (sum % 256) as u8);
    }

    /// 8xy0: copy Vy into Vx.
    pub fn op_8xy0(&mut self, x: u8, y: u8)
        requires
            old(self)@.wf(),
            x < 16,
            y < 16,
        ensures
            final(self)@.wf(),
            final(self)@ == spec_ld_reg(old(self)@, x, y),
    {
        let vy = self.registers[y as usize];
        self.registers.set(x as usize, vy);
    }

    /// 8xy1: Vx |= Vy.
    pub fn op_8xy1(&mut self, x: u8, y: u8)
        requires
            old(self)@.wf(),
            x < 16,
            y < 16,
        ensures
            final(self)@.wf(),
            final(self)@ == spec_or(old(self)@, x, y),
    {
        let v = self.registers[x as usize] | self.registers[y as usize];
        self.registers.set(x as usize, v);
    }

    /// 8xy2: Vx &= Vy.
    pub fn op_8xy2(&mut self, x: u8, y: u8)
        requires
            old(self)@.wf(),
            x < 16,
            y < 16,
        ensures
            final(self)@.wf(),
            final(self)@ == spec_and(old(self)@, x, y),
    {
        let v = self.registers[x as usize] & self.registers[y as usize];
        self.registers.set(x as usize, v);
    }

    /// 8xy3: Vx ^= Vy.
    pub fn op_8xy3(&mut self, x: u8, y: u8)
        requires
            old(self)@.wf(),
            x < 16,
            y < 16,
        ensures
            final(self)@.wf(),
            final(self)@ == spec_xor(old(self)@, x, y),
    {
        let v = self.registers[x as usize] ^ self.registers[y as usize];
        self.registers.set(x as usize, v);
    }

    /// 8xy4: Vx = Vx + Vy wrapping; VF reports the carry and is written
    /// last, so it wins when x is 15.
    pub fn op_8xy4(&mut self, x: u8, y: u8)
        requires
            old(self)@.wf(),
            x < 16,
            y < 16,
        ensures
            final(self)@.wf(),
            final(self)@ == spec_add_reg(old(self)@, x, y),
    {
        let sum: u16 = self.registers[x as usize] as u16 + self.registers[y as usize] as u16;
        self.registers.set(x as usize, (sum % 256) as u8);
        self.registers.set(15, if sum > 255 { 1 } else { 0 });
    }

    /// 8xy5: Vx = Vx - Vy wrapping; VF reports no-borrow and is written
    /// last.
    pub fn op_8xy5(&mut self, x: u8, y: u8)
        requires
            old(self)@.wf(),
            x < 16,
            y < 16,
        ensures
            final(self)@.wf(),
            final(self)@ == spec_sub(old(self)@, x, y),
    {
        let vx = self.registers[x as usize];
        let vy = self.registers[y as usize];
        let diff: u8 = if vx >= vy {
            vx - vy
        } else {
            (256 + vx as u16 - vy as u16) as u8
        };
        self.registers.set(x as usize, diff);
        self.registers.set(15, if vx >= vy { 1 } else { 0 });
    }

    /// 8xy6: Vx >>= 1; VF reports the shifted-out bit and is written last.
    pub fn op_8xy6(&mut self, x: u8)
        requires
            old(self)@.wf(),
            x < 16,
        ensures
            final(self)@.wf(),
            final(self)@ == spec_shr(old(self)@, x),
    {
        let vx = self.registers[x as usize];
        self.registers.set(x as usize, vx / 2);
        self.registers.set(15, vx % 2);
    }

    /// 8xy7: Vx = Vy - Vx wrapping; VF reports no-borrow and is written
    /// last.
    pub fn op_8xy7(&mut self, x: u8, y: u8)
        requires
            old(self)@.wf(),
            x < 16,
            y < 16,
        ensures
            final(self)@.wf(),
            final(self)@ == spec_subn(old(self)@, x, y),
    {
        let vx = self.registers[x as usize];
        let vy = self.registers[y as usize];
        let diff: u8 = if vy >= vx {
            vy - vx
        } else {
            (256 + vy as u16 - vx as u16) as u8
        };
        self.registers.set(x as usize, diff);
        self.registers.set(15, if vy >= vx { 1 } else { 0 });
    }

    /// 8xyE: Vx <<= 1 wrapping; VF reports the shifted-out bit and is
    /// written last.
    pub fn op_8xye(&mut self, x: u8)
        requires
            old(self)@.wf(),
            x < 16,
        ensures
            final(self)@.wf(),
            final(self)@ == spec_shl(old(self)@, x),
    {
        let vx = self.registers[x as usize];
        let dbl: u8 = ((vx as u16 * 2) % 256) as u8;
        self.registers.set(x as usize, dbl);
        self.registers.set(15, vx / 128);
    }

    /// Annn: load the index register.
    pub fn op_annn(&mut self, nnn: u16)
        requires
            old(self)@.wf(),
        ensures
            final(self)@.wf(),
            final(self)@ == spec_ld_index(old(self)@, nnn),
    {
        self.index = nnn;
    }

    /// Bnnn: jump to V0 + nnn.
    pub fn op_bnnn(&mut self, nnn: u16)
        requires
            old(self)@.wf(),
            nnn < 0x1000,
        ensures
            final(self)@.wf(),
            final(self)@ == spec_jp_v0(old(self)@, nnn),
    {
        self.pc = self.registers[0] as u16 + nnn;
    }

    /// Cxkk: a random byte, drawn by the caller, masked by kk into Vx.
    pub fn op_cxkk(&mut self, x: u8, kk: u8, b: u8)
        requires
            old(self)@.wf(),
            x < 16,
        ensures
            final(self)@.wf(),
            final(self)@ == spec_rnd(old(self)@, x, kk, b),
    {
        self.registers.set(x as usize, b & kk);
    }

    /// Dxyn: xor the n-row sprite at memory[I..] onto the display at
    /// (Vx mod 64, Vy mod 32), clipping at the display edges; VF reports
    /// whether any pixel went from on to off. A sprite that would be read
    /// from outside memory is reported untouched.
    #[verifier::loop_isolation(false)]
    #[verifier::rlimit(30)]
    pub fn op_dxyn(&mut self, x: u8, y: u8, n: u8) -> (r: Result<(), Chip8Error>)
        requires
            old(self)@.wf(),
            x < 16,
            y < 16,
        ensures
            final(self)@.wf(),
            steps_to(old(self)@, final(self)@, r, spec_drw(old(self)@, x, y, n)),
    {
        if self.index as usize + n as usize > 4096 {
            return Err(Chip8Error::OutOfBoundsAccess);
        }
        let ghost s0 = self@;
        let ghost sprite = s0.mem.subrange(s0.index as int, s0.index as int + n);
        let ghost xpi: int = s0.regs[x as int] as int % 64;
        let ghost ypi: int = s0.regs[y as int] as int % 32;
        let xp: usize = self.registers[x as usize] as usize % 64;
        let yp: usize = self.registers[y as usize] as usize % 32;
        let base: usize = self.index as usize;
        let mut collided: bool = false;
        let mut row: usize = 0;
        while row < n as usize
            invariant
                row <= n,
                self@ == (State { video: self.video@, ..s0 }),
                self.video@.len() == 2048,
                forall|q: int|
                    0 <= q < 2048 ==> self.video@[q] == (if draw_flips(sprite, xpi, ypi, q)
                        && cell_ord(xpi, ypi, q) < 8 * row {
                        !s0.video[q]
                    } else {
                        s0.video[q]
                    }),
                collided == exists|q: int|
                    0 <= q < 2048 && #[trigger] draw_flips(sprite, xpi, ypi, q) && cell_ord(
                        xpi,
                        ypi,
                        q,
                    ) < 8 * row && s0.video[q],
            decreases n - row,
        {
            let sprite_byte: u8 = self.memory[base + row];
            proof {
                assert(sprite_byte == sprite[row as int]);
            }
            let mut col: usize = 0;
            while col < 8
                invariant
                    col <= 8,
                    self@ == (State { video: self.video@, ..s0 }),
                    self.video@.len() == 2048,
                    forall|q: int|
                        0 <= q < 2048 ==> self.video@[q] == (if draw_flips(sprite, xpi, ypi, q)
                            && cell_ord(xpi, ypi, q) < 8 * row + col {
                            !s0.video[q]
                        } else {
                            s0.video[q]
                        }),
                    collided == exists|q: int|
                        0 <= q < 2048 && #[trigger] draw_flips(sprite, xpi, ypi, q) && cell_ord(
                            xpi,
                            ypi,
                            q,
                        ) < 8 * row + col && s0.video[q],
                decreases 8 - col,
            {
                let ghost collided0 = collided;
                let ghost done: int = 8 * (row as int) + (col as int);
                let wt: u8 = if col == 0 {
                    128
                } else if col == 1 {
                    64
                } else if col == 2 {
                    32
                } else if col == 3 {
                    16
                } else if col == 4 {
                    8
                } else if col == 5 {
                    4
                } else if col == 6 {
                    2
                } else {
                    1
                };
                let on: bool = (sprite_byte / wt) % 2 == 1;
                proof {
                    assert(wt as int == col_weight(col as int));
                    assert(on == sprite_row_bit(sprite[row as int], col as int));
                }
                let ghost pq: int = (ypi + row) * 64 + (xpi + col);
                if yp + row < 32 && xp + col < 64 {
                    let p: usize = (yp + row) * 64 + (xp + col);
                    proof {
                        lemma_pixel_coords(xpi, ypi, row as int, col as int);
                        assert(p == pq);
                        assert(cell_ord(xpi, ypi, pq) == done);
                    }
                    if on {
                        let cur = self.video[p];
                        if cur {
                            collided = true;
                        }
                        self.video.set(p, !cur);
                        proof {
                            assert(cur == s0.video[pq]);
                            assert(row < sprite.len());
                            assert(draw_flips(sprite, xpi, ypi, pq));
                        }
                    }
                }
                proof {
                    assert forall|q: int|
                        0 <= q < 2048 && #[trigger] draw_flips(sprite, xpi, ypi, q) && cell_ord(
                            xpi,
                            ypi,
                            q,
                        ) == done implies ypi + row < 32 && xpi + col < 64 && q == pq
                        && sprite_row_bit(sprite[row as int], col as int) by {
                        lemma_cell_ord_unique(sprite, xpi, ypi, row as int, col as int, q);
                    };
                    assert forall|q: int| 0 <= q < 2048 implies self.video@[q] == (if draw_flips(
                        sprite,
                        xpi,
                        ypi,
                        q,
                    ) && cell_ord(xpi, ypi, q) < done + 1 {
                        !s0.video[q]
                    } else {
                        s0.video[q]
                    }) by {
                        if 0 <= q < 2048 && draw_flips(sprite, xpi, ypi, q) && cell_ord(
                            xpi,
                            ypi,
                            q,
                        ) == done {
                            lemma_cell_ord_unique(sprite, xpi, ypi, row as int, col as int, q);
                        }
                    };
                    if collided {
                        if collided0 {
                            let q = choose|q: int|
                                0 <= q < 2048 && #[trigger] draw_flips(sprite, xpi, ypi, q)
                                    && cell_ord(xpi, ypi, q) < done && s0.video[q];
                            assert(draw_flips(sprite, xpi, ypi, q) && cell_ord(xpi, ypi, q) < done
                                + 1 && s0.video[q]);
                        } else {
                            assert(draw_flips(sprite, xpi, ypi, pq) && cell_ord(xpi, ypi, pq)
                                < done + 1 && s0.video[pq]);
                        }
                        assert(exists|q: int|
                            0 <= q < 2048 && #[trigger] draw_flips(sprite, xpi, ypi, q)
                                && cell_ord(xpi, ypi, q) < done + 1 && s0.video[q]);
                    } else {
                        assert forall|q: int|
                            0 <= q < 2048 && #[trigger] draw_flips(sprite, xpi, ypi, q)
                                && cell_ord(xpi, ypi, q) < done + 1 implies !s0.video[q] by {
                            if cell_ord(xpi, ypi, q) == done {
                                lemma_cell_ord_unique(sprite, xpi, ypi, row as int, col as int, q);
                            }
                        };
                    }
                }
                col += 1;
            }
            row += 1;
        }
        proof {
            assert forall|q: int|
                0 <= q < 2048 && #[trigger] draw_flips(sprite, xpi, ypi, q) implies 0 <= cell_ord(
                xpi,
                ypi,
                q,
            ) < 8 * (n as int) by {
                let r = q / 64;
                let c = q % 64;
                assert(ypi <= r < ypi + n && xpi <= c < xpi + 8);
            };
            assert(self.video@ =~= draw_video(s0.video, sprite, xpi, ypi));
            if collided {
                let q = choose|q: int|
                    0 <= q < 2048 && #[trigger] draw_flips(sprite, xpi, ypi, q) && cell_ord(
                        xpi,
                        ypi,
                        q,
                    ) < 8 * (n as int) && s0.video[q];
                assert(draw_collision(s0.video, sprite, xpi, ypi));
            }
            if draw_collision(s0.video, sprite, xpi, ypi) {
                let q = choose|q: int|
                    0 <= q < s0.video.len() && #[trigger] draw_flips(sprite, xpi, ypi, q)
                        && s0.video[q];
                assert(0 <= cell_ord(xpi, ypi, q) < 8 * (n as int));
                assert(collided);
            }
        }
        self.registers.set(15, if collided { 1 } else { 0 });
        proof {
            assert(self@ =~= spec_drw(s0, x, y, n)->Ok_0);
        }
        Ok(())
    }

    /// Ex9E: skip the next instruction if the key named by Vx is pressed; a
    /// key index above 15 is reported untouched.
    pub fn op_ex9e(&mut self, x: u8) -> (r: Result<(), Chip8Error>)
        requires
            old(self)@.wf(),
            x < 16,
            old(self).pc + 2 <= 0xFFFF,
        ensures
            final(self)@.wf(),
            steps_to(old(self)@, final(self)@, r, spec_skp(old(self)@, x)),
    {
        let k = self.registers[x as usize];
        if k >= 16 {
            return Err(Chip8Error::OutOfBoundsAccess);
        }
        if self.keypad[k as usize] {
            self.pc = self.pc + 2;
        }
        Ok(())
    }

    /// ExA1: skip the next instruction if the key named by Vx is not
    /// pressed; a key index above 15 is reported untouched.
    pub fn op_exa1(&mut self, x: u8) -> (r: Result<(), Chip8Error>)
        requires
            old(self)@.wf(),
            x < 16,
            old(self).pc + 2 <= 0xFFFF,
        ensures
            final(self)@.wf(),
            steps_to(old(self)@, final(self)@, r, spec_sknp(old(self)@, x)),
    {
        let k = self.registers[x as usize];
        if k >= 16 {
            return Err(Chip8Error::OutOfBoundsAccess);
        }
        if !self.keypad[k as usize] {
            self.pc = self.pc + 2;
        }
        Ok(())
    }

    /// Fx07: read the delay timer into Vx.
    pub fn op_fx07(&mut self, x: u8)
        requires
            old(self)@.wf(),
            x < 16,
        ensures
            final(self)@.wf(),
            final(self)@ == spec_ld_vx_dt(old(self)@, x),
    {
        let dt = self.dt;
        self.registers.set(x as usize, dt);
    }

    /// Fx0A: the lowest pressed key index into Vx; with no key pressed the
    /// program counter rewinds by 2, so the instruction spins until a key
    /// arrives, returning to the caller each cycle.
    pub fn op_fx0a(&mut self, x: u8)
        requires
            old(self)@.wf(),
            x < 16,
            old(self).pc >= 2,
        ensures
            final(self)@.wf(),
            final(self)@ == spec_wait_key(old(self)@, x),
    {
        let ghost s0 = self@;
        let mut i: usize = 0;
        while i < 16
            invariant
                i <= 16,
                x < 16,
                s0.wf(),
                s0 == old(self)@,
                self@ == s0,
                first_pressed_from(s0.keypad, 0) == first_pressed_from(s0.keypad, i as int),
            decreases 16 - i,
        {
            if self.keypad[i] {
                proof {
                    assert(s0.keypad[i as int]);
                    assert(first_pressed_from(s0.keypad, i as int) == Some(i as u8));
                }
                self.registers.set(x as usize, i as u8);
                proof {
                    assert(spec_wait_key(s0, x) == crate::model::upd_reg(s0, x as int, i as u8));
                    assert(self@ =~= spec_wait_key(s0, x));
                }
                return;
            }
            i += 1;
        }
        proof {
            assert(first_pressed_from(s0.keypad, 16) is None);
        }
        self.pc = self.pc - 2;
    }

    /// Fx15: load the delay timer from Vx.
    pub fn op_fx15(&mut self, x: u8)
        requires
            old(self)@.wf(),
            x < 16,
        ensures
            final(self)@.wf(),
            final(self)@ == spec_ld_dt_vx(old(self)@, x),
    {
        self.dt = self.registers[x as usize];
    }

    /// Fx18: load the sound timer from Vx.
    pub fn op_fx18(&mut self, x: u8)
        requires
            old(self)@.wf(),
            x < 16,
        ensures
            final(self)@.wf(),
            final(self)@ == spec_ld_st_vx(old(self)@, x),
    {
        self.st = self.registers[x as usize];
    }

    /// Fx1E: add Vx to the index register, wrapping at 16 bits.
    pub fn op_fx1e(&mut self, x: u8)
        requires
            old(self)@.wf(),
            x < 16,
        ensures
            final(self)@.wf(),
            final(self)@ == spec_add_index(old(self)@, x),
    {
        let sum: u32 = self.index as u32 + self.registers[x as usize] as u32;
        self.index = (sum % 0x10000) as u16;
    }

    /// Fx29: point the index register at the font sprite for digit Vx.
    pub fn op_fx29(&mut self, x: u8)
        requires
            old(self)@.wf(),
            x < 16,
        ensures
            final(self)@.wf(),
            final(self)@ == spec_ld_font(old(self)@, x),
    {
        self.index = 0x50 + 5 * self.registers[x as usize] as u16;
    }

    /// Fx33: the decimal hundreds, tens and units of Vx into
    /// memory[I..I+3], or an out-of-bounds report untouched.
    pub fn op_fx33(&mut self, x: u8) -> (r: Result<(), Chip8Error>)
        requires
            old(self)@.wf(),
            x < 16,
        ensures
            final(self)@.wf(),
            steps_to(old(self)@, final(self)@, r, spec_bcd(old(self)@, x)),
    {
        if self.index as usize + 3 > 4096 {
            return Err(Chip8Error::OutOfBoundsAccess);
        }
        let v = self.registers[x as usize];
        let base = self.index as usize;
        self.memory.set(base, v / 100);
        self.memory.set(base + 1, (v / 10) % 10);
        self.memory.set(base + 2, v % 10);
        Ok(())
    }

    /// Fx55: copy V0..=Vx into memory[I..], or an out-of-bounds report
    /// untouched.
    pub fn op_fx55(&mut self, x: u8) -> (r: Result<(), Chip8Error>)
        requires
            old(self)@.wf(),
            x < 16,
        ensures
            final(self)@.wf(),
            steps_to(old(self)@, final(self)@, r, spec_store_regs(old(self)@, x)),
    {
        if self.index as usize + x as usize + 1 > 4096 {
            return Err(Chip8Error::OutOfBoundsAccess);
        }
        let ghost s0 = self@;
        let base = self.index as usize;
        let mut i: usize = 0;
        while i < x as usize + 1
            invariant
                i <= x + 1,
                x < 16,
                s0.wf(),
                base == s0.index,
                base + x + 1 <= 4096,
                self@ == (State { mem: self.memory@, ..s0 }),
                self.memory@.len() == 4096,
                forall|j: int| base <= j < base + i ==> self.memory@[j] == s0.regs[j - base],
                forall|j: int|
                    0 <= j < 4096 && !(base <= j < base + i) ==> self.memory@[j] == s0.mem[j],
            decreases x + 1 - i,
        {
            let v = self.registers[i];
            self.memory.set(base + i, v);
            i += 1;
        }
        proof {
            assert(self.memory@ =~= spec_store_regs(s0, x)->Ok_0.mem);
            assert(self@ =~= spec_store_regs(s0, x)->Ok_0);
        }
        Ok(())
    }

    /// Fx65: copy memory[I..] into V0..=Vx, the higher registers unchanged,
    /// or an out-of-bounds report untouched.
    pub fn op_fx65(&mut self, x: u8) -> (r: Result<(), Chip8Error>)
        requires
            old(self)@.wf(),
            x < 16,
        ensures
            final(self)@.wf(),
            steps_to(old(self)@, final(self)@, r, spec_load_regs(old(self)@, x)),
    {
        if self.index as usize + x as usize + 1 > 4096 {
            return Err(Chip8Error::OutOfBoundsAccess);
        }
        let ghost s0 = self@;
        let base = self.index as usize;
        let mut i: usize = 0;
        while i < x as usize + 1
            invariant
                i <= x + 1,
                x < 16,
                s0.wf(),
                base == s0.index,
                base + x + 1 <= 4096,
                self@ == (State { regs: self.registers@, ..s0 }),
                self.registers@.len() == 16,
                forall|j: int| 0 <= j < i ==> self.registers@[j] == s0.mem[base + j],
                forall|j: int| i <= j < 16 ==> self.registers@[j] == s0.regs[j],
            decreases x + 1 - i,
        {
            let v = self.memory[base + i];
            self.registers.set(i, v);
            i += 1;
        }
        proof {
            assert(self.registers@ =~= spec_load_regs(s0, x)->Ok_0.regs);
            assert(self@ =~= spec_load_regs(s0, x)->Ok_0);
        }
        Ok(())
    }

    /// Route one decoded instruction to its handler. The byte `b` is the
    /// caller's random draw; only the random-number instruction consumes it.
    /// An erring handler reports without having touched anything.
    pub fn execute(&mut self, i: Instr, b: u8) -> (r: Result<(), Chip8Error>)
        requires
            old(self)@.wf(),
            instr_wf(i),
            old(self).pc >= 2,
            old(self).pc + 2 <= 0xFFFF,
        ensures
            final(self)@.wf(),
            steps_to(old(self)@, final(self)@, r, spec_exec(old(self)@, i, b)),
    {
        match i {
            Instr::Cls => {
                self.op_00e0();
                Ok(())
            },
            Instr::Ret => self.op_00ee(),
            Instr::Jp(nnn) => {
                self.op_1nnn(nnn);
                Ok(())
            },
            Instr::Call(nnn) => self.op_2nnn(nnn),
            Instr::SeByte(x, kk) => {
                self.op_3xkk(x, kk);
                Ok(())
            },
            Instr::SneByte(x, kk) => {
                self.op_4xkk(x, kk);
                Ok(())
            },
            Instr::SeReg(x, y) => {
                self.op_5xy0(x, y);
                Ok(())
            },
            Instr::LdByte(x, kk) => {
                self.op_6xkk(x, kk);
                Ok(())
            },
            Instr::AddByte(x, kk) => {
                self.op_7xkk(x, kk);
                Ok(())
            },
            Instr::LdReg(x, y) => {
                self.op_8xy0(x, y);
                Ok(())
            },
            Instr::Or(x, y) => {
                self.op_8xy1(x, y);
                Ok(())
            },
            Instr::And(x, y) => {
                self.op_8xy2(x, y);
                Ok(())
            },
            Instr::Xor(x, y) => {
                self.op_8xy3(x, y);
                Ok(())
            },
            Instr::AddReg(x, y) => {
                self.op_8xy4(x, y);
                Ok(())
            },
            Instr::Sub(x, y) => {
                self.op_8xy5(x, y);
                Ok(())
            },
            Instr::Shr(x) => {
                self.op_8xy6(x);
                Ok(())
            },
            Instr::Subn(x, y) => {
                self.op_8xy7(x, y);
                Ok(())
            },
            Instr::Shl(x) => {
                self.op_8xye(x);
                Ok(())
            },
            Instr::SneReg(x, y) => {
                self.op_9xy0(x, y);
                Ok(())
            },
            Instr::LdIndex(nnn) => {
                self.op_annn(nnn);
                Ok(())
            },
            Instr::JpV0(nnn) => {
                self.op_bnnn(nnn);
                Ok(())
            },
            Instr::Rnd(x, kk) => {
                self.op_cxkk(x, kk, b);
                Ok(())
            },
            Instr::Drw(x, y, n) => self.op_dxyn(x, y, n),
            Instr::Skp(x) => self.op_ex9e(x),
            Instr::Sknp(x) => self.op_exa1(x),
            Instr::LdVxDt(x) => {
                self.op_fx07(x);
                Ok(())
            },
            Instr::WaitKey(x) => {
                self.op_fx0a(x);
                Ok(())
            },
            Instr::LdDtVx(x) => {
                self.op_fx15(x);
                Ok(())
            },
            Instr::LdStVx(x) => {
                self.op_fx18(x);
                Ok(())
            },
            Instr::AddIndex(x) => {
                self.op_fx1e(x);
                Ok(())
            },
            Instr::LdFont(x) => {
                self.op_fx29(x);
                Ok(())
            },
            Instr::StoreBcd(x) => self.op_fx33(x),
            Instr::StoreRegs(x) => self.op_fx55(x),
            Instr::LoadRegs(x) => self.op_fx65(x),
        }
    }

    /// One fetch-decode-execute step: fetch the big-endian word at the
    /// program counter, advance past it, decode and execute. The caller
    /// supplies the random byte, so the whole step is deterministic and is
    /// verified for every byte the source could draw. On any error the
    /// machine is left exactly as it was, the program counter included.
    pub fn step(&mut self, rand_byte: u8) -> (r: Result<(), Chip8Error>)
        requires
            old(self)@.wf(),
        ensures
            final(self)@.wf(),
            steps_to(old(self)@, final(self)@, r, spec_step(old(self)@, rand_byte)),
    {
        let ghost s0 = self@;
        if self.pc as usize + 1 >= 4096 {
            return Err(Chip8Error::OutOfBoundsAccess);
        }
        let hi = self.memory[self.pc as usize];
        let lo = self.memory[self.pc as usize + 1];
        let op: u16 = (hi as u16) * 256 + (lo as u16);
        proof {
            assert(op == crate::model::spec_fetch(s0));
        }
        match decode(op) {
            None => Err(Chip8Error::UnknownOpcode(op)),
            Some(i) => {
                self.pc = self.pc + 2;
                match self.execute(i, rand_byte) {
                    Ok(()) => Ok(()),
                    Err(e) => {
                        self.pc = self.pc - 2;
                        proof {
                            assert(self@ =~= s0);
                        }
                        Err(e)
                    },
                }
            },
        }
    }

    /// Count each nonzero timer down by one. The driver invokes this at the
    /// canonical 60 Hz timer rate, decoupled from the instruction rate.
    pub fn tick_timers(&mut self)
        requires
            old(self)@.wf(),
        ensures
            final(self)@.wf(),
            final(self)@ == spec_tick(old(self)@),
    {
        if self.dt > 0 {
            self.dt = self.dt - 1;
        }
        if self.st > 0 {
            self.st = self.st - 1;
        }
    }

    /// One instruction followed by one timer tick, for a driver that runs
    /// the timers at the instruction rate.
    pub fn cycle(&mut self, rand_byte: u8) -> (r: Result<(), Chip8Error>)
        requires
            old(self)@.wf(),
        ensures
            final(self)@.wf(),
            steps_to(old(self)@, final(self)@, r, spec_cycle(old(self)@, rand_byte)),
    {
        match self.step(rand_byte) {
            Ok(()) => {
                self.tick_timers();
                Ok(())
            },
            Err(e) => Err(e),
        }
    }

    /// One step with the random byte drawn from the machine's randomness
    /// source; whatever byte comes back, the step follows the model for it.
    pub fn step_random(&mut self) -> (r: Result<(), Chip8Error>)
        requires
            old(self)@.wf(),
        ensures
            final(self)@.wf(),
            exists|b: u8| steps_to(old(self)@, final(self)@, r, #[trigger] spec_step(old(self)@, b)),
    {
        let ghost s0 = self@;
        let b = random_byte();
        let r = self.step(b);
        proof {
            assert(steps_to(s0, self@, r, spec_step(s0, b)));
        }
        r
    }
}

} // verus!
