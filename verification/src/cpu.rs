//! The interpreter: fetch, decode and execute, one instruction per tick.
//!
//! `Cpu` owns the whole machine; `tick` drives it.  The host supplies the
//! keypad sample for the tick and consumes the framebuffer afterwards; the
//! random byte an instruction may need is drawn inside, so `tick`'s
//! contract promises what holds for every byte the generator could return,
//! and `step` carries the exact, deterministic contract.

use vstd::prelude::*;

use crate::display::{new_display, Display};
use crate::memory::{new_memory, Memory};
use crate::state::{
    bit_of, covers_prefix, dec_timer, draw_fb, draw_hits, eq_but_fb, eq_but_regs, init_state,
    instr_spec, instr_wf, inv, lemma_decode_wf, load_block, load_rom_mem, mask12, spec_decode,
    sprite_covers, step_spec, store_block, Fault, Instr, Step, VmState,
};

verus! {

/// The machine: registers, address register, stack, timers, memory,
/// framebuffer and the wait-for-key latch.
pub struct Cpu {
    /// Program counter.
    pub pc: u16,
    /// Address register I.
    pub i: u16,
    /// Return-address stack; its length is the stack pointer.
    pub s: Vec<u16>,
    /// Delay timer.
    pub dt: u8,
    /// Sound timer.  While it is positive the host should sound its tone.
    pub st: u8,
    /// The sixteen general registers V0..VF.
    pub r: Vec<u8>,
    /// The 4 KiB memory.
    pub mem: Memory,
    /// The 64x32 framebuffer.
    pub dis: Display,
    /// When a wait-for-key instruction is blocked, the register that will
    /// receive the key.
    pub waiting: Option<u8>,
}

impl View for Cpu {
    type V = VmState;

    open spec fn view(&self) -> VmState {
        VmState {
            pc: self.pc,
            i: self.i,
            stack: self.s@,
            dt: self.dt,
            st: self.st,
            regs: self.r@,
            mem: self.mem@,
            fb: self.dis@,
            waiting: self.waiting,
        }
    }
}

impl Cpu {
    /// The machine has its shape: see `state::inv`.
    pub open spec fn wf(&self) -> bool {
        inv(self@)
    }
}

/// A machine at power-on: PC at 0x200, everything else zeroed, the font in
/// place.
pub fn new_cpu() -> (c: Cpu)
    ensures
        c@ == init_state(),
        c.wf(),
{
    let mut r: Vec<u8> = Vec::new();
    let mut k: usize = 0;
    while k < 16
        invariant
            k <= 16,
            r@.len() == k,
            forall|j: int| 0 <= j < k ==> r@[j] == 0u8,
        decreases 16 - k,
    {
        r.push(0);
        k += 1;
    }
    let c = Cpu {
        pc: 0x200,
        i: 0,
        s: Vec::new(),
        dt: 0,
        st: 0,
        r,
        mem: new_memory(),
        dis: new_display(),
        waiting: None,
    };
    proof {
        assert(c@.regs =~= init_state().regs);
        assert(c@.stack =~= init_state().stack);
        assert(c@ =~= init_state());
    }
    c
}

impl Cpu {
    /// One 60 Hz step of both timers: each counts down while positive.
    fn update_timer(&mut self)
        ensures
            (final(self)@ == VmState {
                dt: dec_timer(old(self)@.dt),
                st: dec_timer(old(self)@.st),
                ..old(self)@
            }),
    {
        if self.dt > 0 {
            self.dt = self.dt - 1;
        }
        if self.st > 0 {
            self.st = self.st - 1;
        }
    }

    /// Push a return address.  Fails with a stack overflow when all sixteen
    /// slots are in use, leaving the machine unchanged.
    pub fn push(&mut self, v: u16) -> (r: Result<(), Fault>)
        ensures
            (old(self)@.stack.len() < 16 ==> r is Ok && final(self)@ == VmState {
                stack: old(self)@.stack.push(v),
                ..old(self)@
            }),
            (old(self)@.stack.len() >= 16 ==> r == Err::<(), Fault>(Fault::StackOverflow)
                && final(self)@ == old(self)@),
    {
        if self.s.len() >= 16 {
            return Err(Fault::StackOverflow);
        }
        self.s.push(v);
        Ok(())
    }

    /// Pop the most recent return address.  Fails with a stack underflow
    /// when no call is outstanding, leaving the machine unchanged.
    pub fn pop(&mut self) -> (r: Result<u16, Fault>)
        ensures
            (old(self)@.stack.len() > 0 ==> r == Ok::<u16, Fault>(old(self)@.stack.last())
                && final(self)@ == VmState {
                stack: old(self)@.stack.drop_last(),
                ..old(self)@
            }),
            (old(self)@.stack.len() == 0 ==> r == Err::<u16, Fault>(Fault::StackUnderflow)
                && final(self)@ == old(self)@),
    {
        if self.s.len() == 0 {
            return Err(Fault::StackUnderflow);
        }
        let v = self.s.pop().unwrap();
        Ok(v)
    }

    /// Read register Vi.
    pub fn get_register(&self, i: usize) -> (b: u8)
        requires
            i < self@.regs.len(),
        ensures
            b == self@.regs[i as int],
    {
        self.r[i]
    }

    /// Overwrite register Vi.
    pub fn set_register(&mut self, i: usize, v: u8)
        requires
            i < old(self)@.regs.len(),
        ensures
            (final(self)@ == VmState { regs: old(self)@.regs.update(i as int, v), ..old(self)@ }),
    {
        self.r.set(i, v);
    }

    /// Copy a program image into memory at 0x200.  An image larger than the
    /// 3584 bytes available above the reserved area is rejected whole.
    pub fn laod_rom(&mut self, rom: &[u8]) -> (r: Result<(), Fault>)
        requires
            old(self)@.mem.len() == 4096,
        ensures
            (rom@.len() <= 3584 ==> r is Ok && final(self)@ == VmState {
                mem: load_rom_mem(old(self)@.mem, rom@),
                ..old(self)@
            }),
            (rom@.len() > 3584 ==> r == Err::<(), Fault>(Fault::RomTooLarge)
                && final(self)@ == old(self)@),
    {
        if rom.len() > 3584 {
            return Err(Fault::RomTooLarge);
        }
        self.mem.write_data(rom, 0x200);
        proof {
            assert(self@.mem =~= load_rom_mem(old(self)@.mem, rom@));
        }
        Ok(())
    }
}

impl Cpu {
    /// Execute a draw: XOR the `n`-row sprite at `M[I..]` onto the screen
    /// at (Vx mod 64, Vy mod 32), clipping at the right and bottom edges,
    /// and set VF to 1 exactly when a lit pixel was turned off.
    fn exec_draw(&mut self, x: u8, y: u8, n: u8) -> (r: Result<Step, Fault>)
        requires
            old(self).wf(),
            x <= 15,
            y <= 15,
            n <= 15,
        ensures
            (n > 0 && old(self)@.i + n > 4096 ==> r == Err::<Step, Fault>(Fault::MemOutOfBounds)
                && final(self)@ == old(self)@),
            (!(n > 0 && old(self)@.i + n > 4096) ==> r == Ok::<Step, Fault>(Step::Executed)
                && final(self)@ == ({
                let pre = old(self)@;
                let x0 = (pre.regs[x as int] % 64) as int;
                let y0 = (pre.regs[y as int] % 32) as int;
                let hit = draw_hits(pre.fb, pre.mem, pre.i as int, x0, y0, n as int);
                VmState {
                    fb: draw_fb(pre.fb, pre.mem, pre.i as int, x0, y0, n as int),
                    regs: pre.regs.update(15, if hit { 1u8 } else { 0u8 }),
                    ..pre
                }
            })),
    {
        if n > 0 && self.i as usize + n as usize > 4096 {
            return Err(Fault::MemOutOfBounds);
        }
        let ghost pre = self@;
        let x0: u8 = self.get_register(x as usize) % 64;
        let y0: u8 = self.get_register(y as usize) % 32;
        let ghost gi = pre.i as int;
        let ghost gx = x0 as int;
        let ghost gy = y0 as int;
        let mut vf: u8 = 0;
        let mut rr: u8 = 0;
        while rr < n
            invariant
                eq_but_fb(self@, pre),
                self@.fb.len() == 2048,
                pre.fb.len() == 2048,
                pre.mem.len() == 4096,
                pre.regs.len() == 16,
                x <= 15,
                y <= 15,
                rr <= n,
                n <= 15,
                gx == pre.regs[x as int] % 64,
                gy == pre.regs[y as int] % 32,
                0 <= gx < 64,
                0 <= gy < 32,
                x0 == gx,
                y0 == gy,
                gi == pre.i,
                n > 0 ==> gi + n <= 4096,
                forall|idx: int|
                    0 <= idx < 2048 ==> self@.fb[idx] == (pre.fb[idx] != covers_prefix(
                        pre.mem,
                        gi,
                        gx,
                        gy,
                        rr as int,
                        0,
                        idx,
                    )),
                vf <= 1,
                ((vf == 1) == (exists|idx: int|
                    0 <= idx < 2048 && #[trigger] covers_prefix(
                        pre.mem,
                        gi,
                        gx,
                        gy,
                        rr as int,
                        0,
                        idx,
                    ) && pre.fb[idx])),
            decreases n - rr,
        {
            let b = self.mem.get(self.i as usize + rr as usize);
            let mut c: u8 = 0;
            while c < 8
                invariant
                    eq_but_fb(self@, pre),
                    self@.fb.len() == 2048,
                    pre.fb.len() == 2048,
                    pre.mem.len() == 4096,
                    pre.regs.len() == 16,
                    x <= 15,
                    y <= 15,
                    rr < n,
                    n <= 15,
                    c <= 8,
                    gx == pre.regs[x as int] % 64,
                    gy == pre.regs[y as int] % 32,
                    0 <= gx < 64,
                    0 <= gy < 32,
                    gi == pre.i,
                    gi + n <= 4096,
                    x0 == gx,
                    y0 == gy,
                    b == pre.mem[gi + rr],
                    forall|idx: int|
                        0 <= idx < 2048 ==> self@.fb[idx] == (pre.fb[idx] != covers_prefix(
                            pre.mem,
                            gi,
                            gx,
                            gy,
                            rr as int,
                            c as int,
                            idx,
                        )),
                    vf <= 1,
                    ((vf == 1) == (exists|idx: int|
                        0 <= idx < 2048 && #[trigger] covers_prefix(
                            pre.mem,
                            gi,
                            gx,
                            gy,
                            rr as int,
                            c as int,
                            idx,
                        ) && pre.fb[idx])),
                decreases 8 - c,
            {
                let bit = bit_at(b, c);
                let ghost fb_before = self@.fb;
                let ghost vf_before = vf;
                let px: u8 = x0 + c;
                let py: u8 = y0 + rr;
                let col = self.dis.xor_pix(px, py, bit);
                if col == 1 {
                    vf = 1;
                }
                proof {
                    let rc = rr as int;
                    let cc = c as int;
                    if px < 64 && py < 32 {
                        let idx0 = px as int + 64 * (py as int);
                        assert(idx0 % 64 == px as int && idx0 / 64 == py as int)
                            by (nonlinear_arith)
                            requires
                                idx0 == px as int + 64 * (py as int),
                                px < 64,
                                py < 32,
                        ;
                        assert forall|idx: int| 0 <= idx < 2048 && idx != idx0 implies
                            covers_prefix(pre.mem, gi, gx, gy, rc, cc + 1, idx) == covers_prefix(
                                pre.mem,
                                gi,
                                gx,
                                gy,
                                rc,
                                cc,
                                idx,
                            ) by {
                            assert(idx == 64 * (idx / 64) + idx % 64);
                        }
                        assert(!covers_prefix(pre.mem, gi, gx, gy, rc, cc, idx0));
                        assert(covers_prefix(pre.mem, gi, gx, gy, rc, cc + 1, idx0) == bit);
                        assert(fb_before[idx0] == pre.fb[idx0]);
                        assert(self@.fb == fb_before.update(idx0, fb_before[idx0] != bit));
                        assert forall|idx: int| 0 <= idx < 2048 implies self@.fb[idx] == (
                            pre.fb[idx] != covers_prefix(pre.mem, gi, gx, gy, rc, cc + 1, idx)
                        ) by {}
                        if vf == 1 {
                            if vf_before == 1 {
                                let w = choose|idx: int|
                                    0 <= idx < 2048 && #[trigger] covers_prefix(
                                        pre.mem,
                                        gi,
                                        gx,
                                        gy,
                                        rc,
                                        cc,
                                        idx,
                                    ) && pre.fb[idx];
                                assert(covers_prefix(pre.mem, gi, gx, gy, rc, cc + 1, w)
                                    && pre.fb[w]);
                            } else {
                                assert(col == 1);
                                assert(covers_prefix(pre.mem, gi, gx, gy, rc, cc + 1, idx0)
                                    && pre.fb[idx0]);
                            }
                        }
                        if exists|idx: int|
                            0 <= idx < 2048 && #[trigger] covers_prefix(
                                pre.mem,
                                gi,
                                gx,
                                gy,
                                rc,
                                cc + 1,
                                idx,
                            ) && pre.fb[idx] {
                            let w = choose|idx: int|
                                0 <= idx < 2048 && #[trigger] covers_prefix(
                                    pre.mem,
                                    gi,
                                    gx,
                                    gy,
                                    rc,
                                    cc + 1,
                                    idx,
                                ) && pre.fb[idx];
                            if w == idx0 {
                                assert(col == 1);
                            } else {
                                assert(covers_prefix(pre.mem, gi, gx, gy, rc, cc, w));
                            }
                            assert(vf == 1);
                        }
                    } else {
                        assert forall|idx: int| 0 <= idx < 2048 implies covers_prefix(
                            pre.mem,
                            gi,
                            gx,
                            gy,
                            rc,
                            cc + 1,
                            idx,
                        ) == covers_prefix(pre.mem, gi, gx, gy, rc, cc, idx) by {
                            assert(idx == 64 * (idx / 64) + idx % 64);
                            assert(0 <= idx % 64 < 64);
                            assert(idx / 64 < 32);
                        }
                        if vf == 1 {
                            let w = choose|idx: int|
                                0 <= idx < 2048 && #[trigger] covers_prefix(
                                    pre.mem,
                                    gi,
                                    gx,
                                    gy,
                                    rc,
                                    cc,
                                    idx,
                                ) && pre.fb[idx];
                            assert(covers_prefix(pre.mem, gi, gx, gy, rc, cc + 1, w));
                        }
                        if exists|idx: int|
                            0 <= idx < 2048 && #[trigger] covers_prefix(
                                pre.mem,
                                gi,
                                gx,
                                gy,
                                rc,
                                cc + 1,
                                idx,
                            ) && pre.fb[idx] {
                            let w = choose|idx: int|
                                0 <= idx < 2048 && #[trigger] covers_prefix(
                                    pre.mem,
                                    gi,
                                    gx,
                                    gy,
                                    rc,
                                    cc + 1,
                                    idx,
                                ) && pre.fb[idx];
                            assert(covers_prefix(pre.mem, gi, gx, gy, rc, cc, w));
                            assert(vf == 1);
                        }
                    }
                }
                c += 1;
            }
            proof {
                let rc = rr as int;
                assert forall|idx: int| 0 <= idx < 2048 implies covers_prefix(
                    pre.mem,
                    gi,
                    gx,
                    gy,
                    rc,
                    8,
                    idx,
                ) == covers_prefix(pre.mem, gi, gx, gy, rc + 1, 0, idx) by {}
                if vf == 1 {
                    let w = choose|idx: int|
                        0 <= idx < 2048 && #[trigger] covers_prefix(
                            pre.mem,
                            gi,
                            gx,
                            gy,
                            rc,
                            8,
                            idx,
                        ) && pre.fb[idx];
                    assert(covers_prefix(pre.mem, gi, gx, gy, rc + 1, 0, w));
                }
                if exists|idx: int|
                    0 <= idx < 2048 && #[trigger] covers_prefix(
                        pre.mem,
                        gi,
                        gx,
                        gy,
                        rc + 1,
                        0,
                        idx,
                    ) && pre.fb[idx] {
                    let w = choose|idx: int|
                        0 <= idx < 2048 && #[trigger] covers_prefix(
                            pre.mem,
                            gi,
                            gx,
                            gy,
                            rc + 1,
                            0,
                            idx,
                        ) && pre.fb[idx];
                    assert(covers_prefix(pre.mem, gi, gx, gy, rc, 8, w));
                    assert(vf == 1);
                }
            }
            rr += 1;
        }
        proof {
            let nn = n as int;
            assert forall|idx: int| 0 <= idx < 2048 implies covers_prefix(
                pre.mem,
                gi,
                gx,
                gy,
                nn,
                0,
                idx,
            ) == sprite_covers(pre.mem, gi, gx, gy, nn, idx) by {}
            assert(self@.fb =~= draw_fb(pre.fb, pre.mem, gi, gx, gy, nn));
            if vf == 1 {
                let w = choose|idx: int|
                    0 <= idx < 2048 && #[trigger] covers_prefix(
                        pre.mem,
                        gi,
                        gx,
                        gy,
                        nn,
                        0,
                        idx,
                    ) && pre.fb[idx];
                assert(sprite_covers(pre.mem, gi, gx, gy, nn, w) && pre.fb[w]);
                assert(draw_hits(pre.fb, pre.mem, gi, gx, gy, nn));
            }
            if draw_hits(pre.fb, pre.mem, gi, gx, gy, nn) {
                let w = choose|idx: int|
                    0 <= idx < pre.fb.len() && #[trigger] sprite_covers(
                        pre.mem,
                        gi,
                        gx,
                        gy,
                        nn,
                        idx,
                    ) && pre.fb[idx];
                assert(covers_prefix(pre.mem, gi, gx, gy, nn, 0, w));
                assert(vf == 1);
            }
        }
        self.set_register(15, vf);
        proof {
            let hit = draw_hits(pre.fb, pre.mem, gi, gx, gy, n as int);
            assert(vf == (if hit { 1u8 } else { 0u8 }));
            assert(self@ =~~= (VmState {
                fb: draw_fb(pre.fb, pre.mem, gi, gx, gy, n as int),
                regs: pre.regs.update(15, if hit { 1u8 } else { 0u8 }),
                ..pre
            }));
        }
        Ok(Step::Executed)
    }
}

/// Relies on `rand::random::<u8>`: one byte from the thread-local
/// generator.  Nothing is promised of its value; every caller's contract
/// holds whatever byte comes back.
#[verifier::external_body]
fn rand_byte() -> u8 {
    rand::random::<u8>()
}

impl Cpu {
    /// Execute one decoded instruction.  The state here is the post-fetch
    /// state: timers stepped, PC already past the word.
    fn exec_instr(&mut self, instr: Instr, key: Option<u8>, rnd: u8) -> (r: Result<Step, Fault>)
        requires
            old(self).wf(),
            instr_wf(instr),
        ensures
            final(self)@ == instr_spec(old(self)@, instr, key, rnd).0,
            r == instr_spec(old(self)@, instr, key, rnd).1,
    {
        let r: Result<Step, Fault> = match instr {
            Instr::Cls => {
                self.dis.clear();
                Ok(Step::Executed)
            },
            Instr::Ret => {
                match self.pop() {
                    Ok(a) => {
                        self.pc = a;
                        Ok(Step::Executed)
                    },
                    Err(f) => Err(f),
                }
            },
            Instr::Jump(nnn) => {
                self.pc = nnn;
                Ok(Step::Executed)
            },
            Instr::Call(nnn) => {
                let pc0 = self.pc;
                match self.push(pc0) {
                    Ok(()) => {
                        self.pc = nnn;
                        Ok(Step::Executed)
                    },
                    Err(f) => Err(f),
                }
            },
            Instr::SkipEqByte(x, kk) => {
                if self.get_register(x as usize) == kk {
                    self.pc = (self.pc + 2) % 0x1000;
                }
                Ok(Step::Executed)
            },
            Instr::SkipNeByte(x, kk) => {
                if self.get_register(x as usize) != kk {
                    self.pc = (self.pc + 2) % 0x1000;
                }
                Ok(Step::Executed)
            },
            Instr::SkipEqReg(x, y) => {
                if self.get_register(x as usize) == self.get_register(y as usize) {
                    self.pc = (self.pc + 2) % 0x1000;
                }
                Ok(Step::Executed)
            },
            Instr::LoadByte(x, kk) => {
                self.set_register(x as usize, kk);
                Ok(Step::Executed)
            },
            Instr::AddByte(x, kk) => {
                let vx = self.get_register(x as usize);
                self.set_register(x as usize, ((vx as u16 + kk as u16) % 256) as u8);
                Ok(Step::Executed)
            },
            Instr::Copy(x, y) => {
                let vy = self.get_register(y as usize);
                self.set_register(x as usize, vy);
                Ok(Step::Executed)
            },
            Instr::Or(x, y) => {
                let vx = self.get_register(x as usize);
                let vy = self.get_register(y as usize);
                self.set_register(x as usize, vx | vy);
                Ok(Step::Executed)
            },
            Instr::And(x, y) => {
                let vx = self.get_register(x as usize);
                let vy = self.get_register(y as usize);
                self.set_register(x as usize, vx & vy);
                Ok(Step::Executed)
            },
            Instr::Xor(x, y) => {
                let vx = self.get_register(x as usize);
                let vy = self.get_register(y as usize);
                self.set_register(x as usize, vx ^ vy);
                Ok(Step::Executed)
            },
            Instr::Add(x, y) => {
                let vx = self.get_register(x as usize);
                let vy = self.get_register(y as usize);
                let sum: u16 = vx as u16 + vy as u16;
                let flag: u8 = if sum > 255 { 1 } else { 0 };
                self.set_register(x as usize, (sum % 256) as u8);
                self.set_register(15, flag);
                Ok(Step::Executed)
            },
            Instr::Sub(x, y) => {
                let vx = self.get_register(x as usize);
                let vy = self.get_register(y as usize);
                let flag: u8 = if vx >= vy { 1 } else { 0 };
                self.set_register(x as usize, ((vx as u16 + 256 - vy as u16) % 256) as u8);
                self.set_register(15, flag);
                Ok(Step::Executed)
            },
            Instr::Shr(x, _y) => {
                let vx = self.get_register(x as usize);
                self.set_register(x as usize, vx / 2);
                self.set_register(15, vx % 2);
                Ok(Step::Executed)
            },
            Instr::SubRev(x, y) => {
                let vx = self.get_register(x as usize);
                let vy = self.get_register(y as usize);
                let flag: u8 = if vy >= vx { 1 } else { 0 };
                self.set_register(x as usize, ((vy as u16 + 256 - vx as u16) % 256) as u8);
                self.set_register(15, flag);
                Ok(Step::Executed)
            },
            Instr::Shl(x, _y) => {
                let vx = self.get_register(x as usize);
                self.set_register(x as usize, ((vx as u16 * 2) % 256) as u8);
                self.set_register(15, vx / 128);
                Ok(Step::Executed)
            },
            Instr::SkipNeReg(x, y) => {
                if self.get_register(x as usize) != self.get_register(y as usize) {
                    self.pc = (self.pc + 2) % 0x1000;
                }
                Ok(Step::Executed)
            },
            Instr::LoadI(nnn) => {
                self.i = nnn;
                Ok(Step::Executed)
            },
            Instr::JumpV0(nnn) => {
                let t: u16 = nnn + self.get_register(0) as u16;
                self.pc = t % 0x1000;
                Ok(Step::Executed)
            },
            Instr::Rand(x, kk) => {
                self.set_register(x as usize, rnd & kk);
                Ok(Step::Executed)
            },
            Instr::Draw(x, y, n) => { self.exec_draw(x, y, n) },
            Instr::SkipKey(x) => {
                let vx = self.get_register(x as usize);
                let skip = match key {
                    Some(k) => k == vx,
                    None => false,
                };
                if skip {
                    self.pc = (self.pc + 2) % 0x1000;
                }
                Ok(Step::Executed)
            },
            Instr::SkipNoKey(x) => {
                let vx = self.get_register(x as usize);
                let skip = match key {
                    Some(k) => k != vx,
                    None => true,
                };
                if skip {
                    self.pc = (self.pc + 2) % 0x1000;
                }
                Ok(Step::Executed)
            },
            Instr::ReadDelay(x) => {
                let d = self.dt;
                self.set_register(x as usize, d);
                Ok(Step::Executed)
            },
            Instr::WaitKey(x) => {
                match key {
                    Some(k) => {
                        self.set_register(x as usize, k);
                    },
                    None => {
                        self.waiting = Some(x);
                    },
                }
                Ok(Step::Executed)
            },
            Instr::SetDelay(x) => {
                self.dt = self.get_register(x as usize);
                Ok(Step::Executed)
            },
            Instr::SetSound(x) => {
                self.st = self.get_register(x as usize);
                Ok(Step::Executed)
            },
            Instr::AddI(x) => {
                let vx = self.get_register(x as usize);
                let t: u32 = self.i as u32 + vx as u32;
                self.i = (t % 0x10000) as u16;
                Ok(Step::Executed)
            },
            Instr::FontAddr(x) => {
                let vx = self.get_register(x as usize);
                self.i = 0x50 + (vx % 16) as u16 * 5;
                Ok(Step::Executed)
            },
            Instr::Bcd(x) => {
                if self.i as usize + 2 > 4095 {
                    Err(Fault::MemOutOfBounds)
                } else {
                    let v = self.get_register(x as usize);
                    let ii: usize = self.i as usize;
                    self.mem.set(ii, v / 100);
                    self.mem.set(ii + 1, (v / 10) % 10);
                    self.mem.set(ii + 2, v % 10);
                    Ok(Step::Executed)
                }
            },
            Instr::Store(x) => {
                if self.i as usize + x as usize > 4095 {
                    Err(Fault::MemOutOfBounds)
                } else {
                    let ghost pre = self@;
                    let ii: usize = self.i as usize;
                    let mut d: Vec<u8> = Vec::new();
                    let mut t: usize = 0;
                    while t <= x as usize
                        invariant
                            t <= x as usize + 1,
                            x <= 15,
                            self@ == pre,
                            pre.regs.len() == 16,
                            d@.len() == t,
                            forall|j: int| 0 <= j < t ==> d@[j] == pre.regs[j],
                        decreases x as usize + 1 - t,
                    {
                        let b = self.get_register(t);
                        d.push(b);
                        t += 1;
                    }
                    self.mem.write_data(d.as_slice(), ii);
                    proof {
                        assert(self@.mem =~= store_block(pre.mem, pre.regs, pre.i as int, x as int));
                    }
                    Ok(Step::Executed)
                }
            },
            Instr::Load(x) => {
                if self.i as usize + x as usize > 4095 {
                    Err(Fault::MemOutOfBounds)
                } else {
                    let ghost pre = self@;
                    let ii: usize = self.i as usize;
                    let mut t: usize = 0;
                    while t <= x as usize
                        invariant
                            t <= x as usize + 1,
                            x <= 15,
                            eq_but_regs(self@, pre),
                            self@.regs.len() == 16,
                            pre.regs.len() == 16,
                            pre.mem.len() == 4096,
                            ii == pre.i,
                            ii + x <= 4095,
                            forall|j: int| 0 <= j < t ==> self@.regs[j] == pre.mem[ii + j],
                            forall|j: int| t <= j < 16 ==> self@.regs[j] == pre.regs[j],
                        decreases x as usize + 1 - t,
                    {
                        let b = self.mem.get(ii + t);
                        self.set_register(t, b);
                        t += 1;
                    }
                    proof {
                        assert(self@.regs =~= load_block(pre.regs, pre.mem, pre.i as int, x as int));
                    }
                    Ok(Step::Executed)
                }
            },
            Instr::Unknown(op) => { Ok(Step::Unimplemented(op)) },
        };
        proof {
            assert(self@ =~~= instr_spec(old(self)@, instr, key, rnd).0);
        }
        r
    }

    /// One tick, with the keypad sample and the random byte given: step the
    /// timers, resolve a pending wait-for-key, else fetch, decode and
    /// execute one instruction.  The whole effect is `step_spec`, exactly.
    pub fn step(&mut self, key: Option<u8>, rnd: u8) -> (r: Result<Step, Fault>)
        requires
            old(self).wf(),
        ensures
            final(self).wf(),
            final(self)@ == step_spec(old(self)@, key, rnd).0,
            r == step_spec(old(self)@, key, rnd).1,
    {
        proof {
            crate::laws::lemma_step_preserves_inv(old(self)@, key, rnd);
        }
        self.update_timer();
        match self.waiting {
            Some(wx) => {
                match key {
                    Some(k) => {
                        self.set_register(wx as usize, k);
                        self.waiting = None;
                        proof {
                            assert(self@ =~~= step_spec(old(self)@, key, rnd).0);
                        }
                        Ok(Step::Executed)
                    },
                    None => Ok(Step::WaitingForKey),
                }
            },
            None => {
                if self.pc > 4094 {
                    return Err(Fault::MemOutOfBounds);
                }
                let op = self.mem.fetch(self.pc as usize);
                self.pc = (self.pc + 2) % 0x1000;
                let instr = decode(op);
                proof {
                    lemma_decode_wf(op);
                    assert(self.wf());
                }
                let ghost s2g = self@;
                let r = self.exec_instr(instr, key, rnd);
                proof {
                    let s0 = old(self)@;
                    let s1 = VmState { dt: dec_timer(s0.dt), st: dec_timer(s0.st), ..s0 };
                    let s2 = VmState { pc: mask12(s0.pc + 2), ..s1 };
                    assert(s2g =~~= s2);
                    assert(self@ == step_spec(s0, key, rnd).0);
                    assert(r == step_spec(s0, key, rnd).1);
                }
                r
            },
        }
    }

    /// One tick with the randomness drawn inside.  The machine moves as
    /// `step` moves it for some byte of the generator; every guarantee
    /// that does not depend on that byte therefore holds of the outcome.
    pub fn tick(&mut self, key: Option<u8>) -> (r: Result<Step, Fault>)
        requires
            old(self).wf(),
        ensures
            final(self).wf(),
            (exists|rnd: u8|
                final(self)@ == step_spec(old(self)@, key, rnd).0 && r == step_spec(
                    old(self)@,
                    key,
                    rnd,
                ).1),
    {
        let rnd = rand_byte();
        let r = self.step(key, rnd);
        proof {
            assert(self@ == step_spec(old(self)@, key, rnd).0 && r == step_spec(
                old(self)@,
                key,
                rnd,
            ).1);
        }
        r
    }
}

/// Decode one fetched word into an instruction.
fn decode(op: u16) -> (instr: Instr)
    ensures
        instr == spec_decode(op),
{
    let hi = op / 0x1000;
    let x = ((op / 0x100) % 0x10) as u8;
    let y = ((op / 0x10) % 0x10) as u8;
    let n = (op % 0x10) as u8;
    let kk = (op % 0x100) as u8;
    let nnn = op % 0x1000;
    if op == 0x00E0 {
        Instr::Cls
    } else if op == 0x00EE {
        Instr::Ret
    } else if hi == 0x1 {
        Instr::Jump(nnn)
    } else if hi == 0x2 {
        Instr::Call(nnn)
    } else if hi == 0x3 {
        Instr::SkipEqByte(x, kk)
    } else if hi == 0x4 {
        Instr::SkipNeByte(x, kk)
    } else if hi == 0x5 && n == 0 {
        Instr::SkipEqReg(x, y)
    } else if hi == 0x6 {
        Instr::LoadByte(x, kk)
    } else if hi == 0x7 {
        Instr::AddByte(x, kk)
    } else if hi == 0x8 && n == 0x0 {
        Instr::Copy(x, y)
    } else if hi == 0x8 && n == 0x1 {
        Instr::Or(x, y)
    } else if hi == 0x8 && n == 0x2 {
        Instr::And(x, y)
    } else if hi == 0x8 && n == 0x3 {
        Instr::Xor(x, y)
    } else if hi == 0x8 && n == 0x4 {
        Instr::Add(x, y)
    } else if hi == 0x8 && n == 0x5 {
        Instr::Sub(x, y)
    } else if hi == 0x8 && n == 0x6 {
        Instr::Shr(x, y)
    } else if hi == 0x8 && n == 0x7 {
        Instr::SubRev(x, y)
    } else if hi == 0x8 && n == 0xE {
        Instr::Shl(x, y)
    } else if hi == 0x9 && n == 0 {
        Instr::SkipNeReg(x, y)
    } else if hi == 0xA {
        Instr::LoadI(nnn)
    } else if hi == 0xB {
        Instr::JumpV0(nnn)
    } else if hi == 0xC {
        Instr::Rand(x, kk)
    } else if hi == 0xD {
        Instr::Draw(x, y, n)
    } else if hi == 0xE && kk == 0x9E {
        Instr::SkipKey(x)
    } else if hi == 0xE && kk == 0xA1 {
        Instr::SkipNoKey(x)
    } else if hi == 0xF && kk == 0x07 {
        Instr::ReadDelay(x)
    } else if hi == 0xF && kk == 0x0A {
        Instr::WaitKey(x)
    } else if hi == 0xF && kk == 0x15 {
        Instr::SetDelay(x)
    } else if hi == 0xF && kk == 0x18 {
        Instr::SetSound(x)
    } else if hi == 0xF && kk == 0x1E {
        Instr::AddI(x)
    } else if hi == 0xF && kk == 0x29 {
        Instr::FontAddr(x)
    } else if hi == 0xF && kk == 0x33 {
        Instr::Bcd(x)
    } else if hi == 0xF && kk == 0x55 {
        Instr::Store(x)
    } else if hi == 0xF && kk == 0x65 {
        Instr::Load(x)
    } else {
        Instr::Unknown(op)
    }
}

/// Bit `c` of a sprite row, most significant first.
fn bit_at(b: u8, c: u8) -> (r: bool)
    requires
        c < 8,
    ensures
        r == bit_of(b, c as int),
{
    let mask: u8 = if c == 0 {
        128
    } else if c == 1 {
        64
    } else if c == 2 {
        32
    } else if c == 3 {
        16
    } else if c == 4 {
        8
    } else if c == 5 {
        4
    } else if c == 6 {
        2
    } else {
        1
    };
    (b / mask) % 2 == 1
}

} // verus!
