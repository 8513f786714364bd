//! The machine-wide laws: facts that hold of every program, proved once
//! over the step specification.

use vstd::prelude::*;

use crate::state::{
    bcd_hun, bcd_one, bcd_ten, dec_timer, draw_fb, draw_hits, fetch16, font_loaded, font_seq,
    inv, instr_spec, lemma_decode_wf, load_block, mask12, spec_decode, sprite_covers, step_spec,
    store_block, VmState,
};

verus! {

/// Every reachable state keeps its shape: a tick from a well-formed state
/// yields a well-formed state.  In particular the stack pointer stays in
/// [0, 16], every stored return address stays inside the 12-bit address
/// space, and the register file, memory and framebuffer keep their sizes.
pub proof fn lemma_step_preserves_inv(s: VmState, key: Option<u8>, rnd: u8)
    requires
        inv(s),
    ensures
        inv(step_spec(s, key, rnd).0),
{
    if s.waiting is None && s.pc <= 4094 {
        let op = fetch16(s.mem, s.pc as int);
        lemma_decode_wf(op);
        let s2 = VmState {
            pc: mask12(s.pc + 2),
            dt: dec_timer(s.dt),
            st: dec_timer(s.st),
            ..s
        };
        assert(inv(instr_spec(s2, spec_decode(op), key, rnd).0));
    }
}

/// Between writes, the timers only ever count down: unless the executed
/// instruction was the delay-timer write, DT does not grow, and likewise
/// for ST and the sound-timer write.  (Both are bytes, so they sit in
/// [0, 255] by construction.)
pub proof fn lemma_timers_monotone(s: VmState, key: Option<u8>, rnd: u8)
    requires
        inv(s),
    ensures
        (s.waiting is Some || s.pc > 4094 || !(spec_decode(
            fetch16(s.mem, s.pc as int),
        ) is SetDelay)) ==> step_spec(s, key, rnd).0.dt <= s.dt,
        (s.waiting is Some || s.pc > 4094 || !(spec_decode(
            fetch16(s.mem, s.pc as int),
        ) is SetSound)) ==> step_spec(s, key, rnd).0.st <= s.st,
{
}

/// After any draw that ran, VF is a boolean: 0 or 1.
pub proof fn lemma_draw_flag_binary(s: VmState, key: Option<u8>, rnd: u8)
    requires
        inv(s),
        s.waiting is None,
        s.pc <= 4094,
        spec_decode(fetch16(s.mem, s.pc as int)) is Draw,
        step_spec(s, key, rnd).1 is Ok,
    ensures
        step_spec(s, key, rnd).0.regs[15] == 0 || step_spec(s, key, rnd).0.regs[15] == 1,
{
}

/// The three decimal digits of a byte weigh back to the byte.
pub proof fn lemma_bcd_digits(v: u8)
    ensures
        bcd_hun(v) * 100 + bcd_ten(v) * 10 + bcd_one(v) == v,
        bcd_hun(v) <= 2,
        bcd_ten(v) <= 9,
        bcd_one(v) <= 9,
{
    assert(v / 100 * 100 + (v / 10 % 10) * 10 + v % 10 == v) by (nonlinear_arith);
    assert(v / 100 <= 2) by (nonlinear_arith);
}

/// A BCD store followed by a register load from the same address
/// reconstructs the stored byte: after Fx33 with I unchanged, loading
/// V0..V2 (Fx65 with x = 2) gives digits whose weighted sum is the
/// original Vx.
pub proof fn lemma_bcd_round_trip(mem: Seq<u8>, regs: Seq<u8>, i: int, v: u8)
    requires
        mem.len() == 4096,
        regs.len() == 16,
        0 <= i,
        i + 2 <= 4095,
    ensures
        ({
            let m2 = mem.update(i, bcd_hun(v)).update(i + 1, bcd_ten(v)).update(
                i + 2,
                bcd_one(v),
            );
            let r2 = load_block(regs, m2, i, 2);
            r2[0] * 100 + r2[1] * 10 + r2[2] == v
        }),
{
    lemma_bcd_digits(v);
}

/// Storing V0..=Vx and loading them back from the same address restores
/// the register file exactly.
pub proof fn lemma_store_load_round_trip(mem: Seq<u8>, regs: Seq<u8>, i: int, x: int)
    requires
        mem.len() == 4096,
        regs.len() == 16,
        0 <= x <= 15,
        0 <= i,
        i + x <= 4095,
    ensures
        load_block(regs, store_block(mem, regs, i, x), i, x) == regs,
{
    assert(load_block(regs, store_block(mem, regs, i, x), i, x) =~= regs);
}

/// Drawing the same sprite twice at the same position restores the
/// framebuffer, and the second draw reports a collision exactly when some
/// visible sprite bit landed on a pixel that was dark before the first
/// draw (the first draw lit it, the second erased it).
pub proof fn lemma_double_draw(fb: Seq<bool>, mem: Seq<u8>, i: int, x0: int, y0: int, n: int)
    requires
        fb.len() == 2048,
    ensures
        draw_fb(draw_fb(fb, mem, i, x0, y0, n), mem, i, x0, y0, n) == fb,
        draw_hits(draw_fb(fb, mem, i, x0, y0, n), mem, i, x0, y0, n) <==> (exists|idx: int|
            0 <= idx < 2048 && #[trigger] sprite_covers(mem, i, x0, y0, n, idx) && !fb[idx]),
{
    let d1 = draw_fb(fb, mem, i, x0, y0, n);
    let d2 = draw_fb(d1, mem, i, x0, y0, n);
    assert(d2 =~= fb);
    if draw_hits(d1, mem, i, x0, y0, n) {
        let w = choose|idx: int|
            0 <= idx < d1.len() && #[trigger] sprite_covers(mem, i, x0, y0, n, idx) && d1[idx];
        assert(sprite_covers(mem, i, x0, y0, n, w) && !fb[w]);
    }
    if exists|idx: int|
        0 <= idx < 2048 && #[trigger] sprite_covers(mem, i, x0, y0, n, idx) && !fb[idx] {
        let w = choose|idx: int|
            0 <= idx < 2048 && #[trigger] sprite_covers(mem, i, x0, y0, n, idx) && !fb[idx];
        assert(d1[w]);
    }
}

/// A write that stays clear of the font area leaves the font in place:
/// as long as the address register points at or past 0x0A0, or at least
/// sixteen bytes below 0x050, a tick keeps M[0x050..0x0A0] equal to the
/// font table.  (The two memory-writing instructions write at most
/// sixteen bytes from I upward.)
pub proof fn lemma_step_preserves_font(s: VmState, key: Option<u8>, rnd: u8)
    requires
        inv(s),
        font_loaded(s.mem),
        s.i >= 0xA0 || s.i + 16 <= 0x50,
    ensures
        font_loaded(step_spec(s, key, rnd).0.mem),
{
    let post = step_spec(s, key, rnd).0;
    assert(post.mem.subrange(0x50, 0xA0) =~= s.mem.subrange(0x50, 0xA0));
}

/// Loading a program image never disturbs the font: images live at 0x200
/// and above.
pub proof fn lemma_load_rom_preserves_font(mem: Seq<u8>, rom: Seq<u8>)
    requires
        font_loaded(mem),
    ensures
        font_loaded(crate::state::load_rom_mem(mem, rom)),
{
    assert(crate::state::load_rom_mem(mem, rom).subrange(0x50, 0xA0) =~= mem.subrange(
        0x50,
        0xA0,
    ));
}

/// The memory a fresh machine starts with carries the font.
pub proof fn lemma_init_font_loaded()
    ensures
        font_loaded(crate::state::init_mem()),
{
    assert(crate::state::init_mem().subrange(0x50, 0xA0) =~= font_seq());
}

} // verus!
