//! The mathematical model of the machine.
//!
//! `VmState` is the ghost image of the whole interpreter: memory, registers,
//! stack, timers, framebuffer and the wait-for-key latch.  `step_spec` says
//! exactly what one tick does to it, for every instruction of the set; the
//! executable code in `cpu` is proved equal to it.

use vstd::prelude::*;

verus! {

/// Ghost image of the whole machine state.
#[verifier::ext_equal]
pub ghost struct VmState {
    /// Program counter, always within the 12-bit address space.
    pub pc: u16,
    /// The address register I.
    pub i: u16,
    /// Return-address stack; its length is the stack pointer.
    pub stack: Seq<u16>,
    /// Delay timer.
    pub dt: u8,
    /// Sound timer.
    pub st: u8,
    /// The sixteen general registers V0..VF.
    pub regs: Seq<u8>,
    /// The 4096 bytes of memory.
    pub mem: Seq<u8>,
    /// The 64x32 framebuffer, row-major: pixel (x, y) is `fb[x + 64 * y]`.
    pub fb: Seq<bool>,
    /// When a wait-for-key instruction is pending, the register that will
    /// receive the key.
    pub waiting: Option<u8>,
}

/// A fatal condition raised by a malformed program.
#[derive(Clone, Copy, PartialEq, Eq, Structural, Debug)]
pub enum Fault {
    /// A read or write aimed outside the 4096 bytes of memory.
    MemOutOfBounds,
    /// A call with all sixteen return slots in use.
    StackOverflow,
    /// A return with no call outstanding.
    StackUnderflow,
    /// A program image larger than the 3584 bytes above the reserved area.
    RomTooLarge,
}

/// What one tick did, when it did not fault.
#[derive(Clone, Copy, PartialEq, Eq, Structural, Debug)]
pub enum Step {
    /// One instruction was executed.
    Executed,
    /// The machine is blocked on a wait-for-key and no key is held.
    WaitingForKey,
    /// The fetched word matched no instruction; it was skipped.  The tick
    /// loop may log the word and carry on.
    Unimplemented(u16),
}

/// One decoded instruction.  Field order follows the mnemonic: register
/// indices first, then immediates.
#[derive(Clone, Copy, PartialEq, Eq, Structural, Debug)]
pub enum Instr {
    /// 00E0: clear the framebuffer.
    Cls,
    /// 00EE: return from a call.
    Ret,
    /// 1nnn: jump.
    Jump(u16),
    /// 2nnn: call.
    Call(u16),
    /// 3xkk: skip next if Vx == kk.
    SkipEqByte(u8, u8),
    /// 4xkk: skip next if Vx != kk.
    SkipNeByte(u8, u8),
    /// 5xy0: skip next if Vx == Vy.
    SkipEqReg(u8, u8),
    /// 6xkk: Vx = kk.
    LoadByte(u8, u8),
    /// 7xkk: Vx = Vx + kk, wrapping, no flag.
    AddByte(u8, u8),
    /// 8xy0: Vx = Vy.
    Copy(u8, u8),
    /// 8xy1: Vx |= Vy.
    Or(u8, u8),
    /// 8xy2: Vx &= Vy.
    And(u8, u8),
    /// 8xy3: Vx ^= Vy.
    Xor(u8, u8),
    /// 8xy4: Vx += Vy, VF = carry.
    Add(u8, u8),
    /// 8xy5: Vx -= Vy, VF = no borrow.
    Sub(u8, u8),
    /// 8xy6: VF = low bit of Vx, Vx >>= 1.
    Shr(u8, u8),
    /// 8xy7: Vx = Vy - Vx, VF = no borrow.
    SubRev(u8, u8),
    /// 8xyE: VF = high bit of Vx, Vx <<= 1.
    Shl(u8, u8),
    /// 9xy0: skip next if Vx != Vy.
    SkipNeReg(u8, u8),
    /// Annn: I = nnn.
    LoadI(u16),
    /// Bnnn: jump to nnn + V0; PC is a 12-bit register, so the sum wraps
    /// into the address space.
    JumpV0(u16),
    /// Cxkk: Vx = random byte & kk.
    Rand(u8, u8),
    /// Dxyn: draw the n-row sprite at M[I..] to (Vx mod 64, Vy mod 32).
    Draw(u8, u8, u8),
    /// Ex9E: skip next if the held key equals Vx.
    SkipKey(u8),
    /// ExA1: skip next if the held key differs from Vx.
    SkipNoKey(u8),
    /// Fx07: Vx = DT.
    ReadDelay(u8),
    /// Fx0A: block until a key is held, then Vx = that key.
    WaitKey(u8),
    /// Fx15: DT = Vx.
    SetDelay(u8),
    /// Fx18: ST = Vx.
    SetSound(u8),
    /// Fx1E: I = I + Vx, wrapping at 16 bits, no flag.
    AddI(u8),
    /// Fx29: I = address of the font glyph for the low nibble of Vx.
    FontAddr(u8),
    /// Fx33: write the decimal digits of Vx to M[I..I+3).
    Bcd(u8),
    /// Fx55: write V0..=Vx to M[I..].
    Store(u8),
    /// Fx65: read V0..=Vx from M[I..].
    Load(u8),
    /// Anything else: skipped, reported to the tick loop.
    Unknown(u16),
}

/// The 16-glyph, 5-bytes-per-glyph font for the hex digits 0..F.
pub open spec fn font_seq() -> Seq<u8> {
    seq![
        0xF0u8, 0x90, 0x90, 0x90, 0xF0, // 0
        0x20, 0x60, 0x20, 0x20, 0x70, // 1
        0xF0, 0x10, 0xF0, 0x80, 0xF0, // 2
        0xF0, 0x10, 0xF0, 0x10, 0xF0, // 3
        0x90, 0x90, 0xF0, 0x10, 0x10, // 4
        0xF0, 0x80, 0xF0, 0x10, 0xF0, // 5
        0xF0, 0x80, 0xF0, 0x90, 0xF0, // 6
        0xF0, 0x10, 0x20, 0x40, 0x40, // 7
        0xF0, 0x90, 0xF0, 0x90, 0xF0, // 8
        0xF0, 0x90, 0xF0, 0x10, 0xF0, // 9
        0xF0, 0x90, 0xF0, 0x90, 0x90, // A
        0xE0, 0x90, 0xE0, 0x90, 0xE0, // B
        0xF0, 0x80, 0x80, 0x80, 0xF0, // C
        0xE0, 0x90, 0x90, 0x90, 0xE0, // D
        0xF0, 0x80, 0xF0, 0x80, 0xF0, // E
        0xF0, 0x80, 0xF0, 0x80, 0x80, // F
    ]
}

/// Memory after a program image was copied in at 0x200.
pub open spec fn load_rom_mem(mem: Seq<u8>, rom: Seq<u8>) -> Seq<u8> {
    Seq::new(
        mem.len(),
        |j: int| if 0x200 <= j < 0x200 + rom.len() { rom[j - 0x200] } else { mem[j] },
    )
}

/// Memory at power-on: zero everywhere but the font area.
pub open spec fn init_mem() -> Seq<u8> {
    Seq::new(4096, |j: int| if 0x50 <= j < 0xA0 { font_seq()[j - 0x50] } else { 0u8 })
}

/// The whole machine at power-on.
pub open spec fn init_state() -> VmState {
    VmState {
        pc: 0x200,
        i: 0,
        stack: Seq::empty(),
        dt: 0,
        st: 0,
        regs: Seq::new(16, |j: int| 0u8),
        mem: init_mem(),
        fb: Seq::new(2048, |j: int| false),
        waiting: None,
    }
}

/// The structural invariant: every field has its machine size and every
/// stored address fits the 12-bit address space.
pub open spec fn inv(s: VmState) -> bool {
    &&& s.regs.len() == 16
    &&& s.mem.len() == 4096
    &&& s.fb.len() == 2048
    &&& s.stack.len() <= 16
    &&& forall|j: int| 0 <= j < s.stack.len() ==> s.stack[j] <= 0xFFF
    &&& s.pc <= 0xFFF
    &&& (s.waiting matches Some(x) ==> x <= 0xF)
}

/// The font area still holds the font.
pub open spec fn font_loaded(mem: Seq<u8>) -> bool {
    mem.len() == 4096 && mem.subrange(0x50, 0xA0) == font_seq()
}

/// One 60 Hz decrement: down by one while positive, pinned at zero.
pub open spec fn dec_timer(t: u8) -> u8 {
    if t > 0 { (t - 1) as u8 } else { 0 }
}

/// Truncation to the 12-bit address space.
pub open spec fn mask12(a: int) -> u16 {
    (a % 0x1000) as u16
}

/// The big-endian 16-bit word at `p`.
pub open spec fn fetch16(mem: Seq<u8>, p: int) -> u16 {
    (mem[p] * 0x100 + mem[p + 1]) as u16
}

/// Decode one 16-bit word.  Fields are extracted arithmetically: `hi` is the
/// top nibble, `x` and `y` the middle nibbles, `n`, `kk`, `nnn` the low 4, 8
/// and 12 bits.
pub open spec fn spec_decode(op: u16) -> Instr {
    let hi = op / 0x1000;
    let x = ((op / 0x100) % 0x10) as u8;
    let y = ((op / 0x10) % 0x10) as u8;
    let n = (op % 0x10) as u8;
    let kk = (op % 0x100) as u8;
    let nnn = (op % 0x1000) as u16;
    if op == 0x00E0 {
        Instr::Cls
    } else if op == 0x00EE {
        Instr::Ret
    } else if hi == 0x1 {
        Instr::Jump(nnn)
    } else if hi == 0x2 {
        Instr::Call(nnn)
    } else if hi == 0x3 {
        Instr::SkipEqByte(x, kk)
    } else if hi == 0x4 {
        Instr::SkipNeByte(x, kk)
    } else if hi == 0x5 && n == 0 {
        Instr::SkipEqReg(x, y)
    } else if hi == 0x6 {
        Instr::LoadByte(x, kk)
    } else if hi == 0x7 {
        Instr::AddByte(x, kk)
    } else if hi == 0x8 && n == 0x0 {
        Instr::Copy(x, y)
    } else if hi == 0x8 && n == 0x1 {
        Instr::Or(x, y)
    } else if hi == 0x8 && n == 0x2 {
        Instr::And(x, y)
    } else if hi == 0x8 && n == 0x3 {
        Instr::Xor(x, y)
    } else if hi == 0x8 && n == 0x4 {
        Instr::Add(x, y)
    } else if hi == 0x8 && n == 0x5 {
        Instr::Sub(x, y)
    } else if hi == 0x8 && n == 0x6 {
        Instr::Shr(x, y)
    } else if hi == 0x8 && n == 0x7 {
        Instr::SubRev(x, y)
    } else if hi == 0x8 && n == 0xE {
        Instr::Shl(x, y)
    } else if hi == 0x9 && n == 0 {
        Instr::SkipNeReg(x, y)
    } else if hi == 0xA {
        Instr::LoadI(nnn)
    } else if hi == 0xB {
        Instr::JumpV0(nnn)
    } else if hi == 0xC {
        Instr::Rand(x, kk)
    } else if hi == 0xD {
        Instr::Draw(x, y, n)
    } else if hi == 0xE && kk == 0x9E {
        Instr::SkipKey(x)
    } else if hi == 0xE && kk == 0xA1 {
        Instr::SkipNoKey(x)
    } else if hi == 0xF && kk == 0x07 {
        Instr::ReadDelay(x)
    } else if hi == 0xF && kk == 0x0A {
        Instr::WaitKey(x)
    } else if hi == 0xF && kk == 0x15 {
        Instr::SetDelay(x)
    } else if hi == 0xF && kk == 0x18 {
        Instr::SetSound(x)
    } else if hi == 0xF && kk == 0x1E {
        Instr::AddI(x)
    } else if hi == 0xF && kk == 0x29 {
        Instr::FontAddr(x)
    } else if hi == 0xF && kk == 0x33 {
        Instr::Bcd(x)
    } else if hi == 0xF && kk == 0x55 {
        Instr::Store(x)
    } else if hi == 0xF && kk == 0x65 {
        Instr::Load(x)
    } else {
        Instr::Unknown(op)
    }
}

/// Every field a decoder can produce is in range: register indices are
/// nibbles, addresses are 12 bits.
pub open spec fn instr_wf(instr: Instr) -> bool {
    match instr {
        Instr::Cls => true,
        Instr::Ret => true,
        Instr::Jump(nnn) => nnn <= 0xFFF,
        Instr::Call(nnn) => nnn <= 0xFFF,
        Instr::SkipEqByte(x, _kk) => x <= 0xF,
        Instr::SkipNeByte(x, _kk) => x <= 0xF,
        Instr::SkipEqReg(x, y) => x <= 0xF && y <= 0xF,
        Instr::LoadByte(x, _kk) => x <= 0xF,
        Instr::AddByte(x, _kk) => x <= 0xF,
        Instr::Copy(x, y) => x <= 0xF && y <= 0xF,
        Instr::Or(x, y) => x <= 0xF && y <= 0xF,
        Instr::And(x, y) => x <= 0xF && y <= 0xF,
        Instr::Xor(x, y) => x <= 0xF && y <= 0xF,
        Instr::Add(x, y) => x <= 0xF && y <= 0xF,
        Instr::Sub(x, y) => x <= 0xF && y <= 0xF,
        Instr::Shr(x, y) => x <= 0xF && y <= 0xF,
        Instr::SubRev(x, y) => x <= 0xF && y <= 0xF,
        Instr::Shl(x, y) => x <= 0xF && y <= 0xF,
        Instr::SkipNeReg(x, y) => x <= 0xF && y <= 0xF,
        Instr::LoadI(nnn) => nnn <= 0xFFF,
        Instr::JumpV0(nnn) => nnn <= 0xFFF,
        Instr::Rand(x, _kk) => x <= 0xF,
        Instr::Draw(x, y, n) => x <= 0xF && y <= 0xF && n <= 0xF,
        Instr::SkipKey(x) => x <= 0xF,
        Instr::SkipNoKey(x) => x <= 0xF,
        Instr::ReadDelay(x) => x <= 0xF,
        Instr::WaitKey(x) => x <= 0xF,
        Instr::SetDelay(x) => x <= 0xF,
        Instr::SetSound(x) => x <= 0xF,
        Instr::AddI(x) => x <= 0xF,
        Instr::FontAddr(x) => x <= 0xF,
        Instr::Bcd(x) => x <= 0xF,
        Instr::Store(x) => x <= 0xF,
        Instr::Load(x) => x <= 0xF,
        Instr::Unknown(_op) => true,
    }
}

/// The decoder only produces well-formed instructions.
pub proof fn lemma_decode_wf(op: u16)
    ensures
        instr_wf(spec_decode(op)),
{
    assert((op / 0x100) % 0x10 <= 0xF);
    assert((op / 0x10) % 0x10 <= 0xF);
    assert(op % 0x10 <= 0xF);
    assert(op % 0x1000 <= 0xFFF);
}

/// Bit `c` of a sprite row, counting from the most significant bit.
pub open spec fn bit_of(b: u8, c: int) -> bool {
    if c == 0 {
        (b / 128) % 2 == 1
    } else if c == 1 {
        (b / 64) % 2 == 1
    } else if c == 2 {
        (b / 32) % 2 == 1
    } else if c == 3 {
        (b / 16) % 2 == 1
    } else if c == 4 {
        (b / 8) % 2 == 1
    } else if c == 5 {
        (b / 4) % 2 == 1
    } else if c == 6 {
        (b / 2) % 2 == 1
    } else if c == 7 {
        b % 2 == 1
    } else {
        false
    }
}

/// Whether the sprite of `n` rows at `mem[i..]`, anchored at `(x0, y0)`,
/// sets the framebuffer cell `idx`.  Rows below or right of the screen are
/// clipped by construction: no cell has them as coordinates.
pub open spec fn sprite_covers(
    mem: Seq<u8>,
    i: int,
    x0: int,
    y0: int,
    n: int,
    idx: int,
) -> bool {
    let px = idx % 64;
    let py = idx / 64;
    &&& x0 <= px < x0 + 8
    &&& y0 <= py < y0 + n
    &&& bit_of(mem[i + (py - y0)], px - x0)
}

/// Two states that agree everywhere but the framebuffer.
pub open spec fn eq_but_fb(a: VmState, b: VmState) -> bool {
    &&& a.pc == b.pc
    &&& a.i == b.i
    &&& a.stack == b.stack
    &&& a.dt == b.dt
    &&& a.st == b.st
    &&& a.regs == b.regs
    &&& a.mem == b.mem
    &&& a.waiting == b.waiting
}

/// Two states that agree everywhere but the register file.
pub open spec fn eq_but_regs(a: VmState, b: VmState) -> bool {
    &&& a.pc == b.pc
    &&& a.i == b.i
    &&& a.stack == b.stack
    &&& a.dt == b.dt
    &&& a.st == b.st
    &&& a.mem == b.mem
    &&& a.fb == b.fb
    &&& a.waiting == b.waiting
}

/// The part of the sprite a draw loop has already applied: all of the
/// first `r` rows, and the first `c` columns of row `r`.
pub open spec fn covers_prefix(
    mem: Seq<u8>,
    i: int,
    x0: int,
    y0: int,
    r: int,
    c: int,
    idx: int,
) -> bool {
    let px = idx % 64;
    let py = idx / 64;
    &&& x0 <= px < x0 + 8
    &&& y0 <= py
    &&& (py - y0 < r || (py - y0 == r && px - x0 < c))
    &&& bit_of(mem[i + (py - y0)], px - x0)
}

/// The framebuffer after the draw: every covered cell is toggled.
pub open spec fn draw_fb(
    fb: Seq<bool>,
    mem: Seq<u8>,
    i: int,
    x0: int,
    y0: int,
    n: int,
) -> Seq<bool> {
    Seq::new(fb.len(), |idx: int| fb[idx] != sprite_covers(mem, i, x0, y0, n, idx))
}

/// Whether the draw erases some pixel that was on: the collision VF reports.
pub open spec fn draw_hits(
    fb: Seq<bool>,
    mem: Seq<u8>,
    i: int,
    x0: int,
    y0: int,
    n: int,
) -> bool {
    exists|idx: int|
        0 <= idx < fb.len() && #[trigger] sprite_covers(mem, i, x0, y0, n, idx) && fb[idx]
}

/// Hundreds digit of a byte.
pub open spec fn bcd_hun(v: u8) -> u8 {
    (v / 100) as u8
}

/// Tens digit of a byte.
pub open spec fn bcd_ten(v: u8) -> u8 {
    ((v / 10) % 10) as u8
}

/// Ones digit of a byte.
pub open spec fn bcd_one(v: u8) -> u8 {
    (v % 10) as u8
}

/// Memory after V0..=Vx were stored at `i`.
pub open spec fn store_block(mem: Seq<u8>, regs: Seq<u8>, i: int, x: int) -> Seq<u8> {
    Seq::new(mem.len(), |j: int| if i <= j <= i + x { regs[j - i] } else { mem[j] })
}

/// Registers after V0..=Vx were loaded from `mem[i..]`.
pub open spec fn load_block(regs: Seq<u8>, mem: Seq<u8>, i: int, x: int) -> Seq<u8> {
    Seq::new(regs.len(), |r: int| if r <= x { mem[i + r] } else { regs[r] })
}

/// Whether the sampled key makes a skip-if-key test succeed.
pub open spec fn key_matches(key: Option<u8>, vx: u8) -> bool {
    key matches Some(k) && k == vx
}

/// The effect of one decoded instruction on the post-fetch state `s` (timers
/// already decremented, PC already advanced past the word).
pub open spec fn instr_spec(
    s: VmState,
    instr: Instr,
    key: Option<u8>,
    rnd: u8,
) -> (VmState, Result<Step, Fault>) {
    match instr {
        Instr::Cls => (
            VmState { fb: Seq::new(2048, |j: int| false), ..s },
            Ok(Step::Executed),
        ),
        Instr::Ret => {
            if s.stack.len() == 0 {
                (s, Err(Fault::StackUnderflow))
            } else {
                (
                    VmState { pc: s.stack.last(), stack: s.stack.drop_last(), ..s },
                    Ok(Step::Executed),
                )
            }
        },
        Instr::Jump(nnn) => (VmState { pc: nnn, ..s }, Ok(Step::Executed)),
        Instr::Call(nnn) => {
            if s.stack.len() >= 16 {
                (s, Err(Fault::StackOverflow))
            } else {
                (
                    VmState { pc: nnn, stack: s.stack.push(s.pc), ..s },
                    Ok(Step::Executed),
                )
            }
        },
        Instr::SkipEqByte(x, kk) => (
            VmState {
                pc: if s.regs[x as int] == kk { mask12(s.pc + 2) } else { s.pc },
                ..s
            },
            Ok(Step::Executed),
        ),
        Instr::SkipNeByte(x, kk) => (
            VmState {
                pc: if s.regs[x as int] != kk { mask12(s.pc + 2) } else { s.pc },
                ..s
            },
            Ok(Step::Executed),
        ),
        Instr::SkipEqReg(x, y) => (
            VmState {
                pc: if s.regs[x as int] == s.regs[y as int] { mask12(s.pc + 2) } else { s.pc },
                ..s
            },
            Ok(Step::Executed),
        ),
        Instr::LoadByte(x, kk) => (
            VmState { regs: s.regs.update(x as int, kk), ..s },
            Ok(Step::Executed),
        ),
        Instr::AddByte(x, kk) => (
            VmState {
                regs: s.regs.update(x as int, ((s.regs[x as int] + kk) % 256) as u8),
                ..s
            },
            Ok(Step::Executed),
        ),
        Instr::Copy(x, y) => (
            VmState { regs: s.regs.update(x as int, s.regs[y as int]), ..s },
            Ok(Step::Executed),
        ),
        Instr::Or(x, y) => (
            VmState { regs: s.regs.update(x as int, s.regs[x as int] | s.regs[y as int]), ..s },
            Ok(Step::Executed),
        ),
        Instr::And(x, y) => (
            VmState { regs: s.regs.update(x as int, s.regs[x as int] & s.regs[y as int]), ..s },
            Ok(Step::Executed),
        ),
        Instr::Xor(x, y) => (
            VmState { regs: s.regs.update(x as int, s.regs[x as int] ^ s.regs[y as int]), ..s },
            Ok(Step::Executed),
        ),
        Instr::Add(x, y) => {
            let sum = s.regs[x as int] + s.regs[y as int];
            let flag: u8 = if sum > 255 { 1 } else { 0 };
            (
                VmState {
                    regs: s.regs.update(x as int, (sum % 256) as u8).update(15, flag),
                    ..s
                },
                Ok(Step::Executed),
            )
        },
        Instr::Sub(x, y) => {
            let vx = s.regs[x as int];
            let vy = s.regs[y as int];
            let flag: u8 = if vx >= vy { 1 } else { 0 };
            (
                VmState {
                    regs: s.regs.update(x as int, ((vx - vy + 256) % 256) as u8).update(15, flag),
                    ..s
                },
                Ok(Step::Executed),
            )
        },
        Instr::Shr(x, _y) => {
            let vx = s.regs[x as int];
            (
                VmState {
                    regs: s.regs.update(x as int, (vx / 2) as u8).update(15, (vx % 2) as u8),
                    ..s
                },
                Ok(Step::Executed),
            )
        },
        Instr::SubRev(x, y) => {
            let vx = s.regs[x as int];
            let vy = s.regs[y as int];
            let flag: u8 = if vy >= vx { 1 } else { 0 };
            (
                VmState {
                    regs: s.regs.update(x as int, ((vy - vx + 256) % 256) as u8).update(15, flag),
                    ..s
                },
                Ok(Step::Executed),
            )
        },
        Instr::Shl(x, _y) => {
            let vx = s.regs[x as int];
            (
                VmState {
                    regs: s.regs.update(x as int, ((vx * 2) % 256) as u8).update(
                        15,
                        (vx / 128) as u8,
                    ),
                    ..s
                },
                Ok(Step::Executed),
            )
        },
        Instr::SkipNeReg(x, y) => (
            VmState {
                pc: if s.regs[x as int] != s.regs[y as int] { mask12(s.pc + 2) } else { s.pc },
                ..s
            },
            Ok(Step::Executed),
        ),
        Instr::LoadI(nnn) => (VmState { i: nnn, ..s }, Ok(Step::Executed)),
        Instr::JumpV0(nnn) => (
            VmState { pc: mask12(nnn + s.regs[0]), ..s },
            Ok(Step::Executed),
        ),
        Instr::Rand(x, kk) => (
            VmState { regs: s.regs.update(x as int, rnd & kk), ..s },
            Ok(Step::Executed),
        ),
        Instr::Draw(x, y, n) => {
            if n > 0 && s.i + n > 4096 {
                (s, Err(Fault::MemOutOfBounds))
            } else {
                let x0 = (s.regs[x as int] % 64) as int;
                let y0 = (s.regs[y as int] % 32) as int;
                let hit = draw_hits(s.fb, s.mem, s.i as int, x0, y0, n as int);
                (
                    VmState {
                        fb: draw_fb(s.fb, s.mem, s.i as int, x0, y0, n as int),
                        regs: s.regs.update(15, if hit { 1u8 } else { 0u8 }),
                        ..s
                    },
                    Ok(Step::Executed),
                )
            }
        },
        Instr::SkipKey(x) => (
            VmState {
                pc: if key_matches(key, s.regs[x as int]) { mask12(s.pc + 2) } else { s.pc },
                ..s
            },
            Ok(Step::Executed),
        ),
        Instr::SkipNoKey(x) => (
            VmState {
                pc: if !key_matches(key, s.regs[x as int]) { mask12(s.pc + 2) } else { s.pc },
                ..s
            },
            Ok(Step::Executed),
        ),
        Instr::ReadDelay(x) => (
            VmState { regs: s.regs.update(x as int, s.dt), ..s },
            Ok(Step::Executed),
        ),
        Instr::WaitKey(x) => {
            match key {
                Some(k) => (
                    VmState { regs: s.regs.update(x as int, k), ..s },
                    Ok(Step::Executed),
                ),
                None => (VmState { waiting: Some(x), ..s }, Ok(Step::Executed)),
            }
        },
        Instr::SetDelay(x) => (VmState { dt: s.regs[x as int], ..s }, Ok(Step::Executed)),
        Instr::SetSound(x) => (VmState { st: s.regs[x as int], ..s }, Ok(Step::Executed)),
        Instr::AddI(x) => (
            VmState { i: ((s.i + s.regs[x as int]) % 0x10000) as u16, ..s },
            Ok(Step::Executed),
        ),
        Instr::FontAddr(x) => (
            VmState { i: (0x50 + (s.regs[x as int] % 16) * 5) as u16, ..s },
            Ok(Step::Executed),
        ),
        Instr::Bcd(x) => {
            if s.i + 2 > 4095 {
                (s, Err(Fault::MemOutOfBounds))
            } else {
                let v = s.regs[x as int];
                (
                    VmState {
                        mem: s.mem.update(s.i as int, bcd_hun(v)).update(
                            s.i + 1,
                            bcd_ten(v),
                        ).update(s.i + 2, bcd_one(v)),
                        ..s
                    },
                    Ok(Step::Executed),
                )
            }
        },
        Instr::Store(x) => {
            if s.i + x > 4095 {
                (s, Err(Fault::MemOutOfBounds))
            } else {
                (
                    VmState { mem: store_block(s.mem, s.regs, s.i as int, x as int), ..s },
                    Ok(Step::Executed),
                )
            }
        },
        Instr::Load(x) => {
            if s.i + x > 4095 {
                (s, Err(Fault::MemOutOfBounds))
            } else {
                (
                    VmState { regs: load_block(s.regs, s.mem, s.i as int, x as int), ..s },
                    Ok(Step::Executed),
                )
            }
        },
        Instr::Unknown(op) => (s, Ok(Step::Unimplemented(op))),
    }
}

/// One whole tick: decrement the timers; if a wait-for-key is pending,
/// resolve or keep it; otherwise fetch, advance PC within 12 bits, decode,
/// and execute.  `key` is the keypad sample for this tick, `rnd` the byte a
/// random instruction would consume.
pub open spec fn step_spec(
    s: VmState,
    key: Option<u8>,
    rnd: u8,
) -> (VmState, Result<Step, Fault>) {
    let s1 = VmState { dt: dec_timer(s.dt), st: dec_timer(s.st), ..s };
    match s.waiting {
        Some(x) => {
            match key {
                Some(k) => (
                    VmState { regs: s1.regs.update(x as int, k), waiting: None, ..s1 },
                    Ok(Step::Executed),
                ),
                None => (s1, Ok(Step::WaitingForKey)),
            }
        },
        None => {
            if s.pc > 4094 {
                (s1, Err(Fault::MemOutOfBounds))
            } else {
                let op = fetch16(s.mem, s.pc as int);
                let s2 = VmState { pc: mask12(s.pc + 2), ..s1 };
                instr_spec(s2, spec_decode(op), key, rnd)
            }
        },
    }
}

} // verus!
