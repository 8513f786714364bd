//! End-to-end runs of short programs against the interpreter.

use chip8::cpu::{new_cpu, Cpu};
use chip8::state::{Fault, Step};

fn boot(rom: &[u8]) -> Cpu {
    let mut c = new_cpu();
    c.laod_rom(rom).unwrap();
    c
}

fn run(c: &mut Cpu, ticks: usize, key: Option<u8>) {
    let mut t = 0;
    while t < ticks {
        c.tick(key).unwrap();
        t += 1;
    }
}

fn lit_pixels(c: &Cpu) -> usize {
    let mut n = 0;
    for p in c.dis.data.iter() {
        if *p {
            n += 1;
        }
    }
    n
}

#[test]
fn call_then_ret() {
    let mut c = boot(&[0x22, 0x06, 0x00, 0x00, 0x00, 0x00, 0x00, 0xEE]);
    run(&mut c, 2, None);
    assert_eq!(c.pc, 0x202);
    assert_eq!(c.s.len(), 0);
}

#[test]
fn call_pushes_return_address() {
    let mut c = boot(&[0x22, 0x06, 0x00, 0x00, 0x00, 0x00, 0x00, 0xEE]);
    run(&mut c, 1, None);
    assert_eq!(c.pc, 0x206);
    assert_eq!(c.s.len(), 1);
    assert_eq!(c.s[0], 0x202);
    assert!(c.s[0] <= 0xFFF);
}

#[test]
fn add_with_carry() {
    let mut c = boot(&[0x60, 0xFF, 0x61, 0x01, 0x80, 0x14]);
    run(&mut c, 3, None);
    assert_eq!(c.get_register(0), 0x00);
    assert_eq!(c.get_register(1), 0x01);
    assert_eq!(c.get_register(15), 1);
}

#[test]
fn sub_no_borrow() {
    let mut c = boot(&[0x60, 0x05, 0x61, 0x03, 0x80, 0x15]);
    run(&mut c, 3, None);
    assert_eq!(c.get_register(0), 0x02);
    assert_eq!(c.get_register(15), 1);
}

#[test]
fn font_sprite_zero() {
    let mut c = boot(&[0x60, 0x00, 0xF0, 0x29, 0xD0, 0x05]);
    run(&mut c, 3, None);
    let glyph = [0xF0u8, 0x90, 0x90, 0x90, 0xF0];
    for y in 0..5usize {
        for x in 0..8usize {
            let want = (glyph[y] >> (7 - x)) & 1 == 1;
            assert_eq!(c.dis.data[x + 64 * y], want);
        }
    }
    assert_eq!(c.get_register(15), 0);
}

#[test]
fn bcd_of_234() {
    let mut c = boot(&[0x60, 0xEA, 0xA3, 0x00, 0xF0, 0x33]);
    run(&mut c, 3, None);
    assert_eq!(c.mem.data[0x300], 2);
    assert_eq!(c.mem.data[0x301], 3);
    assert_eq!(c.mem.data[0x302], 4);
}

#[test]
fn skip_on_key() {
    let mut c = boot(&[0x60, 0x05, 0xE0, 0x9E, 0x12, 0x08, 0x60, 0x00, 0x00, 0x00]);
    run(&mut c, 3, Some(0x5));
    assert_eq!(c.pc, 0x208);
}

#[test]
fn skip_not_taken_without_key() {
    let mut c = boot(&[0x60, 0x05, 0xE0, 0x9E, 0x12, 0x08, 0x60, 0x00, 0x00, 0x00]);
    run(&mut c, 3, None);
    // Without the key the skip does not fire, so the jump at 0x204 runs
    // and the load at 0x206 never does: V0 keeps its value.
    assert_eq!(c.pc, 0x208);
    assert_eq!(c.get_register(0), 0x05);
}

#[test]
fn skip_not_on_wrong_key() {
    let mut c = boot(&[0x60, 0x05, 0xE0, 0x9E, 0x12, 0x08, 0x60, 0x00, 0x00, 0x00]);
    run(&mut c, 2, Some(0x4));
    // The skip did not fire: PC sits on the jump at 0x204.
    assert_eq!(c.pc, 0x204);
}

#[test]
fn skip_not_pressed() {
    let mut c = boot(&[0x60, 0x05, 0xE0, 0xA1, 0x12, 0x08, 0x60, 0x00, 0x00, 0x00]);
    run(&mut c, 2, None);
    // SKNP with no key held skips the jump.
    assert_eq!(c.pc, 0x206);
}

#[test]
fn draw_clips_at_right_edge() {
    // V0=62, V1=31, I=0x20A (one 0xFF row), draw 1 row at (62, 31).
    let mut c = boot(&[0x60, 0x3E, 0x61, 0x1F, 0xA2, 0x0A, 0xD0, 0x11, 0x00, 0x00, 0xFF]);
    run(&mut c, 4, None);
    assert!(c.dis.data[62 + 64 * 31]);
    assert!(c.dis.data[63 + 64 * 31]);
    assert_eq!(lit_pixels(&c), 2);
}

#[test]
fn draw_no_wrap_at_column_63() {
    let mut c = boot(&[0x60, 0x3F, 0x61, 0x00, 0xA2, 0x0A, 0xD0, 0x11, 0x00, 0x00, 0xFF]);
    run(&mut c, 4, None);
    assert!(c.dis.data[63]);
    assert_eq!(lit_pixels(&c), 1);
}

#[test]
fn sub_equal_gives_zero_no_borrow() {
    let mut c = boot(&[0x60, 0x05, 0x61, 0x05, 0x80, 0x15]);
    run(&mut c, 3, None);
    assert_eq!(c.get_register(0), 0);
    assert_eq!(c.get_register(15), 1);
}

#[test]
fn sub_with_borrow_wraps() {
    let mut c = boot(&[0x60, 0x00, 0x61, 0x01, 0x80, 0x15]);
    run(&mut c, 3, None);
    assert_eq!(c.get_register(0), 255);
    assert_eq!(c.get_register(15), 0);
}

#[test]
fn shl_of_0x80_carries() {
    let mut c = boot(&[0x60, 0x80, 0x80, 0x0E]);
    run(&mut c, 2, None);
    assert_eq!(c.get_register(0), 0x00);
    assert_eq!(c.get_register(15), 1);
}

#[test]
fn shr_keeps_low_bit() {
    let mut c = boot(&[0x60, 0x05, 0x80, 0x06]);
    run(&mut c, 2, None);
    assert_eq!(c.get_register(0), 2);
    assert_eq!(c.get_register(15), 1);
}

#[test]
fn subn_no_borrow() {
    let mut c = boot(&[0x60, 0x03, 0x61, 0x05, 0x80, 0x17]);
    run(&mut c, 3, None);
    assert_eq!(c.get_register(0), 2);
    assert_eq!(c.get_register(15), 1);
}

#[test]
fn add_i_past_fff_no_flag() {
    let mut c = boot(&[0xAF, 0xFE, 0x60, 0x05, 0xF0, 0x1E]);
    run(&mut c, 3, None);
    assert_eq!(c.i, 0x1003);
    assert_eq!(c.get_register(15), 0);
}

#[test]
fn bcd_then_load_reconstructs() {
    let mut c = boot(&[0x60, 0xEA, 0xA3, 0x00, 0xF0, 0x33, 0xF2, 0x65]);
    run(&mut c, 4, None);
    let hun = c.get_register(0) as u16;
    let ten = c.get_register(1) as u16;
    let one = c.get_register(2) as u16;
    assert_eq!(hun * 100 + ten * 10 + one, 234);
}

#[test]
fn store_then_load_restores_registers() {
    // V0=0x11 V1=0x22 V2=0x33, I=0x300, store V0..=V2, clobber V0..=V2,
    // load V0..=V2 back.
    let mut c = boot(&[
        0x60, 0x11, 0x61, 0x22, 0x62, 0x33, 0xA3, 0x00, 0xF2, 0x55, 0x60, 0x00, 0x61, 0x00,
        0x62, 0x00, 0xF2, 0x65,
    ]);
    run(&mut c, 9, None);
    assert_eq!(c.get_register(0), 0x11);
    assert_eq!(c.get_register(1), 0x22);
    assert_eq!(c.get_register(2), 0x33);
    assert_eq!(c.i, 0x300);
}

#[test]
fn double_draw_restores_screen() {
    // Draw the '0' glyph twice at (0, 0): the screen ends blank and the
    // second draw reports the collision.
    let mut c = boot(&[0x60, 0x00, 0xF0, 0x29, 0xD0, 0x05, 0xD0, 0x05]);
    run(&mut c, 3, None);
    assert_eq!(c.get_register(15), 0);
    run(&mut c, 1, None);
    assert_eq!(c.get_register(15), 1);
    assert_eq!(lit_pixels(&c), 0);
}

#[test]
fn font_survives_running_programs() {
    // A program that stores into memory well above the font area: the
    // font region must be byte-for-byte what construction placed there.
    let mut c = boot(&[0x60, 0xEA, 0xA3, 0x00, 0xF0, 0x33, 0xF2, 0x55, 0x12, 0x00]);
    let before: Vec<u8> = c.mem.data[0x50..0xA0].to_vec();
    run(&mut c, 32, None);
    let after: Vec<u8> = c.mem.data[0x50..0xA0].to_vec();
    assert_eq!(before, after);
    assert_eq!(c.mem.data[0x50], 0xF0);
}

#[test]
fn cls_clears_screen() {
    let mut c = boot(&[0x60, 0x00, 0xF0, 0x29, 0xD0, 0x05, 0x00, 0xE0]);
    run(&mut c, 4, None);
    assert_eq!(lit_pixels(&c), 0);
}

#[test]
fn jump_with_offset() {
    let mut c = boot(&[0x60, 0x02, 0xB2, 0x06]);
    run(&mut c, 2, None);
    assert_eq!(c.pc, 0x208);
}

#[test]
fn font_addr_uses_low_nibble() {
    let mut c = boot(&[0x60, 0xAB, 0xF0, 0x29]);
    run(&mut c, 2, None);
    assert_eq!(c.i, 0x50 + 0xB * 5);
}

#[test]
fn delay_timer_counts_down() {
    // V0=10, DT=V0, then read DT back: the read happens after one more
    // 60 Hz step, so it sees 9.
    let mut c = boot(&[0x60, 0x0A, 0xF0, 0x15, 0xF0, 0x07]);
    run(&mut c, 3, None);
    assert_eq!(c.get_register(0), 9);
    assert_eq!(c.dt, 9);
}

#[test]
fn sound_timer_counts_down() {
    let mut c = boot(&[0x60, 0x03, 0xF0, 0x18, 0x00, 0x00, 0x00, 0x00]);
    run(&mut c, 4, None);
    // Set to 3 at the end of the second tick, decremented on each of the
    // next two ticks.
    assert_eq!(c.st, 1);
}

#[test]
fn rnd_masks_its_byte() {
    let mut c = boot(&[0xC0, 0x0F]);
    run(&mut c, 1, None);
    assert!(c.get_register(0) <= 0x0F);
}

#[test]
fn wait_for_key_blocks_then_latches() {
    let mut c = boot(&[0xF0, 0x0A, 0x60, 0x07]);
    assert_eq!(c.tick(None), Ok(Step::Executed));
    assert_eq!(c.pc, 0x202);
    assert_eq!(c.tick(None), Ok(Step::WaitingForKey));
    assert_eq!(c.pc, 0x202);
    assert_eq!(c.tick(Some(0x9)), Ok(Step::Executed));
    assert_eq!(c.get_register(0), 0x9);
    assert_eq!(c.pc, 0x202);
    assert_eq!(c.tick(None), Ok(Step::Executed));
    assert_eq!(c.get_register(0), 0x07);
}

#[test]
fn unknown_opcode_is_skipped() {
    let mut c = boot(&[0x00, 0x00, 0x60, 0x2A]);
    assert_eq!(c.tick(None), Ok(Step::Unimplemented(0x0000)));
    assert_eq!(c.pc, 0x202);
    assert_eq!(c.tick(None), Ok(Step::Executed));
    assert_eq!(c.get_register(0), 0x2A);
}

#[test]
fn ret_on_empty_stack_underflows() {
    let mut c = boot(&[0x00, 0xEE]);
    assert_eq!(c.tick(None), Err(Fault::StackUnderflow));
}

#[test]
fn seventeenth_call_overflows() {
    let mut c = boot(&[0x22, 0x00]);
    for _ in 0..16 {
        assert_eq!(c.tick(None), Ok(Step::Executed));
    }
    assert_eq!(c.tick(None), Err(Fault::StackOverflow));
    assert_eq!(c.s.len(), 16);
}

#[test]
fn bcd_past_end_of_memory_faults() {
    let mut c = boot(&[0xAF, 0xFF, 0xF0, 0x33]);
    assert_eq!(c.tick(None), Ok(Step::Executed));
    assert_eq!(c.tick(None), Err(Fault::MemOutOfBounds));
}

#[test]
fn store_past_end_of_memory_faults() {
    let mut c = boot(&[0xAF, 0xFF, 0xF1, 0x55]);
    assert_eq!(c.tick(None), Ok(Step::Executed));
    assert_eq!(c.tick(None), Err(Fault::MemOutOfBounds));
}

#[test]
fn draw_reading_past_end_of_memory_faults() {
    let mut c = boot(&[0xAF, 0xFF, 0xD0, 0x12]);
    assert_eq!(c.tick(None), Ok(Step::Executed));
    assert_eq!(c.tick(None), Err(Fault::MemOutOfBounds));
}

#[test]
fn skip_equal_bytes() {
    let mut c = boot(&[0x60, 0x07, 0x30, 0x07, 0x60, 0x01, 0x61, 0x02]);
    run(&mut c, 3, None);
    assert_eq!(c.get_register(0), 0x07);
    assert_eq!(c.get_register(1), 0x02);
}

#[test]
fn skip_not_equal_registers() {
    let mut c = boot(&[0x60, 0x07, 0x61, 0x08, 0x90, 0x10, 0x60, 0x01, 0x61, 0x02]);
    run(&mut c, 4, None);
    assert_eq!(c.get_register(0), 0x07);
    assert_eq!(c.get_register(1), 0x02);
}

#[test]
fn or_and_xor() {
    let mut c = boot(&[
        0x60, 0x0C, 0x61, 0x0A, 0x80, 0x11, // V0 = 0x0C | 0x0A = 0x0E
        0x62, 0x0C, 0x63, 0x0A, 0x82, 0x32, // V2 = 0x0C & 0x0A = 0x08
        0x64, 0x0C, 0x65, 0x0A, 0x84, 0x53, // V4 = 0x0C ^ 0x0A = 0x06
    ]);
    run(&mut c, 9, None);
    assert_eq!(c.get_register(0), 0x0E);
    assert_eq!(c.get_register(2), 0x08);
    assert_eq!(c.get_register(4), 0x06);
}
