//! Component-level checks: memory, framebuffer, stack, keypad priority.

use chip8::cpu::new_cpu;
use chip8::display::{first_held_key, new_display};
use chip8::memory::new_memory;
use chip8::state::Fault;

#[test]
fn fresh_machine_shape() {
    let c = new_cpu();
    assert_eq!(c.pc, 0x200);
    assert_eq!(c.i, 0);
    assert_eq!(c.s.len(), 0);
    assert_eq!(c.dt, 0);
    assert_eq!(c.st, 0);
    for k in 0..16 {
        assert_eq!(c.get_register(k), 0);
    }
    assert_eq!(c.mem.data.len(), 4096);
    assert_eq!(c.dis.data.len(), 2048);
}

#[test]
fn font_preloaded_at_0x50() {
    let m = new_memory();
    // First glyph ('0') and the last byte of the last glyph ('F').
    assert_eq!(m.data[0x50], 0xF0);
    assert_eq!(m.data[0x51], 0x90);
    assert_eq!(m.data[0x9F], 0x80);
    // Outside the font area everything is zero.
    assert_eq!(m.data[0x4F], 0);
    assert_eq!(m.data[0xA0], 0);
}

#[test]
fn memory_fetch_is_big_endian() {
    let mut m = new_memory();
    m.set(0x200, 0x12);
    m.set(0x201, 0x34);
    assert_eq!(m.fetch(0x200), 0x1234);
    assert_eq!(m.get(0x200), 0x12);
}

#[test]
fn write_data_places_bytes() {
    let mut m = new_memory();
    m.write_data(&[7, 8, 9], 0x300);
    assert_eq!(m.get(0x2FF), 0);
    assert_eq!(m.get(0x300), 7);
    assert_eq!(m.get(0x301), 8);
    assert_eq!(m.get(0x302), 9);
    assert_eq!(m.get(0x303), 0);
}

#[test]
fn xor_pix_toggles_and_reports() {
    let mut d = new_display();
    assert_eq!(d.xor_pix(10, 5, true), 0);
    assert!(d.data[10 + 64 * 5]);
    assert_eq!(d.xor_pix(10, 5, true), 1);
    assert!(!d.data[10 + 64 * 5]);
    // A zero bit never collides and never lights.
    assert_eq!(d.xor_pix(10, 5, false), 0);
    assert!(!d.data[10 + 64 * 5]);
}

#[test]
fn xor_pix_clips_off_screen() {
    let mut d = new_display();
    assert_eq!(d.xor_pix(64, 0, true), 0);
    assert_eq!(d.xor_pix(0, 32, true), 0);
    let mut lit = 0;
    for p in d.data.iter() {
        if *p {
            lit += 1;
        }
    }
    assert_eq!(lit, 0);
}

#[test]
fn display_clear_turns_everything_off() {
    let mut d = new_display();
    d.xor_pix(3, 3, true);
    d.xor_pix(40, 20, true);
    d.clear();
    for p in d.data.iter() {
        assert!(!*p);
    }
}

#[test]
fn stack_push_pop() {
    let mut c = new_cpu();
    assert_eq!(c.push(0x123), Ok(()));
    assert_eq!(c.push(0x456), Ok(()));
    assert_eq!(c.pop(), Ok(0x456));
    assert_eq!(c.pop(), Ok(0x123));
    assert_eq!(c.pop(), Err(Fault::StackUnderflow));
}

#[test]
fn stack_overflow_at_seventeen() {
    let mut c = new_cpu();
    for k in 0..16 {
        assert_eq!(c.push(k as u16), Ok(()));
    }
    assert_eq!(c.push(0x999), Err(Fault::StackOverflow));
    assert_eq!(c.s.len(), 16);
}

#[test]
fn registers_read_back() {
    let mut c = new_cpu();
    c.set_register(3, 0xAB);
    assert_eq!(c.get_register(3), 0xAB);
    assert_eq!(c.get_register(4), 0);
}

#[test]
fn rom_too_large_rejected() {
    let mut c = new_cpu();
    let rom = vec![0u8; 3585];
    assert_eq!(c.laod_rom(&rom), Err(Fault::RomTooLarge));
    assert_eq!(c.mem.data[0x200], 0);
    let rom = vec![1u8; 3584];
    assert_eq!(c.laod_rom(&rom), Ok(()));
    assert_eq!(c.mem.data[0x200], 1);
    assert_eq!(c.mem.data[0xFFF], 1);
}

#[test]
fn keypad_priority_is_table_order() {
    let mut held = [false; 16];
    assert_eq!(first_held_key(&held), None);
    // Host key '4' stands for hex C; host 'R' stands for hex D.  When both
    // are down, '4' wins: it comes first in the table.
    held[3] = true;
    held[7] = true;
    assert_eq!(first_held_key(&held), Some(0xC));
    held[3] = false;
    assert_eq!(first_held_key(&held), Some(0xD));
}

#[test]
fn keypad_maps_every_position() {
    let table = [
        0x1u8, 0x2, 0x3, 0xC, 0x4, 0x5, 0x6, 0xD, 0x7, 0x8, 0x9, 0xE, 0xA, 0x0, 0xB, 0xF,
    ];
    for j in 0..16 {
        let mut held = [false; 16];
        held[j] = true;
        assert_eq!(first_held_key(&held), Some(table[j]));
    }
}
