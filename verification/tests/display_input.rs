//! The framebuffer, the draw operation with its collision flag and both
//! edge policies, the framebuffer export, the keypad, and the key
//! operations.

use chip8::cpu::{Cpu, Quirks};
use chip8::decode::Operation;

const ON: u32 = 0xFFFF_FFFF;

/// A machine whose program starts with one all-ones sprite row.
fn with_sprite() -> Cpu {
    let rom: Vec<u8> = vec![0xFF];
    Cpu::new(&rom)
}

#[test]
fn drawing_twice_toggles_cells_off_and_reports_collision() {
    let mut cpu = with_sprite();
    cpu.execute(Operation::Ld6xkk(0x6005)).unwrap();
    cpu.execute(Operation::Ld6xkk(0x610A)).unwrap();
    cpu.execute(Operation::LdAnnn(0xA200)).unwrap();

    cpu.execute(Operation::DrwDxyn(0xD011)).unwrap();
    for c in 0..8 {
        assert_eq!(cpu.video_cell(10 * 64 + 5 + c), ON);
    }
    assert_eq!(cpu.reg(0xF), 0);

    cpu.execute(Operation::DrwDxyn(0xD011)).unwrap();
    for c in 0..8 {
        assert_eq!(cpu.video_cell(10 * 64 + 5 + c), 0);
    }
    assert_eq!(cpu.reg(0xF), 1);
}

#[test]
fn draw_wraps_around_the_right_edge_by_default() {
    let mut cpu = with_sprite();
    cpu.execute(Operation::Ld6xkk(0x603C)).unwrap();
    cpu.execute(Operation::Ld6xkk(0x611F)).unwrap();
    cpu.execute(Operation::LdAnnn(0xA200)).unwrap();
    cpu.execute(Operation::DrwDxyn(0xD011)).unwrap();
    // x = 60, y = 31: the row covers 60..63 and wraps to 0..3
    for c in 60..64 {
        assert_eq!(cpu.video_cell(31 * 64 + c), ON);
    }
    for c in 0..4 {
        assert_eq!(cpu.video_cell(31 * 64 + c), ON);
    }
    assert_eq!(cpu.reg(0xF), 0);
}

#[test]
fn draw_clamps_to_last_cell_under_compatibility_switch() {
    let quirks = Quirks {
        shift_flag_low_bit: false,
        store_load_inclusive: false,
        draw_clamp: true,
    };
    let rom: Vec<u8> = vec![0xFF];
    let mut cpu = Cpu::with_quirks(&rom, quirks);
    cpu.execute(Operation::Ld6xkk(0x603C)).unwrap();
    cpu.execute(Operation::Ld6xkk(0x611F)).unwrap();
    cpu.execute(Operation::LdAnnn(0xA200)).unwrap();
    cpu.execute(Operation::DrwDxyn(0xD011)).unwrap();
    // cells 2044..2046 toggle once; every off-screen bit lands on 2047,
    // which toggles on, off, on, off and on again, colliding on the way
    for c in 60..63 {
        assert_eq!(cpu.video_cell(31 * 64 + c), ON);
    }
    assert_eq!(cpu.video_cell(2047), ON);
    // nothing wrapped to the left edge
    for c in 0..4 {
        assert_eq!(cpu.video_cell(31 * 64 + c), 0);
    }
    assert_eq!(cpu.reg(0xF), 1);
}

#[test]
fn draw_reads_multi_row_sprites() {
    // two rows: 0b10000000 and 0b00000001
    let rom: Vec<u8> = vec![0x80, 0x01];
    let mut cpu = Cpu::new(&rom);
    cpu.execute(Operation::Ld6xkk(0x6000)).unwrap();
    cpu.execute(Operation::Ld6xkk(0x6100)).unwrap();
    cpu.execute(Operation::LdAnnn(0xA200)).unwrap();
    cpu.execute(Operation::DrwDxyn(0xD012)).unwrap();
    assert_eq!(cpu.video_cell(0), ON);
    assert_eq!(cpu.video_cell(7), 0);
    assert_eq!(cpu.video_cell(64 + 7), ON);
    assert_eq!(cpu.video_cell(64), 0);
}

#[test]
fn clear_turns_every_cell_off() {
    let mut cpu = with_sprite();
    cpu.execute(Operation::LdAnnn(0xA200)).unwrap();
    cpu.execute(Operation::DrwDxyn(0xD011)).unwrap();
    assert_eq!(cpu.video_cell(0), ON);
    cpu.execute(Operation::Cls00E0(0x00E0)).unwrap();
    for i in [0usize, 1, 7, 64, 2047] {
        assert_eq!(cpu.video_cell(i), 0);
    }
}

#[test]
fn video_exports_four_bytes_per_cell() {
    let mut cpu = with_sprite();
    cpu.execute(Operation::LdAnnn(0xA200)).unwrap();
    cpu.execute(Operation::DrwDxyn(0xD011)).unwrap();
    let bytes = cpu.video();
    assert_eq!(bytes.len(), 4 * 2048);
    // the first eight cells are on, the ninth off
    for c in 0..8 {
        assert_eq!(&bytes[4 * c..4 * c + 4], &[0xFF, 0xFF, 0xFF, 0xFF]);
    }
    assert_eq!(&bytes[4 * 8..4 * 8 + 4], &[0x00, 0x00, 0x00, 0x00]);
}

#[test]
fn keypad_reflects_host_keys() {
    let mut cpu = Cpu::new(&[]);
    assert_eq!(cpu.keypad(), &[0u8; 16]);
    cpu.set_key(3, true);
    cpu.set_key(0xF, true);
    assert_eq!(cpu.keypad()[3], 1);
    assert_eq!(cpu.keypad()[0xF], 1);
    cpu.set_key(3, false);
    assert_eq!(cpu.keypad()[3], 0);
    assert_eq!(cpu.keypad()[0xF], 1);
}

#[test]
fn skip_if_pressed_reads_key_from_register() {
    let mut cpu = Cpu::new(&[]);
    cpu.execute(Operation::Ld6xkk(0x6005)).unwrap();
    cpu.execute(Operation::SkpEx9e(0xE09E)).unwrap();
    assert_eq!(cpu.pc(), 0x200);
    cpu.set_key(5, true);
    cpu.execute(Operation::SkpEx9e(0xE09E)).unwrap();
    assert_eq!(cpu.pc(), 0x202);
}

#[test]
fn skip_if_not_pressed_is_the_complement() {
    let mut cpu = Cpu::new(&[]);
    cpu.execute(Operation::Ld6xkk(0x6005)).unwrap();
    cpu.execute(Operation::SknpExA1(0xE0A1)).unwrap();
    assert_eq!(cpu.pc(), 0x202);
    cpu.set_key(5, true);
    cpu.execute(Operation::SknpExA1(0xE0A1)).unwrap();
    assert_eq!(cpu.pc(), 0x202);
}

#[test]
fn wait_for_key_stalls_until_a_key_is_pressed() {
    let rom: Vec<u8> = vec![0xF0, 0x0A];
    let mut cpu = Cpu::new(&rom);
    cpu.cycle().unwrap();
    // no key: the counter is rewound so the same word is fetched again
    assert_eq!(cpu.pc(), 0x200);
    cpu.cycle().unwrap();
    assert_eq!(cpu.pc(), 0x200);
    cpu.set_key(9, true);
    cpu.cycle().unwrap();
    assert_eq!(cpu.pc(), 0x202);
    assert_eq!(cpu.reg(0), 9);
}

#[test]
fn wait_for_key_prefers_the_lowest_index() {
    let rom: Vec<u8> = vec![0xF0, 0x0A];
    let mut cpu = Cpu::new(&rom);
    cpu.set_key(0xC, true);
    cpu.set_key(4, true);
    cpu.set_key(9, true);
    cpu.cycle().unwrap();
    assert_eq!(cpu.reg(0), 4);
}
