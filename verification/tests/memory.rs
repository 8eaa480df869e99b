//! Memory layout and the memory-group operations: construction, the glyph
//! table, decimal digits, register dump and load, and the index register.

use chip8::cpu::{Cpu, Quirks};
use chip8::decode::Operation;

#[test]
fn new_loads_program_at_0x200() {
    let rom: Vec<u8> = vec![0xAB, 0xCD, 0x01];
    let cpu = Cpu::new(&rom);
    assert_eq!(cpu.mem_byte(0x200), 0xAB);
    assert_eq!(cpu.mem_byte(0x201), 0xCD);
    assert_eq!(cpu.mem_byte(0x202), 0x01);
    assert_eq!(cpu.mem_byte(0x203), 0x00);
    assert_eq!(cpu.mem_byte(0x1FF), 0x00);
    assert_eq!(cpu.pc(), 0x200);
    assert_eq!(cpu.index_register(), 0);
    assert_eq!(cpu.delay_timer(), 0);
    assert_eq!(cpu.sound_timer(), 0);
}

#[test]
fn new_loads_glyph_table_at_0x50() {
    let cpu = Cpu::new(&[]);
    // digit 0: 0xF0 0x90 0x90 0x90 0xF0
    assert_eq!(cpu.mem_byte(0x50), 0xF0);
    assert_eq!(cpu.mem_byte(0x51), 0x90);
    assert_eq!(cpu.mem_byte(0x54), 0xF0);
    // digit 1 starts at 0x55
    assert_eq!(cpu.mem_byte(0x55), 0x20);
    // digit F: 0xF0 0x80 0xF0 0x80 0x80, ending at 0x9F
    assert_eq!(cpu.mem_byte(0x9B), 0xF0);
    assert_eq!(cpu.mem_byte(0x9F), 0x80);
    // the byte after the table is untouched
    assert_eq!(cpu.mem_byte(0xA0), 0x00);
}

#[test]
fn new_accepts_a_program_that_fills_memory() {
    // the largest program: it ends at the last memory byte
    let rom: Vec<u8> = vec![0x77; 4096 - 0x200];
    let cpu = Cpu::new(&rom);
    assert_eq!(cpu.mem_byte(0x200), 0x77);
    assert_eq!(cpu.mem_byte(0xFFF), 0x77);
    // the glyph table is still in place below it
    assert_eq!(cpu.mem_byte(0x50), 0xF0);
}

#[test]
fn glyph_address_uses_low_nibble_times_five() {
    let mut cpu = Cpu::new(&[]);
    cpu.execute(Operation::Ld6xkk(0x60AB)).unwrap();
    cpu.execute(Operation::LdFx29(0xF029)).unwrap();
    // digit 0xB: base 0x50 + 5 * 11
    assert_eq!(cpu.index_register(), 0x50 + 55);
    // the first glyph row of digit B
    assert_eq!(cpu.mem_byte(cpu.index_register() as usize), 0xE0);
}

#[test]
fn bcd_of_255_writes_2_5_5() {
    let mut cpu = Cpu::new(&[]);
    cpu.execute(Operation::Ld6xkk(0x60FF)).unwrap();
    cpu.execute(Operation::LdAnnn(0xA300)).unwrap();
    cpu.execute(Operation::LdFx33(0xF033)).unwrap();
    assert_eq!(cpu.mem_byte(0x300), 2);
    assert_eq!(cpu.mem_byte(0x301), 5);
    assert_eq!(cpu.mem_byte(0x302), 5);
}

#[test]
fn bcd_of_single_digit_pads_with_zeros() {
    let mut cpu = Cpu::new(&[]);
    cpu.execute(Operation::Ld6xkk(0x6007)).unwrap();
    cpu.execute(Operation::LdAnnn(0xA300)).unwrap();
    cpu.execute(Operation::LdFx33(0xF033)).unwrap();
    assert_eq!(cpu.mem_byte(0x300), 0);
    assert_eq!(cpu.mem_byte(0x301), 0);
    assert_eq!(cpu.mem_byte(0x302), 7);
}

#[test]
fn store_excludes_top_register_by_default() {
    let mut cpu = Cpu::new(&[]);
    cpu.execute(Operation::Ld6xkk(0x6011)).unwrap();
    cpu.execute(Operation::Ld6xkk(0x6122)).unwrap();
    cpu.execute(Operation::Ld6xkk(0x6233)).unwrap();
    cpu.execute(Operation::LdAnnn(0xA300)).unwrap();
    cpu.execute(Operation::LdFx55(0xF255)).unwrap();
    // x = 2: registers 0 and 1 are dumped, register 2 is not
    assert_eq!(cpu.mem_byte(0x300), 0x11);
    assert_eq!(cpu.mem_byte(0x301), 0x22);
    assert_eq!(cpu.mem_byte(0x302), 0x00);
}

#[test]
fn store_includes_top_register_under_inclusive_switch() {
    let quirks = Quirks {
        shift_flag_low_bit: false,
        store_load_inclusive: true,
        draw_clamp: false,
    };
    let mut cpu = Cpu::with_quirks(&[], quirks);
    cpu.execute(Operation::Ld6xkk(0x6011)).unwrap();
    cpu.execute(Operation::Ld6xkk(0x6122)).unwrap();
    cpu.execute(Operation::Ld6xkk(0x6233)).unwrap();
    cpu.execute(Operation::LdAnnn(0xA300)).unwrap();
    cpu.execute(Operation::LdFx55(0xF255)).unwrap();
    assert_eq!(cpu.mem_byte(0x300), 0x11);
    assert_eq!(cpu.mem_byte(0x301), 0x22);
    assert_eq!(cpu.mem_byte(0x302), 0x33);
}

#[test]
fn store_then_load_round_trips_registers() {
    let mut cpu = Cpu::new(&[]);
    cpu.execute(Operation::Ld6xkk(0x6001)).unwrap();
    cpu.execute(Operation::Ld6xkk(0x6102)).unwrap();
    cpu.execute(Operation::Ld6xkk(0x6203)).unwrap();
    cpu.execute(Operation::LdAnnn(0xA300)).unwrap();
    cpu.execute(Operation::LdFx55(0xF355)).unwrap();
    // clobber the registers the dump covered
    cpu.execute(Operation::Ld6xkk(0x60EE)).unwrap();
    cpu.execute(Operation::Ld6xkk(0x61EE)).unwrap();
    cpu.execute(Operation::Ld6xkk(0x62EE)).unwrap();
    cpu.execute(Operation::LdFx65(0xF365)).unwrap();
    assert_eq!(cpu.reg(0), 0x01);
    assert_eq!(cpu.reg(1), 0x02);
    assert_eq!(cpu.reg(2), 0x03);
    // the index register is left alone
    assert_eq!(cpu.index_register(), 0x300);
}

#[test]
fn add_to_index_accumulates() {
    let mut cpu = Cpu::new(&[]);
    cpu.execute(Operation::LdAnnn(0xA300)).unwrap();
    cpu.execute(Operation::Ld6xkk(0x6010)).unwrap();
    cpu.execute(Operation::AddFx1e(0xF01E)).unwrap();
    assert_eq!(cpu.index_register(), 0x310);
    cpu.execute(Operation::AddFx1e(0xF01E)).unwrap();
    assert_eq!(cpu.index_register(), 0x320);
}

#[test]
fn index_relative_access_wraps_at_memory_end() {
    let mut cpu = Cpu::new(&[]);
    cpu.execute(Operation::Ld6xkk(0x60FF)).unwrap();
    cpu.execute(Operation::LdAnnn(0xAFFF)).unwrap();
    cpu.execute(Operation::LdFx33(0xF033)).unwrap();
    // digits of 255 land at 0xFFF, 0x000, 0x001
    assert_eq!(cpu.mem_byte(0xFFF), 2);
    assert_eq!(cpu.mem_byte(0x000), 5);
    assert_eq!(cpu.mem_byte(0x001), 5);
}
