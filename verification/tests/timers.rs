//! The timer unit: one decrement per step, clamped at zero, and the timer
//! transfer operations.

use chip8::cpu::Cpu;
use chip8::decode::Operation;

#[test]
fn delay_timer_counts_down_to_zero_and_stays() {
    // a program of unrecognised words: every step is a pure timer tick
    let mut cpu = Cpu::new(&[]);
    cpu.execute(Operation::Ld6xkk(0x6005)).unwrap();
    cpu.execute(Operation::LdFx15(0xF015)).unwrap();
    assert_eq!(cpu.delay_timer(), 5);
    for expected in [4u8, 3, 2, 1, 0] {
        cpu.cycle().unwrap();
        assert_eq!(cpu.delay_timer(), expected);
    }
    // one more step: no underflow
    cpu.cycle().unwrap();
    assert_eq!(cpu.delay_timer(), 0);
}

#[test]
fn sound_timer_counts_down_independently() {
    let mut cpu = Cpu::new(&[]);
    cpu.execute(Operation::Ld6xkk(0x6002)).unwrap();
    cpu.execute(Operation::LdFx18(0xF018)).unwrap();
    assert_eq!(cpu.sound_timer(), 2);
    assert_eq!(cpu.delay_timer(), 0);
    cpu.cycle().unwrap();
    assert_eq!(cpu.sound_timer(), 1);
    cpu.cycle().unwrap();
    cpu.cycle().unwrap();
    assert_eq!(cpu.sound_timer(), 0);
    assert_eq!(cpu.delay_timer(), 0);
}

#[test]
fn read_delay_timer_into_register() {
    let mut cpu = Cpu::new(&[]);
    cpu.execute(Operation::Ld6xkk(0x6103)).unwrap();
    cpu.execute(Operation::LdFx15(0xF115)).unwrap();
    cpu.execute(Operation::LdFx07(0xF007)).unwrap();
    assert_eq!(cpu.reg(0), 3);
}
