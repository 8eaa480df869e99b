//! Control flow: jumps, calls and returns, conditional skips, stack faults,
//! and the no-op fallback for unrecognised words.

use chip8::cpu::{Cpu, Fault};
use chip8::decode::Operation;

fn fresh() -> Cpu {
    Cpu::new(&[])
}

#[test]
fn jump_sets_program_counter() {
    let mut cpu = fresh();
    cpu.execute(Operation::Jp1nnn(0x1234)).unwrap();
    assert_eq!(cpu.pc(), 0x234);
}

#[test]
fn indexed_jump_adds_register_zero() {
    let mut cpu = fresh();
    cpu.execute(Operation::Ld6xkk(0x6010)).unwrap();
    cpu.execute(Operation::JpBnnn(0xB300)).unwrap();
    assert_eq!(cpu.pc(), 0x310);
}

#[test]
fn call_pushes_and_return_pops() {
    let mut cpu = fresh();
    cpu.execute(Operation::Call2nnn(0x2400)).unwrap();
    assert_eq!(cpu.pc(), 0x400);
    assert_eq!(cpu.stack_depth(), 1);
    cpu.execute(Operation::Ret00EE(0x00EE)).unwrap();
    assert_eq!(cpu.pc(), 0x200);
    assert_eq!(cpu.stack_depth(), 0);
}

#[test]
fn return_on_empty_stack_faults_without_change() {
    let mut cpu = fresh();
    let r = cpu.execute(Operation::Ret00EE(0x00EE));
    assert_eq!(r, Err(Fault::StackUnderflow));
    assert_eq!(cpu.pc(), 0x200);
    assert_eq!(cpu.stack_depth(), 0);
}

#[test]
fn seventeenth_nested_call_faults() {
    let mut cpu = fresh();
    for _ in 0..16 {
        cpu.execute(Operation::Call2nnn(0x2400)).unwrap();
    }
    assert_eq!(cpu.stack_depth(), 16);
    let r = cpu.execute(Operation::Call2nnn(0x2400));
    assert_eq!(r, Err(Fault::StackOverflow));
    assert_eq!(cpu.stack_depth(), 16);
    assert_eq!(cpu.pc(), 0x400);
}

#[test]
fn cycle_reports_stack_fault_and_leaves_machine_untouched() {
    // the fetched word is a return with nothing on the stack
    let rom: Vec<u8> = vec![0x00, 0xEE];
    let mut cpu = Cpu::new(&rom);
    let r = cpu.cycle();
    assert_eq!(r, Err(Fault::StackUnderflow));
    assert_eq!(cpu.pc(), 0x200);
    assert_eq!(cpu.delay_timer(), 0);
}

#[test]
fn skip_equal_immediate() {
    let mut cpu = fresh();
    cpu.execute(Operation::Ld6xkk(0x60AB)).unwrap();
    cpu.execute(Operation::Se3xkk(0x30AB)).unwrap();
    assert_eq!(cpu.pc(), 0x202);
    cpu.execute(Operation::Se3xkk(0x30AC)).unwrap();
    assert_eq!(cpu.pc(), 0x202);
}

#[test]
fn skip_not_equal_immediate() {
    let mut cpu = fresh();
    cpu.execute(Operation::Ld6xkk(0x60AB)).unwrap();
    cpu.execute(Operation::Sne4xkk(0x40AB)).unwrap();
    assert_eq!(cpu.pc(), 0x200);
    cpu.execute(Operation::Sne4xkk(0x40AC)).unwrap();
    assert_eq!(cpu.pc(), 0x202);
}

#[test]
fn skip_on_register_comparison() {
    let mut cpu = fresh();
    cpu.execute(Operation::Ld6xkk(0x6007)).unwrap();
    cpu.execute(Operation::Ld6xkk(0x6107)).unwrap();
    cpu.execute(Operation::Se5xy0(0x5010)).unwrap();
    assert_eq!(cpu.pc(), 0x202);
    cpu.execute(Operation::Sne9xy0(0x9010)).unwrap();
    assert_eq!(cpu.pc(), 0x202);
    cpu.execute(Operation::Ld6xkk(0x6108)).unwrap();
    cpu.execute(Operation::Sne9xy0(0x9010)).unwrap();
    assert_eq!(cpu.pc(), 0x204);
}

#[test]
fn unrecognised_word_is_a_no_op() {
    // 0x0123 matches no pattern: the cycle only advances and ticks
    let rom: Vec<u8> = vec![0x01, 0x23];
    let mut cpu = Cpu::new(&rom);
    cpu.cycle().unwrap();
    assert_eq!(cpu.pc(), 0x202);
    assert_eq!(cpu.reg(0), 0);
    assert_eq!(cpu.stack_depth(), 0);
}

#[test]
fn cycle_fetches_big_endian_and_executes() {
    // 0x1234: jump to 0x234
    let rom: Vec<u8> = vec![0x12, 0x34];
    let mut cpu = Cpu::new(&rom);
    cpu.cycle().unwrap();
    assert_eq!(cpu.pc(), 0x234);
}

#[test]
fn step_with_random_pins_the_random_byte() {
    let mut cpu = fresh();
    cpu.step_with_random(0xAB).unwrap();
    // the fetched word 0x0000 is a no-op; only the counter moved
    assert_eq!(cpu.pc(), 0x202);
    let rom: Vec<u8> = vec![0xC0, 0x0F];
    let mut cpu = Cpu::new(&rom);
    cpu.step_with_random(0xAB).unwrap();
    assert_eq!(cpu.reg(0), 0xAB & 0x0F);
}
