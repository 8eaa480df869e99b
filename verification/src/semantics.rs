//! The meaning of every operation, as a pure function on the machine model.
//!
//! `spec_execute` maps a machine state (with the program counter already
//! advanced past the fetched word) and a decoded operation to the next state;
//! `spec_step` strings fetch, decode, execute and the timer tick together
//! into the meaning of one whole step. Stack misuse is not part of these
//! functions: `spec_op_fault` names the operations that must be refused, and
//! the step operation reports them without touching the state.
//!
//! A register value read as a key index or as a glyph digit is taken by its
//! low nibble, so both always land in the sixteen keys or glyphs.

use vstd::prelude::*;
use crate::cpu::{CpuView, Fault, cell_on, spec_safe_subtract, FONTSET_START_ADDRESS};
use crate::decode::{Operation, spec_decode, op_x, op_y, op_n, op_kk, op_nnn};

verus! {

/// The program counter moved forward by `delta`, wrapped to 12 bits.
pub open spec fn pc_plus(pc: u16, delta: u16) -> u16 {
    ((pc + delta) % 4096) as u16
}

/// The program counter moved back one instruction, wrapped to 12 bits.
pub open spec fn pc_back_one(pc: u16) -> u16 {
    ((pc + 4094) % 4096) as u16
}

/// The state after a conditional skip: one extra instruction width when the
/// condition holds.
pub open spec fn spec_skip_if(s: CpuView, cond: bool) -> CpuView {
    if cond {
        CpuView { pc: pc_plus(s.pc, 2), ..s }
    } else {
        s
    }
}

/// The lowest pressed key at or above index `i`, if any.
pub open spec fn spec_first_key_from(keys: Seq<u8>, i: int) -> Option<int>
    decreases 16 - i,
{
    if i < 0 || i >= 16 {
        None
    } else if keys[i] == 1 {
        Some(i)
    } else {
        spec_first_key_from(keys, i + 1)
    }
}

/// The lowest pressed key, if any: the tie-break of the wait-for-key
/// operation.
pub open spec fn spec_first_key(keys: Seq<u8>) -> Option<int> {
    spec_first_key_from(keys, 0)
}

/// Memory after the registers below `cnt` are dumped to consecutive
/// addresses from `index` on, each address taken modulo 4096.
pub open spec fn spec_store_regs(mem: Seq<u8>, regs: Seq<u8>, index: u16, cnt: int) -> Seq<u8>
    decreases cnt,
{
    if cnt <= 0 {
        mem
    } else {
        spec_store_regs(mem, regs, index, cnt - 1).update((index + cnt - 1) % 4096, regs[cnt - 1])
    }
}

/// Registers after those below `cnt` are reloaded from consecutive addresses
/// from `index` on, each address taken modulo 4096.
pub open spec fn spec_load_regs(regs: Seq<u8>, mem: Seq<u8>, index: u16, cnt: int) -> Seq<u8>
    decreases cnt,
{
    if cnt <= 0 {
        regs
    } else {
        spec_load_regs(regs, mem, index, cnt - 1).update(cnt - 1, mem[(index + cnt - 1) % 4096])
    }
}

/// Whether bit `col` (from the left) of a sprite row byte is set.
pub open spec fn sprite_row_bit(b: u8, col: int) -> bool {
    b & (0x80u8 >> (col as u8)) != 0
}

/// The framebuffer cell a sprite bit lands on. Wrapping folds each axis
/// modulo the screen size; clamping (the compatibility switch) pins every
/// off-screen bit to the last cell.
pub open spec fn draw_cell_index(xp: int, yp: int, row: int, col: int, clamp: bool) -> int {
    if clamp {
        let raw = (yp + row) * 64 + (xp + col);
        if raw <= 2047 {
            raw
        } else {
            2047
        }
    } else {
        ((yp + row) % 32) * 64 + ((xp + col) % 64)
    }
}

/// Framebuffer and collision flag after the leftmost `cols` bits of one
/// sprite row are drawn. Each set bit toggles its cell; the flag becomes 1
/// if a toggled cell was lit.
pub open spec fn spec_draw_cols(
    video: Seq<u32>,
    vf: u8,
    byte: u8,
    xp: int,
    yp: int,
    row: int,
    clamp: bool,
    cols: int,
) -> (Seq<u32>, u8)
    decreases cols,
{
    if cols <= 0 {
        (video, vf)
    } else {
        let r = spec_draw_cols(video, vf, byte, xp, yp, row, clamp, cols - 1);
        let c = cols - 1;
        if sprite_row_bit(byte, c) {
            let idx = draw_cell_index(xp, yp, row, c, clamp);
            let f2 = if r.0[idx] == cell_on() {
                1u8
            } else {
                r.1
            };
            (r.0.update(idx, r.0[idx] ^ cell_on()), f2)
        } else {
            r
        }
    }
}

/// Framebuffer and collision flag after the first `rows` sprite rows are
/// drawn, the bytes read from `index` on, each address taken modulo 4096.
pub open spec fn spec_draw_rows(
    video: Seq<u32>,
    vf: u8,
    mem: Seq<u8>,
    index: u16,
    xp: int,
    yp: int,
    clamp: bool,
    rows: int,
) -> (Seq<u32>, u8)
    decreases rows,
{
    if rows <= 0 {
        (video, vf)
    } else {
        let r = spec_draw_rows(video, vf, mem, index, xp, yp, clamp, rows - 1);
        let byte = mem[(index + rows - 1) % 4096];
        spec_draw_cols(r.0, r.1, byte, xp, yp, rows - 1, clamp, 8)
    }
}

/// The state after the draw operation: start coordinates are the two source
/// registers modulo the screen size, the flag register is cleared and then
/// reports whether any lit cell was toggled off.
pub open spec fn spec_draw(s: CpuView, w: u16) -> CpuView {
    let xp = (s.regs[op_x(w) as int] % 64) as int;
    let yp = (s.regs[op_y(w) as int] % 32) as int;
    let r = spec_draw_rows(s.video, 0u8, s.mem, s.index, xp, yp, s.quirks.draw_clamp, op_n(w) as int);
    CpuView { video: r.0, regs: s.regs.update(15, r.1), ..s }
}

/// The three decimal digits of the source register, most significant first,
/// written to `index`, `index + 1`, `index + 2`, each taken modulo 4096.
pub open spec fn spec_bcd(s: CpuView, w: u16) -> Seq<u8> {
    let v = s.regs[op_x(w) as int];
    s.mem.update((s.index + 2) % 4096, v % 10).update((s.index + 1) % 4096, (v / 10) % 10).update(
        (s.index as int) % 4096,
        (v / 10 / 10) % 10,
    )
}

/// How many registers the dump and load operations touch: registers below
/// `x`, or through `x` under the inclusive switch.
pub open spec fn store_load_count(s: CpuView, w: u16) -> int {
    if s.quirks.store_load_inclusive {
        op_x(w) + 1
    } else {
        op_x(w) as int
    }
}

/// Toggling a cell turns off into on and on into off.
pub proof fn lemma_cell_toggle()
    by (bit_vector)
    ensures
        0u32 ^ 0xFFFF_FFFFu32 == 0xFFFF_FFFFu32,
        0xFFFF_FFFFu32 ^ 0xFFFF_FFFFu32 == 0u32,
{
}

/// The operations that cannot proceed in the given state: a call with a full
/// stack, a return with an empty one. Everything else always proceeds.
pub open spec fn spec_op_fault(s: CpuView, op: Operation) -> Option<Fault> {
    match op {
        Operation::Ret00EE(_) => if s.sp == 0 {
            Some(Fault::StackUnderflow)
        } else {
            None
        },
        Operation::Call2nnn(_) => if s.sp >= 16 {
            Some(Fault::StackOverflow)
        } else {
            None
        },
        _ => None,
    }
}

/// The meaning of one operation, on a state whose program counter has
/// already moved past the fetched word. `rnd` is the byte drawn for the
/// random operation; every other operation ignores it.
pub open spec fn spec_execute(s: CpuView, op: Operation, rnd: u8) -> CpuView
    recommends
        s.wf(),
        spec_op_fault(s, op) is None,
{
    match op {
        Operation::Cls00E0(_) => CpuView { video: Seq::new(2048, |i: int| 0u32), ..s },
        Operation::Ret00EE(_) => CpuView {
            pc: s.stack[s.sp - 1],
            sp: (s.sp - 1) as u16,
            ..s
        },
        Operation::Jp1nnn(w) => CpuView { pc: op_nnn(w), ..s },
        Operation::Call2nnn(w) => CpuView {
            stack: s.stack.update(s.sp as int, s.pc),
            sp: (s.sp + 1) as u16,
            pc: op_nnn(w),
            ..s
        },
        Operation::Se3xkk(w) => spec_skip_if(s, s.regs[op_x(w) as int] == op_kk(w)),
        Operation::Sne4xkk(w) => spec_skip_if(s, s.regs[op_x(w) as int] != op_kk(w)),
        Operation::Se5xy0(w) => spec_skip_if(
            s,
            s.regs[op_x(w) as int] == s.regs[op_y(w) as int],
        ),
        Operation::Ld6xkk(w) => CpuView { regs: s.regs.update(op_x(w) as int, op_kk(w)), ..s },
        Operation::Add7xkk(w) => CpuView {
            regs: s.regs.update(
                op_x(w) as int,
                ((s.regs[op_x(w) as int] + op_kk(w)) % 256) as u8,
            ),
            ..s
        },
        Operation::Ld8xy0(w) => CpuView {
            regs: s.regs.update(op_x(w) as int, s.regs[op_y(w) as int]),
            ..s
        },
        Operation::Or8xy1(w) => CpuView {
            regs: s.regs.update(op_x(w) as int, s.regs[op_x(w) as int] | s.regs[op_y(w) as int]),
            ..s
        },
        Operation::And8xy2(w) => CpuView {
            regs: s.regs.update(op_x(w) as int, s.regs[op_x(w) as int] & s.regs[op_y(w) as int]),
            ..s
        },
        Operation::Xor8xy3(w) => CpuView {
            regs: s.regs.update(op_x(w) as int, s.regs[op_x(w) as int] ^ s.regs[op_y(w) as int]),
            ..s
        },
        Operation::Add8xy4(w) => {
            let sum = s.regs[op_x(w) as int] + s.regs[op_y(w) as int];
            let flagged = s.regs.update(15, if sum > 255 { 1u8 } else { 0u8 });
            CpuView { regs: flagged.update(op_x(w) as int, (sum % 256) as u8), ..s }
        },
        Operation::Sub8xy5(w) => {
            let no_borrow = s.regs[op_x(w) as int] > s.regs[op_y(w) as int];
            let flagged = s.regs.update(15, if no_borrow { 1u8 } else { 0u8 });
            CpuView {
                regs: flagged.update(
                    op_x(w) as int,
                    spec_safe_subtract(flagged[op_x(w) as int], flagged[op_y(w) as int]),
                ),
                ..s
            }
        },
        Operation::Shr8xy6(w) => {
            let vf = if s.quirks.shift_flag_low_bit {
                s.regs[op_x(w) as int] & 1
            } else {
                s.regs[op_x(w) as int]
            };
            let flagged = s.regs.update(15, vf);
            CpuView {
                regs: flagged.update(op_x(w) as int, flagged[op_x(w) as int] >> 1u8),
                ..s
            }
        },
        Operation::Subn8xy7(w) => {
            let no_borrow = s.regs[op_y(w) as int] > s.regs[op_x(w) as int];
            let flagged = s.regs.update(15, if no_borrow { 1u8 } else { 0u8 });
            CpuView {
                regs: flagged.update(
                    op_x(w) as int,
                    spec_safe_subtract(flagged[op_y(w) as int], flagged[op_x(w) as int]),
                ),
                ..s
            }
        },
        Operation::Shl8xyE(w) => {
            let flagged = s.regs.update(15, (s.regs[op_x(w) as int] & 0x80) >> 7u8);
            CpuView {
                regs: flagged.update(op_x(w) as int, flagged[op_x(w) as int] << 1u8),
                ..s
            }
        },
        Operation::Sne9xy0(w) => spec_skip_if(
            s,
            s.regs[op_x(w) as int] != s.regs[op_y(w) as int],
        ),
        Operation::LdAnnn(w) => CpuView { index: op_nnn(w), ..s },
        Operation::JpBnnn(w) => CpuView {
            pc: ((s.regs[0] + op_nnn(w)) % 4096) as u16,
            ..s
        },
        Operation::RndCxkk(w) => CpuView {
            regs: s.regs.update(op_x(w) as int, rnd & op_kk(w)),
            ..s
        },
        Operation::DrwDxyn(w) => spec_draw(s, w),
        Operation::SkpEx9e(w) => spec_skip_if(
            s,
            s.keys[(s.regs[op_x(w) as int] & 0x0F) as int] == 1,
        ),
        Operation::SknpExA1(w) => spec_skip_if(
            s,
            s.keys[(s.regs[op_x(w) as int] & 0x0F) as int] != 1,
        ),
        Operation::LdFx07(w) => CpuView { regs: s.regs.update(op_x(w) as int, s.delay), ..s },
        Operation::LdFx0a(w) => match spec_first_key(s.keys) {
            Some(k) => CpuView { regs: s.regs.update(op_x(w) as int, k as u8), ..s },
            None => CpuView { pc: pc_back_one(s.pc), ..s },
        },
        Operation::LdFx15(w) => CpuView { delay: s.regs[op_x(w) as int], ..s },
        Operation::LdFx18(w) => CpuView { sound: s.regs[op_x(w) as int], ..s },
        Operation::AddFx1e(w) => CpuView {
            index: ((s.index + s.regs[op_x(w) as int]) % 0x10000) as u16,
            ..s
        },
        Operation::LdFx29(w) => CpuView {
            index: (FONTSET_START_ADDRESS + 5 * (s.regs[op_x(w) as int] & 0x0F)) as u16,
            ..s
        },
        Operation::LdFx33(w) => CpuView { mem: spec_bcd(s, w), ..s },
        Operation::LdFx55(w) => CpuView {
            mem: spec_store_regs(s.mem, s.regs, s.index, store_load_count(s, w)),
            ..s
        },
        Operation::LdFx65(w) => CpuView {
            regs: spec_load_regs(s.regs, s.mem, s.index, store_load_count(s, w)),
            ..s
        },
        Operation::Null(_) => s,
    }
}

/// The instruction word at the program counter, big-endian from two bytes;
/// the second byte's address wraps at the end of memory.
pub open spec fn spec_fetch(s: CpuView) -> u16
    recommends
        s.wf(),
{
    ((s.mem[s.pc as int] as u16) << 8u16) | (s.mem[(s.pc + 1) % 4096] as u16)
}

/// The stack misuse the next step would commit, if any.
pub open spec fn spec_step_fault(s: CpuView) -> Option<Fault> {
    spec_op_fault(s, spec_decode(spec_fetch(s)))
}

/// Both timers decremented once, clamped at zero.
pub open spec fn spec_tick_timers(s: CpuView) -> CpuView {
    CpuView {
        delay: if s.delay > 0 {
            (s.delay - 1) as u8
        } else {
            0u8
        },
        sound: if s.sound > 0 {
            (s.sound - 1) as u8
        } else {
            0u8
        },
        ..s
    }
}

/// The meaning of one whole step: fetch the word at the program counter,
/// advance the counter, execute, then tick both timers.
pub open spec fn spec_step(s: CpuView, rnd: u8) -> CpuView
    recommends
        s.wf(),
        spec_step_fault(s) is None,
{
    let op = spec_decode(spec_fetch(s));
    let advanced = CpuView { pc: pc_plus(s.pc, 2), ..s };
    spec_tick_timers(spec_execute(advanced, op, rnd))
}

} // verus!
