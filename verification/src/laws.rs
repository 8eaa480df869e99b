//! Laws that relate several operations: copy fidelity of load and move,
//! the draw operation as a self-inverse with collision reporting, the
//! dump/load round trip, and the timer behaviour of a no-op step.

use vstd::prelude::*;
use crate::cpu::{CpuView, cell_on};
use crate::decode::{Operation, spec_decode, op_x, op_y, op_n, lemma_operand_bounds};
use crate::semantics::{
    spec_execute, spec_store_regs, spec_load_regs, spec_draw_cols, spec_draw_rows,
    draw_cell_index, sprite_row_bit, spec_fetch, spec_step, spec_step_fault, pc_plus,
    lemma_cell_toggle, store_load_count,
};
use vstd::arithmetic::div_mod::lemma_fundamental_div_mod;

verus! {

/// Two numbers whose distance is positive and below the divisor fall on
/// different residues.
proof fn lemma_mod_add_distinct(base: int, i: int, j: int, n: int)
    requires
        0 <= base,
        0 <= i < j,
        j - i < n,
        0 < n,
    ensures
        (base + i) % n != (base + j) % n,
{
    let a = base + i;
    let b = base + j;
    lemma_fundamental_div_mod(a, n);
    lemma_fundamental_div_mod(b, n);
    if a % n == b % n {
        let k = (b / n) - (a / n);
        assert(b - a == n * k) by (nonlinear_arith)
            requires
                a == n * (a / n) + a % n,
                b == n * (b / n) + b % n,
                a % n == b % n,
                k == (b / n) - (a / n),
        ;
        assert(false) by (nonlinear_arith)
            requires
                n * k == b - a,
                0 < b - a < n,
        ;
    }
}

/// Load-immediate then register-copy reproduces the byte exactly: for every
/// well-formed state, every pair of register indices and every byte, the
/// word `6skk` followed by `8ds0` leaves the byte in the destination
/// register.
pub proof fn lemma_copy_fidelity(s: CpuView, dst: u16, src: u16, kk: u8, rnd1: u8, rnd2: u8)
    requires
        s.wf(),
        dst < 16,
        src < 16,
    ensures
        ({
            let w1 = 0x6000u16 | (src << 8u16) | (kk as u16);
            let w2 = 0x8000u16 | (dst << 8u16) | (src << 4u16);
            let s1 = spec_execute(s, Operation::Ld6xkk(w1), rnd1);
            let s2 = spec_execute(s1, Operation::Ld8xy0(w2), rnd2);
            &&& spec_decode(w1) == Operation::Ld6xkk(w1)
            &&& spec_decode(w2) == Operation::Ld8xy0(w2)
            &&& s2.regs[dst as int] == kk
        }),
{
    let w1 = 0x6000u16 | (src << 8u16) | (kk as u16);
    let w2 = 0x8000u16 | (dst << 8u16) | (src << 4u16);
    assert((w1 & 0xF000) >> 12 == 6 && ((w1 & 0x0F00) >> 8) == src && (w1 & 0x00FF) == (
    kk as u16)) by (bit_vector)
        requires
            w1 == 0x6000u16 | (src << 8u16) | (kk as u16),
            src < 16,
    ;
    assert((w2 & 0xF000) >> 12 == 8 && ((w2 & 0x0F00) >> 8) == dst && ((w2 & 0x00F0) >> 4) == src
        && (w2 & 0x000F) == 0) by (bit_vector)
        requires
            w2 == 0x8000u16 | (dst << 8u16) | (src << 4u16),
            dst < 16,
            src < 16,
    ;
    let s1 = spec_execute(s, Operation::Ld6xkk(w1), rnd1);
    let s2 = spec_execute(s1, Operation::Ld8xy0(w2), rnd2);
    assert(s1.regs == s.regs.update(src as int, kk));
    assert(s2.regs[dst as int] == s1.regs[src as int]);
}

/// Where the registers dumped by the store operation land in memory.
proof fn lemma_store_regs_at(mem: Seq<u8>, regs: Seq<u8>, index: u16, cnt: int, i: int)
    requires
        mem.len() == 4096,
        regs.len() == 16,
        0 <= i < cnt <= 16,
    ensures
        spec_store_regs(mem, regs, index, cnt).len() == 4096,
        spec_store_regs(mem, regs, index, cnt)[(index + i) % 4096] == regs[i],
    decreases cnt,
{
    let prev = spec_store_regs(mem, regs, index, cnt - 1);
    lemma_store_regs_len(mem, regs, index, cnt - 1);
    if i == cnt - 1 {
        assert((index + i) % 4096 < 4096) by {
            vstd::arithmetic::div_mod::lemma_mod_bound(index + i, 4096);
        };
    } else {
        lemma_store_regs_at(mem, regs, index, cnt - 1, i);
        lemma_mod_add_distinct(index as int, i, cnt - 1, 4096);
    }
}

/// Dumping registers resizes nothing.
proof fn lemma_store_regs_len(mem: Seq<u8>, regs: Seq<u8>, index: u16, cnt: int)
    requires
        mem.len() == 4096,
    ensures
        spec_store_regs(mem, regs, index, cnt).len() == 4096,
    decreases cnt,
{
    if cnt > 0 {
        lemma_store_regs_len(mem, regs, index, cnt - 1);
        assert((index + cnt - 1) % 4096 < 4096) by {
            vstd::arithmetic::div_mod::lemma_mod_bound(index + cnt - 1, 4096);
        };
    }
}

/// What the load operation leaves in each register: memory bytes below the
/// count, the old values at and above it.
proof fn lemma_load_regs_at(regs: Seq<u8>, mem: Seq<u8>, index: u16, cnt: int, i: int)
    requires
        regs.len() == 16,
        0 <= i < 16,
        cnt <= 16,
    ensures
        spec_load_regs(regs, mem, index, cnt).len() == 16,
        i < cnt ==> spec_load_regs(regs, mem, index, cnt)[i] == mem[(index + i) % 4096],
        i >= cnt ==> spec_load_regs(regs, mem, index, cnt)[i] == regs[i],
    decreases (if cnt > 0 { cnt } else { 0 }),
{
    if cnt > 0 {
        lemma_load_regs_at(regs, mem, index, cnt - 1, i);
    }
}

/// Loading back what was just dumped restores every register.
proof fn lemma_round_trip_core(mem: Seq<u8>, regs: Seq<u8>, index: u16, cnt: int)
    requires
        mem.len() == 4096,
        regs.len() == 16,
        0 <= cnt <= 16,
    ensures
        spec_load_regs(regs, spec_store_regs(mem, regs, index, cnt), index, cnt) == regs,
{
    let stored = spec_store_regs(mem, regs, index, cnt);
    lemma_store_regs_len(mem, regs, index, cnt);
    let back = spec_load_regs(regs, stored, index, cnt);
    lemma_load_regs_at(regs, stored, index, cnt, 0);
    assert(back.len() == 16);
    assert forall|i: int| 0 <= i < 16 implies back[i] == regs[i] by {
        lemma_load_regs_at(regs, stored, index, cnt, i);
        if i < cnt {
            lemma_store_regs_at(mem, regs, index, cnt, i);
        }
    }
    assert(back =~= regs);
}

/// The dump/load round trip: dumping the covered registers to memory and
/// loading them back from the same index restores every register exactly,
/// whatever the state, word and range switch; only memory keeps the dump.
pub proof fn lemma_store_load_round_trip(s: CpuView, w: u16, rnd1: u8, rnd2: u8)
    requires
        s.wf(),
    ensures
        ({
            let s1 = spec_execute(s, Operation::LdFx55(w), rnd1);
            let s2 = spec_execute(s1, Operation::LdFx65(w), rnd2);
            s2 == (CpuView { mem: s1.mem, ..s })
        }),
{
    lemma_operand_bounds(w);
    let cnt = store_load_count(s, w);
    let s1 = spec_execute(s, Operation::LdFx55(w), rnd1);
    let s2 = spec_execute(s1, Operation::LdFx65(w), rnd2);
    let stored = spec_store_regs(s.mem, s.regs, s.index, cnt);
    assert(s1 == (CpuView { mem: stored, ..s }));
    assert(store_load_count(s1, w) == cnt);
    assert(s2 == (CpuView { regs: spec_load_regs(s.regs, stored, s.index, cnt), ..s1 }));
    lemma_round_trip_core(s.mem, s.regs, s.index, cnt);
    assert(s2 =~= (CpuView { mem: s1.mem, ..s }));
}

/// Whether some sprite column of the draw row lands on cell `i`.
spec fn covered_cell(xp: int, yp: int, cols: int, i: int) -> bool {
    exists|c: int| 0 <= c < cols && i == draw_cell_index(xp, yp, 0, c, false)
}

/// The cells of one wrapped sprite row are pairwise distinct.
proof fn lemma_draw_cells_distinct(xp: int, yp: int, c1: int, c2: int)
    requires
        0 <= xp < 64,
        0 <= yp < 32,
        0 <= c1 < c2 < 8,
    ensures
        draw_cell_index(xp, yp, 0, c1, false) != draw_cell_index(xp, yp, 0, c2, false),
{
    lemma_mod_add_distinct(xp, c1, c2, 64);
}

/// A wrapped sprite cell index stays on the screen.
proof fn lemma_draw_cell_index_bound(xp: int, yp: int, c: int)
    requires
        0 <= xp < 64,
        0 <= yp < 32,
        0 <= c < 8,
    ensures
        0 <= draw_cell_index(xp, yp, 0, c, false) < 2048,
{
    vstd::arithmetic::div_mod::lemma_mod_bound(xp + c, 64);
    vstd::arithmetic::div_mod::lemma_mod_bound(yp, 32);
}

/// Every bit of an all-ones sprite row is set.
proof fn lemma_all_ones_bit(c: int)
    requires
        0 <= c < 8,
    ensures
        sprite_row_bit(0xFF, c),
{
    let cu = c as u8;
    assert(0xFFu8 & (0x80u8 >> cu) != 0) by (bit_vector)
        requires
            cu < 8,
    ;
}

/// Drawing an all-ones row over dark cells lights them all, reports no
/// collision, and touches nothing else.
proof fn lemma_draw_cols_over_dark(video: Seq<u32>, xp: int, yp: int, cols: int)
    requires
        video.len() == 2048,
        0 <= xp < 64,
        0 <= yp < 32,
        0 <= cols <= 8,
        forall|c: int| 0 <= c < cols ==> video[draw_cell_index(xp, yp, 0, c, false)] == 0,
    ensures
        ({
            let r = spec_draw_cols(video, 0u8, 0xFFu8, xp, yp, 0, false, cols);
            &&& r.0.len() == 2048
            &&& r.1 == 0u8
            &&& forall|c: int|
                0 <= c < cols ==> r.0[draw_cell_index(xp, yp, 0, c, false)] == cell_on()
            &&& forall|i: int|
                0 <= i < 2048 && !covered_cell(xp, yp, cols, i) ==> r.0[i] == video[i]
        }),
    decreases cols,
{
    if cols > 0 {
        lemma_draw_cols_over_dark(video, xp, yp, cols - 1);
        let c = cols - 1;
        lemma_all_ones_bit(c);
        let idx = draw_cell_index(xp, yp, 0, c, false);
        lemma_draw_cell_index_bound(xp, yp, c);
        let prev = spec_draw_cols(video, 0u8, 0xFFu8, xp, yp, 0, false, cols - 1);
        assert forall|c2: int| 0 <= c2 < cols - 1 implies idx != draw_cell_index(
            xp,
            yp,
            0,
            c2,
            false,
        ) by {
            lemma_draw_cells_distinct(xp, yp, c2, c);
        }
        assert(!covered_cell(xp, yp, cols - 1, idx));
        assert(prev.0[idx] == video[idx]);
        lemma_cell_toggle();
        let r = spec_draw_cols(video, 0u8, 0xFFu8, xp, yp, 0, false, cols);
        assert(r.0 == prev.0.update(idx, cell_on()));
        assert forall|c2: int| 0 <= c2 < cols implies r.0[draw_cell_index(xp, yp, 0, c2, false)]
            == cell_on() by {
            if c2 < cols - 1 {
                lemma_draw_cells_distinct(xp, yp, c2, c);
            }
        }
        assert forall|i: int| 0 <= i < 2048 && !covered_cell(xp, yp, cols, i) implies r.0[i]
            == video[i] by {
            assert(!covered_cell(xp, yp, cols - 1, i));
            assert(i != idx);
        }
    }
}

/// Drawing an all-ones row over lit cells darkens them all, reports the
/// collision, and touches nothing else.
proof fn lemma_draw_cols_over_lit(video: Seq<u32>, xp: int, yp: int, cols: int)
    requires
        video.len() == 2048,
        0 <= xp < 64,
        0 <= yp < 32,
        0 <= cols <= 8,
        forall|c: int| 0 <= c < cols ==> video[draw_cell_index(xp, yp, 0, c, false)] == cell_on(),
    ensures
        ({
            let r = spec_draw_cols(video, 0u8, 0xFFu8, xp, yp, 0, false, cols);
            &&& r.0.len() == 2048
            &&& r.1 == (if cols > 0 { 1u8 } else { 0u8 })
            &&& forall|c: int| 0 <= c < cols ==> r.0[draw_cell_index(xp, yp, 0, c, false)] == 0
            &&& forall|i: int|
                0 <= i < 2048 && !covered_cell(xp, yp, cols, i) ==> r.0[i] == video[i]
        }),
    decreases cols,
{
    if cols > 0 {
        lemma_draw_cols_over_lit(video, xp, yp, cols - 1);
        let c = cols - 1;
        lemma_all_ones_bit(c);
        let idx = draw_cell_index(xp, yp, 0, c, false);
        lemma_draw_cell_index_bound(xp, yp, c);
        let prev = spec_draw_cols(video, 0u8, 0xFFu8, xp, yp, 0, false, cols - 1);
        assert forall|c2: int| 0 <= c2 < cols - 1 implies idx != draw_cell_index(
            xp,
            yp,
            0,
            c2,
            false,
        ) by {
            lemma_draw_cells_distinct(xp, yp, c2, c);
        }
        assert(!covered_cell(xp, yp, cols - 1, idx));
        assert(prev.0[idx] == video[idx]);
        lemma_cell_toggle();
        let r = spec_draw_cols(video, 0u8, 0xFFu8, xp, yp, 0, false, cols);
        assert(r.1 == 1u8);
        assert(r.0 == prev.0.update(idx, 0u32));
        assert forall|c2: int| 0 <= c2 < cols implies r.0[draw_cell_index(xp, yp, 0, c2, false)]
            == 0 by {
            if c2 < cols - 1 {
                lemma_draw_cells_distinct(xp, yp, c2, c);
            }
        }
        assert forall|i: int| 0 <= i < 2048 && !covered_cell(xp, yp, cols, i) implies r.0[i]
            == video[i] by {
            assert(!covered_cell(xp, yp, cols - 1, i));
            assert(i != idx);
        }
    }
}

/// Drawing one all-ones 8-cell sprite row twice at the same dark spot, in
/// wrap mode, lights the row and reports no collision the first time, then
/// restores the screen exactly and reports the collision the second time.
/// The flag register itself must not supply a coordinate, since the first
/// draw overwrites it.
pub proof fn lemma_draw_twice_restores(s: CpuView, w: u16, rnd1: u8, rnd2: u8)
    requires
        s.wf(),
        op_n(w) == 1,
        op_x(w) != 15,
        op_y(w) != 15,
        !s.quirks.draw_clamp,
        s.mem[(s.index as int) % 4096] == 0xFF,
        ({
            let xp = (s.regs[op_x(w) as int] % 64) as int;
            let yp = (s.regs[op_y(w) as int] % 32) as int;
            forall|c: int| 0 <= c < 8 ==> s.video[draw_cell_index(xp, yp, 0, c, false)] == 0
        }),
    ensures
        ({
            let xp = (s.regs[op_x(w) as int] % 64) as int;
            let yp = (s.regs[op_y(w) as int] % 32) as int;
            let s1 = spec_execute(s, Operation::DrwDxyn(w), rnd1);
            let s2 = spec_execute(s1, Operation::DrwDxyn(w), rnd2);
            &&& s1.regs[15] == 0
            &&& forall|c: int|
                0 <= c < 8 ==> s1.video[draw_cell_index(xp, yp, 0, c, false)] == cell_on()
            &&& s2.regs[15] == 1
            &&& s2 == (CpuView { regs: s.regs.update(15, 1u8), ..s })
        }),
{
    lemma_operand_bounds(w);
    let xp = (s.regs[op_x(w) as int] % 64) as int;
    let yp = (s.regs[op_y(w) as int] % 32) as int;
    let s1 = spec_execute(s, Operation::DrwDxyn(w), rnd1);
    let s2 = spec_execute(s1, Operation::DrwDxyn(w), rnd2);

    let r1 = spec_draw_rows(s.video, 0u8, s.mem, s.index, xp, yp, false, 1);
    assert(spec_draw_rows(s.video, 0u8, s.mem, s.index, xp, yp, false, 0) == (s.video, 0u8));
    assert(r1 == spec_draw_cols(s.video, 0u8, 0xFFu8, xp, yp, 0, false, 8));
    lemma_draw_cols_over_dark(s.video, xp, yp, 8);
    assert(s1 == (CpuView { video: r1.0, regs: s.regs.update(15, 0u8), ..s }));

    assert(s1.regs[op_x(w) as int] == s.regs[op_x(w) as int]);
    assert(s1.regs[op_y(w) as int] == s.regs[op_y(w) as int]);
    let r2 = spec_draw_rows(s1.video, 0u8, s1.mem, s1.index, xp, yp, false, 1);
    assert(spec_draw_rows(s1.video, 0u8, s1.mem, s1.index, xp, yp, false, 0) == (s1.video, 0u8));
    assert(r2 == spec_draw_cols(r1.0, 0u8, 0xFFu8, xp, yp, 0, false, 8));
    lemma_draw_cols_over_lit(r1.0, xp, yp, 8);
    assert(s2 == (CpuView { video: r2.0, regs: s1.regs.update(15, 1u8), ..s1 }));

    assert forall|i: int| 0 <= i < 2048 implies r2.0[i] == s.video[i] by {
        if covered_cell(xp, yp, 8, i) {
            let c = choose|c: int| 0 <= c < 8 && i == draw_cell_index(xp, yp, 0, c, false);
            assert(r2.0[i] == 0);
            assert(s.video[i] == 0);
        }
    }
    assert(r2.0 =~= s.video);
    assert(s2.regs =~= s.regs.update(15, 1u8));
    assert(s2 =~= (CpuView { regs: s.regs.update(15, 1u8), ..s }));
}

/// A step that fetches an unrecognised word is a pure timer tick: the
/// program counter moves one instruction forward, each timer falls by one
/// and stops at zero, and nothing else changes.
pub proof fn lemma_noop_step_ticks_timers(s: CpuView, rnd: u8)
    requires
        s.wf(),
        spec_decode(spec_fetch(s)) is Null,
    ensures
        spec_step_fault(s) is None,
        spec_step(s, rnd) == (CpuView {
            pc: pc_plus(s.pc, 2),
            delay: if s.delay > 0 { (s.delay - 1) as u8 } else { 0u8 },
            sound: if s.sound > 0 { (s.sound - 1) as u8 } else { 0u8 },
            ..s
        }),
{
    assert(spec_step(s, rnd) =~= (CpuView {
        pc: pc_plus(s.pc, 2),
        delay: if s.delay > 0 { (s.delay - 1) as u8 } else { 0u8 },
        sound: if s.sound > 0 { (s.sound - 1) as u8 } else { 0u8 },
        ..s
    }));
}

} // verus!
