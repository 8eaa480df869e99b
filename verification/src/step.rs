//! The verified interpreter loop body: execute one decoded operation, or one
//! whole fetch-decode-execute step with its timer tick.
//!
//! The random operation draws its byte through the one trusted call into an
//! outside random-number crate; `execute_with_random` and `step_with_random`
//! take that byte as an argument and are proved exact for every value of it.

use vstd::prelude::*;
use rand::Rng;
use crate::cpu::{Cpu, CpuView, Fault, cell_on, FONTSET_START_ADDRESS};
use crate::decode::{
    Operation, decode, op_x, op_y, op_n, lemma_low_nibble_bound, reg_index_x, reg_index_y,
    low_nibble, imm_byte, addr_field,
};
use crate::semantics::{
    pc_back_one, spec_first_key_from, spec_first_key, spec_store_regs, spec_load_regs,
    sprite_row_bit, draw_cell_index, spec_draw_cols, spec_draw_rows, spec_draw, spec_bcd,
    store_load_count, spec_op_fault, spec_execute, spec_fetch, spec_step_fault, spec_step,
};

verus! {

/// Relies on rand's `thread_rng` and `Rng::gen_range` over the full byte
/// range (never empty, so the call cannot panic). Nothing is promised of the
/// byte drawn: callers state what holds of every outcome.
#[verifier::external_body]
fn random_byte() -> (r: u8) {
    rand::thread_rng().gen_range(0u8..=255u8)
}

impl Cpu {
    /// The draw operation: XOR an `n`-row sprite read from the index
    /// register into the framebuffer and report collisions in the flag
    /// register.
    fn op_draw(&mut self, w: u16)
        requires
            old(self)@.wf(),
        ensures
            final(self)@.wf(),
            final(self)@ == spec_draw(old(self)@, w),
    {
        let ghost s0 = self@;
        let vx = reg_index_x(w);
        let vy = reg_index_y(w);
        let height = low_nibble(w);
        let x_pos: usize = (self.registers[vx] % 64) as usize;
        let y_pos: usize = (self.registers[vy] % 32) as usize;
        let clamp = self.quirks.draw_clamp;
        let mut vf: u8 = 0;
        let mut row: usize = 0;
        while row < height
            invariant
                s0.wf(),
                row <= height,
                height == op_n(w),
                x_pos == s0.regs[op_x(w) as int] % 64,
                y_pos == s0.regs[op_y(w) as int] % 32,
                clamp == s0.quirks.draw_clamp,
                self@ == (CpuView { video: self@.video, ..s0 }),
                self@.video.len() == 2048,
                forall|i: int|
                    0 <= i < 2048 ==> (self@.video[i] == 0 || self@.video[i] == cell_on()),
                self@.video == spec_draw_rows(
                    s0.video,
                    0u8,
                    s0.mem,
                    s0.index,
                    x_pos as int,
                    y_pos as int,
                    clamp,
                    row as int,
                ).0,
                vf == spec_draw_rows(
                    s0.video,
                    0u8,
                    s0.mem,
                    s0.index,
                    x_pos as int,
                    y_pos as int,
                    clamp,
                    row as int,
                ).1,
            decreases height - row,
        {
            let sprite_byte: u8 = self.memory[(self.index as usize + row) % 4096];
            let ghost v_row = self@.video;
            let ghost f_row = vf;
            let mut col: usize = 0;
            while col < 8
                invariant
                    s0.wf(),
                    col <= 8,
                    row < height,
                    height == op_n(w),
                    x_pos == s0.regs[op_x(w) as int] % 64,
                    y_pos == s0.regs[op_y(w) as int] % 32,
                    clamp == s0.quirks.draw_clamp,
                    sprite_byte == s0.mem[(s0.index + row) % 4096],
                    self@ == (CpuView { video: self@.video, ..s0 }),
                    self@.video.len() == 2048,
                    forall|i: int|
                        0 <= i < 2048 ==> (self@.video[i] == 0 || self@.video[i] == cell_on()),
                    v_row.len() == 2048,
                    self@.video == spec_draw_cols(
                        v_row,
                        f_row,
                        sprite_byte,
                        x_pos as int,
                        y_pos as int,
                        row as int,
                        clamp,
                        col as int,
                    ).0,
                    vf == spec_draw_cols(
                        v_row,
                        f_row,
                        sprite_byte,
                        x_pos as int,
                        y_pos as int,
                        row as int,
                        clamp,
                        col as int,
                    ).1,
                decreases 8 - col,
            {
                let bit: u8 = sprite_byte & (0x80u8 >> (col as u8));
                proof {
                    assert(sprite_row_bit(sprite_byte, col as int) == (bit != 0));
                }
                if bit != 0 {
                    let idx: usize = if clamp {
                        let raw: usize = (y_pos + row) * 64 + (x_pos + col);
                        if raw <= 2047 {
                            raw
                        } else {
                            2047
                        }
                    } else {
                        ((y_pos + row) % 32) * 64 + ((x_pos + col) % 64)
                    };
                    proof {
                        assert(idx == draw_cell_index(
                            x_pos as int,
                            y_pos as int,
                            row as int,
                            col as int,
                            clamp,
                        ));
                        assert(idx < 2048);
                        crate::semantics::lemma_cell_toggle();
                    }
                    if self.video[idx] == 0xFFFF_FFFF {
                        vf = 1;
                    }
                    self.video[idx] = self.video[idx] ^ 0xFFFF_FFFF;
                }
                col = col + 1;
            }
            row = row + 1;
        }
        self.registers[15] = vf;
        proof {
            assert(final(self)@ =~= spec_draw(s0, w));
        }
    }

    /// The register-dump operation: copy the registers the range covers to
    /// memory from the index register on.
    fn op_store_regs(&mut self, w: u16)
        requires
            old(self)@.wf(),
        ensures
            final(self)@.wf(),
            final(self)@ == (CpuView {
                mem: spec_store_regs(
                    old(self)@.mem,
                    old(self)@.regs,
                    old(self)@.index,
                    store_load_count(old(self)@, w),
                ),
                ..old(self)@
            }),
    {
        let ghost s0 = self@;
        let vx = reg_index_x(w);
        let cnt: usize = if self.quirks.store_load_inclusive {
            vx + 1
        } else {
            vx
        };
        let mut i: usize = 0;
        while i < cnt
            invariant
                s0.wf(),
                i <= cnt,
                cnt <= 16,
                cnt == store_load_count(s0, w),
                self@ == (CpuView { mem: self@.mem, ..s0 }),
                self@.mem.len() == 4096,
                self@.mem == spec_store_regs(s0.mem, s0.regs, s0.index, i as int),
            decreases cnt - i,
        {
            self.memory[(self.index as usize + i) % 4096] = self.registers[i];
            i = i + 1;
        }
    }

    /// The register-load operation: refill the registers the range covers
    /// from memory from the index register on.
    fn op_load_regs(&mut self, w: u16)
        requires
            old(self)@.wf(),
        ensures
            final(self)@.wf(),
            final(self)@ == (CpuView {
                regs: spec_load_regs(
                    old(self)@.regs,
                    old(self)@.mem,
                    old(self)@.index,
                    store_load_count(old(self)@, w),
                ),
                ..old(self)@
            }),
    {
        let ghost s0 = self@;
        let vx = reg_index_x(w);
        let cnt: usize = if self.quirks.store_load_inclusive {
            vx + 1
        } else {
            vx
        };
        let mut i: usize = 0;
        while i < cnt
            invariant
                s0.wf(),
                i <= cnt,
                cnt <= 16,
                cnt == store_load_count(s0, w),
                self@ == (CpuView { regs: self@.regs, ..s0 }),
                self@.regs.len() == 16,
                self@.regs == spec_load_regs(s0.regs, s0.mem, s0.index, i as int),
            decreases cnt - i,
        {
            self.registers[i] = self.memory[(self.index as usize + i) % 4096];
            i = i + 1;
        }
    }

    /// The decimal-digits operation: write the source register's three
    /// base-10 digits, most significant first, from the index register on.
    fn op_bcd(&mut self, w: u16)
        requires
            old(self)@.wf(),
        ensures
            final(self)@.wf(),
            final(self)@ == (CpuView { mem: spec_bcd(old(self)@, w), ..old(self)@ }),
    {
        let ghost s0 = self@;
        let vx = reg_index_x(w);
        let base: usize = self.index as usize;
        let mut value: u8 = self.registers[vx];

        self.memory[(base + 2) % 4096] = value % 10;
        value = value / 10;

        self.memory[(base + 1) % 4096] = value % 10;
        value = value / 10;

        self.memory[base % 4096] = value % 10;
        proof {
            assert(final(self)@.mem =~= spec_bcd(s0, w));
        }
    }

    /// The wait-for-key operation: store the lowest pressed key, or rewind
    /// the program counter one instruction so the same word is fetched again
    /// on the next step.
    fn op_wait_key(&mut self, w: u16)
        requires
            old(self)@.wf(),
        ensures
            final(self)@.wf(),
            final(self)@ == (match spec_first_key(old(self)@.keys) {
                Some(k) => CpuView {
                    regs: old(self)@.regs.update(op_x(w) as int, k as u8),
                    ..old(self)@
                },
                None => CpuView { pc: pc_back_one(old(self)@.pc), ..old(self)@ },
            }),
    {
        let ghost s0 = self@;
        let vx = reg_index_x(w);
        let mut i: usize = 0;
        while i < 16
            invariant
                s0.wf(),
                s0 == old(self)@,
                i <= 16,
                vx == op_x(w),
                vx < 16,
                self@ == s0,
                spec_first_key(s0.keys) == spec_first_key_from(s0.keys, i as int),
            decreases 16 - i,
        {
            if self.keypad[i] == 1 {
                self.registers[vx] = i as u8;
                proof {
                    assert(spec_first_key(s0.keys) == Some(i as int));
                    assert(self@ =~= (CpuView {
                        regs: s0.regs.update(op_x(w) as int, i as u8),
                        ..s0
                    }));
                }
                return ;
            }
            i = i + 1;
        }
        self.program_counter = (self.program_counter + 4094) % 4096;
    }

    /// Execute one decoded operation with the given random byte. The
    /// program counter is expected to have moved past the fetched word
    /// already; a call with a full stack or a return with an empty one is
    /// refused and leaves the machine untouched.
    pub fn execute_with_random(&mut self, op: Operation, rnd: u8) -> (r: Result<(), Fault>)
        requires
            old(self)@.wf(),
        ensures
            final(self)@.wf(),
            match r {
                Ok(_) => spec_op_fault(old(self)@, op) is None && final(self)@ == spec_execute(
                    old(self)@,
                    op,
                    rnd,
                ),
                Err(f) => spec_op_fault(old(self)@, op) == Some(f) && final(self)@ == old(self)@,
            },
    {
        let ghost s0 = self@;
        match op {
            Operation::Cls00E0(_) => {
                self.video = [0; 2048];
                proof {
                    assert(self@.video =~= Seq::new(2048, |i: int| 0u32));
                    assert(self@ =~= spec_execute(s0, op, rnd));
                }
            },
            Operation::Ret00EE(_) => {
                if self.stack_pointer == 0 {
                    return Err(Fault::StackUnderflow);
                }
                self.stack_pointer = self.stack_pointer - 1;
                self.program_counter = self.stack[self.stack_pointer as usize];
                proof {
                    assert(self@ =~= spec_execute(s0, op, rnd));
                }
            },
            Operation::Jp1nnn(w) => {
                self.program_counter = addr_field(w);
                proof {
                    assert(self@ =~= spec_execute(s0, op, rnd));
                }
            },
            Operation::Call2nnn(w) => {
                if self.stack_pointer >= 16 {
                    return Err(Fault::StackOverflow);
                }
                self.stack[self.stack_pointer as usize] = self.program_counter;
                self.stack_pointer = self.stack_pointer + 1;
                self.program_counter = addr_field(w);
                proof {
                    assert(self@ =~= spec_execute(s0, op, rnd));
                }
            },
            Operation::Se3xkk(w) => {
                let vx = reg_index_x(w);
                if self.registers[vx] == imm_byte(w) {
                    self.program_counter = (self.program_counter + 2) % 4096;
                }
                proof {
                    assert(self@ =~= spec_execute(s0, op, rnd));
                }
            },
            Operation::Sne4xkk(w) => {
                let vx = reg_index_x(w);
                if self.registers[vx] != imm_byte(w) {
                    self.program_counter = (self.program_counter + 2) % 4096;
                }
                proof {
                    assert(self@ =~= spec_execute(s0, op, rnd));
                }
            },
            Operation::Se5xy0(w) => {
                let vx = reg_index_x(w);
                let vy = reg_index_y(w);
                if self.registers[vx] == self.registers[vy] {
                    self.program_counter = (self.program_counter + 2) % 4096;
                }
                proof {
                    assert(self@ =~= spec_execute(s0, op, rnd));
                }
            },
            Operation::Ld6xkk(w) => {
                let vx = reg_index_x(w);
                self.registers[vx] = imm_byte(w);
                proof {
                    assert(self@ =~= spec_execute(s0, op, rnd));
                }
            },
            Operation::Add7xkk(w) => {
                let vx = reg_index_x(w);
                let sum: u16 = self.registers[vx] as u16 + imm_byte(w) as u16;
                self.registers[vx] = (sum % 256) as u8;
                proof {
                    assert(self@ =~= spec_execute(s0, op, rnd));
                }
            },
            Operation::Ld8xy0(w) => {
                let vx = reg_index_x(w);
                let vy = reg_index_y(w);
                self.registers[vx] = self.registers[vy];
                proof {
                    assert(self@ =~= spec_execute(s0, op, rnd));
                }
            },
            Operation::Or8xy1(w) => {
                let vx = reg_index_x(w);
                let vy = reg_index_y(w);
                self.registers[vx] = self.registers[vx] | self.registers[vy];
                proof {
                    assert(self@ =~= spec_execute(s0, op, rnd));
                }
            },
            Operation::And8xy2(w) => {
                let vx = reg_index_x(w);
                let vy = reg_index_y(w);
                self.registers[vx] = self.registers[vx] & self.registers[vy];
                proof {
                    assert(self@ =~= spec_execute(s0, op, rnd));
                }
            },
            Operation::Xor8xy3(w) => {
                let vx = reg_index_x(w);
                let vy = reg_index_y(w);
                self.registers[vx] = self.registers[vx] ^ self.registers[vy];
                proof {
                    assert(self@ =~= spec_execute(s0, op, rnd));
                }
            },
            Operation::Add8xy4(w) => {
                let vx = reg_index_x(w);
                let vy = reg_index_y(w);
                let sum: u16 = self.registers[vx] as u16 + self.registers[vy] as u16;
                if sum > 255 {
                    self.registers[15] = 1;
                } else {
                    self.registers[15] = 0;
                }
                self.registers[vx] = (sum % 256) as u8;
                proof {
                    assert(self@ =~= spec_execute(s0, op, rnd));
                }
            },
            Operation::Sub8xy5(w) => {
                let vx = reg_index_x(w);
                let vy = reg_index_y(w);
                if self.registers[vx] > self.registers[vy] {
                    self.registers[15] = 1;
                } else {
                    self.registers[15] = 0;
                }
                self.registers[vx] = Self::safe_subtract(self.registers[vx], self.registers[vy]);
                proof {
                    assert(self@ =~= spec_execute(s0, op, rnd));
                }
            },
            Operation::Shr8xy6(w) => {
                let vx = reg_index_x(w);
                let vf: u8 = if self.quirks.shift_flag_low_bit {
                    self.registers[vx] & 1
                } else {
                    self.registers[vx]
                };
                self.registers[15] = vf;
                self.registers[vx] = self.registers[vx] >> 1u8;
                proof {
                    assert(self@ =~= spec_execute(s0, op, rnd));
                }
            },
            Operation::Subn8xy7(w) => {
                let vx = reg_index_x(w);
                let vy = reg_index_y(w);
                if self.registers[vy] > self.registers[vx] {
                    self.registers[15] = 1;
                } else {
                    self.registers[15] = 0;
                }
                self.registers[vx] = Self::safe_subtract(self.registers[vy], self.registers[vx]);
                proof {
                    assert(self@ =~= spec_execute(s0, op, rnd));
                }
            },
            Operation::Shl8xyE(w) => {
                let vx = reg_index_x(w);
                self.registers[15] = (self.registers[vx] & 0x80) >> 7u8;
                self.registers[vx] = self.registers[vx] << 1u8;
                proof {
                    assert(self@ =~= spec_execute(s0, op, rnd));
                }
            },
            Operation::Sne9xy0(w) => {
                let vx = reg_index_x(w);
                let vy = reg_index_y(w);
                if self.registers[vx] != self.registers[vy] {
                    self.program_counter = (self.program_counter + 2) % 4096;
                }
                proof {
                    assert(self@ =~= spec_execute(s0, op, rnd));
                }
            },
            Operation::LdAnnn(w) => {
                self.index = addr_field(w);
                proof {
                    assert(self@ =~= spec_execute(s0, op, rnd));
                }
            },
            Operation::JpBnnn(w) => {
                self.program_counter = (self.registers[0] as u16 + addr_field(w)) % 4096;
                proof {
                    assert(self@ =~= spec_execute(s0, op, rnd));
                }
            },
            Operation::RndCxkk(w) => {
                let vx = reg_index_x(w);
                self.registers[vx] = rnd & imm_byte(w);
                proof {
                    assert(self@ =~= spec_execute(s0, op, rnd));
                }
            },
            Operation::DrwDxyn(w) => {
                self.op_draw(w);
                proof {
                    assert(self@ =~= spec_execute(s0, op, rnd));
                }
            },
            Operation::SkpEx9e(w) => {
                let vx = reg_index_x(w);
                let key: usize = (self.registers[vx] & 0x0F) as usize;
                proof {
                    lemma_low_nibble_bound(s0.regs[op_x(w) as int]);
                }
                if self.keypad[key] == 1 {
                    self.program_counter = (self.program_counter + 2) % 4096;
                }
                proof {
                    assert(self@ =~= spec_execute(s0, op, rnd));
                }
            },
            Operation::SknpExA1(w) => {
                let vx = reg_index_x(w);
                let key: usize = (self.registers[vx] & 0x0F) as usize;
                proof {
                    lemma_low_nibble_bound(s0.regs[op_x(w) as int]);
                }
                if self.keypad[key] != 1 {
                    self.program_counter = (self.program_counter + 2) % 4096;
                }
                proof {
                    assert(self@ =~= spec_execute(s0, op, rnd));
                }
            },
            Operation::LdFx07(w) => {
                let vx = reg_index_x(w);
                self.registers[vx] = self.delay_timer;
                proof {
                    assert(self@ =~= spec_execute(s0, op, rnd));
                }
            },
            Operation::LdFx0a(w) => {
                self.op_wait_key(w);
                proof {
                    assert(self@ =~= spec_execute(s0, op, rnd));
                }
            },
            Operation::LdFx15(w) => {
                let vx = reg_index_x(w);
                self.delay_timer = self.registers[vx];
                proof {
                    assert(self@ =~= spec_execute(s0, op, rnd));
                }
            },
            Operation::LdFx18(w) => {
                let vx = reg_index_x(w);
                self.sound_timer = self.registers[vx];
                proof {
                    assert(self@ =~= spec_execute(s0, op, rnd));
                }
            },
            Operation::AddFx1e(w) => {
                let vx = reg_index_x(w);
                self.index = ((self.index as u32 + self.registers[vx] as u32) % 0x10000) as u16;
                proof {
                    assert(self@ =~= spec_execute(s0, op, rnd));
                }
            },
            Operation::LdFx29(w) => {
                let vx = reg_index_x(w);
                let digit: u8 = self.registers[vx] & 0x0F;
                proof {
                    lemma_low_nibble_bound(s0.regs[op_x(w) as int]);
                }
                self.index = FONTSET_START_ADDRESS + 5 * (digit as u16);
                proof {
                    assert(self@ =~= spec_execute(s0, op, rnd));
                }
            },
            Operation::LdFx33(w) => {
                self.op_bcd(w);
                proof {
                    assert(self@ =~= spec_execute(s0, op, rnd));
                }
            },
            Operation::LdFx55(w) => {
                self.op_store_regs(w);
                proof {
                    assert(self@ =~= spec_execute(s0, op, rnd));
                }
            },
            Operation::LdFx65(w) => {
                self.op_load_regs(w);
                proof {
                    assert(self@ =~= spec_execute(s0, op, rnd));
                }
            },
            Operation::Null(_) => {
                proof {
                    assert(self@ =~= spec_execute(s0, op, rnd));
                }
            },
        }
        Ok(())
    }

    /// Execute one decoded operation, drawing the byte for the random
    /// operation from the outside generator. Whatever byte comes back, the
    /// result is the exact meaning of the operation for some byte.
    pub fn execute(&mut self, op: Operation) -> (r: Result<(), Fault>)
        requires
            old(self)@.wf(),
        ensures
            final(self)@.wf(),
            match r {
                Ok(_) => spec_op_fault(old(self)@, op) is None && (exists|rnd: u8|
                    final(self)@ == spec_execute(old(self)@, op, rnd)),
                Err(f) => spec_op_fault(old(self)@, op) == Some(f) && final(self)@ == old(self)@,
            },
    {
        let ghost s0 = self@;
        let rnd = random_byte();
        let r = self.execute_with_random(op, rnd);
        proof {
            if r is Ok {
                assert(self@ == spec_execute(s0, op, rnd));
                assert(exists|b: u8| self@ == spec_execute(s0, op, b));
            }
        }
        r
    }

    /// One whole step with the given random byte: fetch the word at the
    /// program counter, advance the counter past it, execute, and tick both
    /// timers. A stack misuse is reported before anything is touched.
    pub fn step_with_random(&mut self, rnd: u8) -> (r: Result<(), Fault>)
        requires
            old(self)@.wf(),
        ensures
            final(self)@.wf(),
            match r {
                Ok(_) => spec_step_fault(old(self)@) is None && final(self)@ == spec_step(
                    old(self)@,
                    rnd,
                ),
                Err(f) => spec_step_fault(old(self)@) == Some(f) && final(self)@ == old(self)@,
            },
    {
        let ghost s0 = self@;
        let hi: u8 = self.memory[self.program_counter as usize];
        let lo: u8 = self.memory[(self.program_counter as usize + 1) % 4096];
        let word: u16 = ((hi as u16) << 8u16) | (lo as u16);
        proof {
            assert(word == spec_fetch(s0));
        }
        let op = decode(word);

        // Refuse stack misuse while the machine is still untouched.
        match op {
            Operation::Ret00EE(_) => {
                if self.stack_pointer == 0 {
                    return Err(Fault::StackUnderflow);
                }
            },
            Operation::Call2nnn(_) => {
                if self.stack_pointer >= 16 {
                    return Err(Fault::StackOverflow);
                }
            },
            _ => {},
        }

        self.program_counter = (self.program_counter + 2) % 4096;
        let res = self.execute_with_random(op, rnd);
        proof {
            assert(res is Ok);
        }

        if self.delay_timer > 0 {
            self.delay_timer = self.delay_timer - 1;
        }
        if self.sound_timer > 0 {
            self.sound_timer = self.sound_timer - 1;
        }
        proof {
            assert(self@ =~= spec_step(s0, rnd));
        }
        Ok(())
    }

    /// Advance the machine by one instruction and one timer tick, drawing
    /// the byte for the random operation from the outside generator.
    pub fn cycle(&mut self) -> (r: Result<(), Fault>)
        requires
            old(self)@.wf(),
        ensures
            final(self)@.wf(),
            match r {
                Ok(_) => spec_step_fault(old(self)@) is None && (exists|rnd: u8|
                    final(self)@ == spec_step(old(self)@, rnd)),
                Err(f) => spec_step_fault(old(self)@) == Some(f) && final(self)@ == old(self)@,
            },
    {
        let ghost s0 = self@;
        let rnd = random_byte();
        let r = self.step_with_random(rnd);
        proof {
            if r is Ok {
                assert(self@ == spec_step(s0, rnd));
                assert(exists|b: u8| self@ == spec_step(s0, b));
            }
        }
        r
    }
}

} // verus!
