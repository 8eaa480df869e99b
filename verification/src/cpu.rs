//! The machine state: registers, memory, call stack, timers, keypad and
//! framebuffer, together with its mathematical model and the construction of
//! a machine from raw program bytes.
//!
//! Address policy: instruction addresses are 12-bit. The program counter is
//! kept below 4096 at all times, and every memory access made relative to the
//! index register is taken modulo 4096, so no access can run past the end of
//! memory. The index register itself is a full 16-bit accumulator.

use vstd::prelude::*;

verus! {

/// Lowest address of a loaded program.
pub const START_ADDRESS: u16 = 0x200;

/// Lowest address of the built-in glyph table.
pub const FONTSET_START_ADDRESS: u16 = 0x50;

/// Behaviour switches for the handful of instructions whose established
/// behaviour deviates from the canonical one. Each switch picks between the
/// two documented readings; the default reproduces the established behaviour
/// except for sprite clipping, where wrapping is the default and clamping the
/// compatibility option.
#[derive(Clone, Copy, Debug, PartialEq, Eq, Structural)]
pub struct Quirks {
    /// Shift-right flag: `true` stores the pre-shift low bit in the flag
    /// register (canonical); `false` stores the whole pre-shift value
    /// (established behaviour).
    pub shift_flag_low_bit: bool,
    /// Register dump/load range: `true` copies registers 0 through x
    /// inclusive (canonical); `false` stops short of register x
    /// (established behaviour).
    pub store_load_inclusive: bool,
    /// Sprite cells past the screen edge: `true` clamps their index to the
    /// last cell (established behaviour); `false` wraps per axis.
    pub draw_clamp: bool,
}

impl Default for Quirks {
    /// Established shift and dump/load behaviour, with per-axis wrapping for
    /// sprites.
    fn default() -> (q: Quirks)
        ensures
            q == (Quirks { shift_flag_low_bit: false, store_load_inclusive: false, draw_clamp: false }),
    {
        Quirks { shift_flag_low_bit: false, store_load_inclusive: false, draw_clamp: false }
    }
}

/// A stack misuse detected before executing a call or return.
#[derive(Clone, Copy, Debug, PartialEq, Eq, Structural)]
pub enum Fault {
    /// A call was fetched with all 16 stack slots in use.
    StackOverflow,
    /// A return was fetched with no call outstanding.
    StackUnderflow,
}

/// The mathematical model of the machine: every component as a plain value
/// or a sequence.
#[verifier::ext_equal]
pub ghost struct CpuView {
    /// The 16 general-purpose byte registers; register 15 is the flag register.
    pub regs: Seq<u8>,
    /// The 4096 memory bytes.
    pub mem: Seq<u8>,
    /// The 16-bit index register.
    pub index: u16,
    /// The program counter.
    pub pc: u16,
    /// The 16 return-address slots.
    pub stack: Seq<u16>,
    /// The number of stack slots in use.
    pub sp: u16,
    /// The delay timer.
    pub delay: u8,
    /// The sound timer.
    pub sound: u8,
    /// The 16 key states, 1 for pressed.
    pub keys: Seq<u8>,
    /// The 2048 framebuffer cells, row-major from the top-left corner;
    /// 0 for off, 0xFFFF_FFFF for on.
    pub video: Seq<u32>,
    /// The behaviour switches the machine was built with.
    pub quirks: Quirks,
}

/// The framebuffer word of a lit cell.
pub open spec fn cell_on() -> u32 {
    0xFFFF_FFFF
}

impl CpuView {
    /// Well-formedness: the sequences have their fixed sizes, the program
    /// counter and every stored return address are 12-bit, at most 16 stack
    /// slots are in use, and every framebuffer cell is fully off or fully on.
    pub open spec fn wf(self) -> bool {
        &&& self.regs.len() == 16
        &&& self.mem.len() == 4096
        &&& self.stack.len() == 16
        &&& self.keys.len() == 16
        &&& self.video.len() == 2048
        &&& self.pc < 4096
        &&& self.sp <= 16
        &&& forall|i: int| 0 <= i < 16 ==> self.stack[i] < 4096
        &&& forall|i: int| 0 <= i < 2048 ==> (self.video[i] == 0 || self.video[i] == cell_on())
    }
}

/// The interpreter state. All mutation happens inside the single-step
/// operation, except that the host may set and clear keys between steps.
pub struct Cpu {
    pub(crate) registers: [u8; 16],
    pub(crate) memory: [u8; 4096],
    pub(crate) index: u16,
    pub(crate) program_counter: u16,
    pub(crate) stack: [u16; 16],
    pub(crate) stack_pointer: u16,
    pub(crate) delay_timer: u8,
    pub(crate) sound_timer: u8,
    pub(crate) keypad: [u8; 16],
    pub(crate) video: [u32; 2048],
    pub(crate) quirks: Quirks,
}

impl View for Cpu {
    type V = CpuView;

    open(crate) spec fn view(&self) -> CpuView {
        CpuView {
            regs: self.registers@,
            mem: self.memory@,
            index: self.index,
            pc: self.program_counter,
            stack: self.stack@,
            sp: self.stack_pointer,
            delay: self.delay_timer,
            sound: self.sound_timer,
            keys: self.keypad@,
            video: self.video@,
            quirks: self.quirks,
        }
    }
}

/// The five sprite rows of hexadecimal digit `d`.
pub open spec fn glyph_sprite(d: int) -> Seq<u8> {
    if d == 0x0 {
        seq![0xF0u8, 0x90, 0x90, 0x90, 0xF0]
    } else if d == 0x1 {
        seq![0x20u8, 0x60, 0x20, 0x20, 0x70]
    } else if d == 0x2 {
        seq![0xF0u8, 0x10, 0xF0, 0x80, 0xF0]
    } else if d == 0x3 {
        seq![0xF0u8, 0x10, 0xF0, 0x10, 0xF0]
    } else if d == 0x4 {
        seq![0x90u8, 0x90, 0xF0, 0x10, 0x10]
    } else if d == 0x5 {
        seq![0xF0u8, 0x80, 0xF0, 0x10, 0xF0]
    } else if d == 0x6 {
        seq![0xF0u8, 0x80, 0xF0, 0x90, 0xF0]
    } else if d == 0x7 {
        seq![0xF0u8, 0x10, 0x20, 0x40, 0x40]
    } else if d == 0x8 {
        seq![0xF0u8, 0x90, 0xF0, 0x90, 0xF0]
    } else if d == 0x9 {
        seq![0xF0u8, 0x90, 0xF0, 0x10, 0xF0]
    } else if d == 0xA {
        seq![0xF0u8, 0x90, 0xF0, 0x90, 0x90]
    } else if d == 0xB {
        seq![0xE0u8, 0x90, 0xE0, 0x90, 0xE0]
    } else if d == 0xC {
        seq![0xF0u8, 0x80, 0x80, 0x80, 0xF0]
    } else if d == 0xD {
        seq![0xE0u8, 0x90, 0x90, 0x90, 0xE0]
    } else if d == 0xE {
        seq![0xF0u8, 0x80, 0xF0, 0x80, 0xF0]
    } else {
        seq![0xF0u8, 0x80, 0xF0, 0x80, 0x80]
    }
}

/// The 80-byte glyph table: 16 hexadecimal digit sprites of 5 bytes each.
pub open spec fn spec_fontset() -> Seq<u8> {
    Seq::new(80, |i: int| glyph_sprite(i / 5)[i % 5])
}

/// Indexing the glyph table by digit and row.
pub proof fn lemma_fontset_index(d: int, k: int)
    requires
        0 <= d < 16,
        0 <= k < 5,
    ensures
        spec_fontset()[5 * d + k] == glyph_sprite(d)[k],
{
    assert((5 * d + k) / 5 == d && (5 * d + k) % 5 == k) by (nonlinear_arith)
        requires
            0 <= d < 16 && 0 <= k < 5,
    ;
}

/// The memory image of a freshly built machine: the glyph table at 0x50,
/// the program at 0x200, zero elsewhere.
pub open spec fn spec_initial_memory(rom: Seq<u8>) -> Seq<u8> {
    Seq::new(
        4096,
        |a: int|
            if 0x50 <= a < 0x50 + 80 {
                spec_fontset()[a - 0x50]
            } else if 0x200 <= a < 0x200 + rom.len() {
                rom[a - 0x200]
            } else {
                0u8
            },
    )
}

/// The state of a freshly built machine: initial memory image, all registers,
/// timers, keys and cells zero, the program counter at the program start.
pub open spec fn spec_new(rom: Seq<u8>, quirks: Quirks) -> CpuView {
    CpuView {
        regs: Seq::new(16, |i: int| 0u8),
        mem: spec_initial_memory(rom),
        index: 0,
        pc: START_ADDRESS,
        stack: Seq::new(16, |i: int| 0u16),
        sp: 0,
        delay: 0,
        sound: 0,
        keys: Seq::new(16, |i: int| 0u8),
        video: Seq::new(2048, |i: int| 0u32),
        quirks,
    }
}

impl Cpu {
    /// One row of the glyph table, as data.
    fn glyph_bytes(d: usize) -> (g: [u8; 5])
        requires
            d < 16,
        ensures
            g@ == glyph_sprite(d as int),
    {
        let g: [u8; 5] = if d == 0x0 {
            [0xF0, 0x90, 0x90, 0x90, 0xF0]
        } else if d == 0x1 {
            [0x20, 0x60, 0x20, 0x20, 0x70]
        } else if d == 0x2 {
            [0xF0, 0x10, 0xF0, 0x80, 0xF0]
        } else if d == 0x3 {
            [0xF0, 0x10, 0xF0, 0x10, 0xF0]
        } else if d == 0x4 {
            [0x90, 0x90, 0xF0, 0x10, 0x10]
        } else if d == 0x5 {
            [0xF0, 0x80, 0xF0, 0x10, 0xF0]
        } else if d == 0x6 {
            [0xF0, 0x80, 0xF0, 0x90, 0xF0]
        } else if d == 0x7 {
            [0xF0, 0x10, 0x20, 0x40, 0x40]
        } else if d == 0x8 {
            [0xF0, 0x90, 0xF0, 0x90, 0xF0]
        } else if d == 0x9 {
            [0xF0, 0x90, 0xF0, 0x10, 0xF0]
        } else if d == 0xA {
            [0xF0, 0x90, 0xF0, 0x90, 0x90]
        } else if d == 0xB {
            [0xE0, 0x90, 0xE0, 0x90, 0xE0]
        } else if d == 0xC {
            [0xF0, 0x80, 0x80, 0x80, 0xF0]
        } else if d == 0xD {
            [0xE0, 0x90, 0x90, 0x90, 0xE0]
        } else if d == 0xE {
            [0xF0, 0x80, 0xF0, 0x80, 0xF0]
        } else {
            [0xF0, 0x80, 0xF0, 0x80, 0x80]
        };
        proof {
            assert(g@ =~= glyph_sprite(d as int));
        }
        g
    }

    /// Build a machine with explicit behaviour switches. The program bytes
    /// must fit between the program start and the end of memory; checking
    /// that is the host's job.
    pub fn with_quirks(rom: &[u8], quirks: Quirks) -> (cpu: Cpu)
        requires
            rom@.len() <= 4096 - START_ADDRESS,
        ensures
            cpu@ == spec_new(rom@, quirks),
            cpu@.wf(),
    {
        let mut memory: [u8; 4096] = [0; 4096];

        // Load the program at 0x200 onward.
        let mut i: usize = 0;
        while i < rom.len()
            invariant
                i <= rom.len(),
                rom@.len() <= 4096 - START_ADDRESS,
                memory@.len() == 4096,
                forall|a: int|
                    0x200 <= a < 0x200 + i ==> memory@[a] == rom@[a - 0x200],
                forall|a: int|
                    0 <= a < 4096 && !(0x200 <= a < 0x200 + i) ==> memory@[a] == 0,
            decreases rom.len() - i,
        {
            memory[0x200 + i] = rom[i];
            i = i + 1;
        }

        // Load the glyph table at 0x50.
        let mut d: usize = 0;
        while d < 16
            invariant
                d <= 16,
                rom@.len() <= 4096 - START_ADDRESS,
                memory@.len() == 4096,
                forall|a: int|
                    0x50 <= a < 0x50 + 5 * d ==> memory@[a] == spec_fontset()[a - 0x50],
                forall|a: int|
                    0x200 <= a < 0x200 + rom@.len() ==> memory@[a] == rom@[a - 0x200],
                forall|a: int|
                    0 <= a < 4096 && !(0x200 <= a < 0x200 + rom@.len()) && !(0x50 <= a < 0x50 + 5 * d)
                        ==> memory@[a] == 0,
            decreases 16 - d,
        {
            let g = Self::glyph_bytes(d);
            let mut k: usize = 0;
            while k < 5
                invariant
                    d < 16,
                    k <= 5,
                    rom@.len() <= 4096 - START_ADDRESS,
                    memory@.len() == 4096,
                    g@ == glyph_sprite(d as int),
                    forall|a: int|
                        0x50 <= a < 0x50 + 5 * d + k ==> memory@[a] == spec_fontset()[a - 0x50],
                    forall|a: int|
                        0x200 <= a < 0x200 + rom@.len() ==> memory@[a] == rom@[a - 0x200],
                    forall|a: int|
                        0 <= a < 4096 && !(0x200 <= a < 0x200 + rom@.len())
                            && !(0x50 <= a < 0x50 + 5 * d + k) ==> memory@[a] == 0,
                decreases 5 - k,
            {
                proof {
                    lemma_fontset_index(d as int, k as int);
                }
                memory[0x50 + 5 * d + k] = g[k];
                k = k + 1;
            }
            d = d + 1;
        }

        let cpu = Cpu {
            registers: [0; 16],
            memory,
            index: 0,
            program_counter: START_ADDRESS,
            stack: [0; 16],
            stack_pointer: 0,
            delay_timer: 0,
            sound_timer: 0,
            keypad: [0; 16],
            video: [0; 2048],
            quirks,
        };
        proof {
            assert(cpu@.mem =~= spec_initial_memory(rom@));
            assert(cpu@.regs =~= spec_new(rom@, quirks).regs);
            assert(cpu@.stack =~= spec_new(rom@, quirks).stack);
            assert(cpu@.keys =~= spec_new(rom@, quirks).keys);
            assert(cpu@.video =~= spec_new(rom@, quirks).video);
            assert(cpu@ =~= spec_new(rom@, quirks));
        }
        cpu
    }

    /// Build a machine with the default behaviour switches.
    pub fn new(rom: &[u8]) -> (cpu: Cpu)
        requires
            rom@.len() <= 4096 - START_ADDRESS,
        ensures
            cpu@ == spec_new(
                rom@,
                Quirks { shift_flag_low_bit: false, store_load_inclusive: false, draw_clamp: false },
            ),
            cpu@.wf(),
    {
        Self::with_quirks(
            rom,
            Quirks { shift_flag_low_bit: false, store_load_inclusive: false, draw_clamp: false },
        )
    }

    /// The framebuffer as bytes, four per cell, 2048 cells in row-major
    /// order from the top-left corner. Each cell's 32-bit word is split into
    /// the host's channel order: bits 23-16, bits 15-8, bits 7-0, bits 31-24.
    pub fn video(&self) -> (r: Vec<u8>)
        ensures
            r@ == spec_video_bytes(self@.video),
    {
        let mut result: Vec<u8> = Vec::new();

        let mut i: usize = 0;
        while i < 2048
            invariant
                i <= 2048,
                self@.video.len() == 2048,
                result@.len() == 4 * i,
                forall|j: int|
                    0 <= j < 4 * i ==> result@[j] == cell_byte(self@.video[j / 4], j % 4),
            decreases 2048 - i,
        {
            let rgba: u32 = self.video[i];
            result.push(((rgba >> 16u32) & 0xFF) as u8);
            result.push(((rgba >> 8u32) & 0xFF) as u8);
            result.push((rgba & 0xFF) as u8);
            result.push(((rgba >> 24u32) & 0xFF) as u8);
            proof {
                assert forall|j: int| 4 * i <= j < 4 * (i + 1) implies result@[j] == cell_byte(
                    self@.video[j / 4],
                    j % 4,
                ) by {
                    assert(j / 4 == i && (j == 4 * i + j % 4)) by (nonlinear_arith)
                        requires
                            4 * i <= j < 4 * (i + 1),
                    ;
                }
            }
            i = i + 1;
        }
        proof {
            assert(result@ =~= spec_video_bytes(self@.video));
        }
        result
    }

    /// The key states, 1 for pressed.
    pub fn keypad(&self) -> (k: &[u8; 16])
        ensures
            k@ == self@.keys,
    {
        &self.keypad
    }

    /// Set or clear one key. Keys are owned by the host: the interpreter
    /// itself only reads them.
    pub fn set_key(&mut self, key: usize, pressed: bool)
        requires
            key < 16,
        ensures
            final(self)@ == (CpuView {
                keys: old(self)@.keys.update(key as int, if pressed { 1u8 } else { 0u8 }),
                ..old(self)@
            }),
    {
        self.keypad[key] = if pressed { 1 } else { 0 };
    }

    /// General-purpose register `i`.
    pub fn reg(&self, i: usize) -> (r: u8)
        requires
            i < 16,
        ensures
            r == self@.regs[i as int],
    {
        self.registers[i]
    }

    /// The memory byte at `addr`.
    pub fn mem_byte(&self, addr: usize) -> (b: u8)
        requires
            addr < 4096,
        ensures
            b == self@.mem[addr as int],
    {
        self.memory[addr]
    }

    /// The index register.
    pub fn index_register(&self) -> (r: u16)
        ensures
            r == self@.index,
    {
        self.index
    }

    /// The program counter.
    pub fn pc(&self) -> (r: u16)
        ensures
            r == self@.pc,
    {
        self.program_counter
    }

    /// How many call-stack slots are in use.
    pub fn stack_depth(&self) -> (r: u16)
        ensures
            r == self@.sp,
    {
        self.stack_pointer
    }

    /// The delay timer.
    pub fn delay_timer(&self) -> (r: u8)
        ensures
            r == self@.delay,
    {
        self.delay_timer
    }

    /// The sound timer; the host sounds a tone while it is nonzero.
    pub fn sound_timer(&self) -> (r: u8)
        ensures
            r == self@.sound,
    {
        self.sound_timer
    }

    /// Framebuffer cell `i`, row-major from the top-left corner.
    pub fn video_cell(&self, i: usize) -> (c: u32)
        requires
            i < 2048,
        ensures
            c == self@.video[i as int],
    {
        self.video[i]
    }

    /// The behaviour switches the machine was built with.
    pub fn quirks(&self) -> (q: Quirks)
        ensures
            q == self@.quirks,
    {
        self.quirks
    }

    /// Wrapping byte subtraction: `(lhs - rhs) mod 256`.
    pub fn safe_subtract(lhs: u8, rhs: u8) -> (r: u8)
        ensures
            r == spec_safe_subtract(lhs, rhs),
    {
        if lhs >= rhs {
            lhs - rhs
        } else {
            proof {
                assert((lhs - rhs) % 256 == lhs - rhs + 256) by {
                    assert(-256 < lhs - rhs < 0);
                };
            }
            (256 - (rhs - lhs) as u16) as u8
        }
    }
}

/// Wrapping byte subtraction: `(lhs - rhs) mod 256`.
pub open spec fn spec_safe_subtract(lhs: u8, rhs: u8) -> u8 {
    (((lhs as int) - (rhs as int)) % 256) as u8
}

/// Byte `k` (of four) exported for a framebuffer cell word.
pub open spec fn cell_byte(c: u32, k: int) -> u8 {
    if k == 0 {
        ((c >> 16u32) & 0xFF) as u8
    } else if k == 1 {
        ((c >> 8u32) & 0xFF) as u8
    } else if k == 2 {
        (c & 0xFF) as u8
    } else {
        ((c >> 24u32) & 0xFF) as u8
    }
}

/// The framebuffer export: four bytes per cell, cells in row-major order.
pub open spec fn spec_video_bytes(video: Seq<u32>) -> Seq<u8> {
    Seq::new(4 * video.len(), |j: int| cell_byte(video[j / 4], j % 4))
}

} // verus!
