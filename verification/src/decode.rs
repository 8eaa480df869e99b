//! Instruction decoding: a 16-bit word, assembled big-endian from two memory
//! bytes, is split into nibbles and matched against the fixed opcode table.
//! A word that matches no pattern decodes to `Null`, an intentional no-op:
//! decoding never fails, so programs may freely contain data words.

use vstd::prelude::*;

verus! {

/// One decoded operation. Each variant carries the original instruction word,
/// from which the operand fields (register indices, immediate byte, address)
/// are extracted at execution time.
#[derive(Clone, Copy, Debug, PartialEq, Eq, Structural)]
pub enum Operation {
    Cls00E0(u16),
    Ret00EE(u16),
    Jp1nnn(u16),
    Call2nnn(u16),
    Se3xkk(u16),
    Sne4xkk(u16),
    Se5xy0(u16),
    Ld6xkk(u16),
    Add7xkk(u16),
    Ld8xy0(u16),
    Or8xy1(u16),
    And8xy2(u16),
    Xor8xy3(u16),
    Add8xy4(u16),
    Sub8xy5(u16),
    Shr8xy6(u16),
    Subn8xy7(u16),
    Shl8xyE(u16),
    Sne9xy0(u16),
    LdAnnn(u16),
    JpBnnn(u16),
    RndCxkk(u16),
    DrwDxyn(u16),
    SkpEx9e(u16),
    SknpExA1(u16),
    LdFx07(u16),
    LdFx0a(u16),
    LdFx15(u16),
    LdFx18(u16),
    AddFx1e(u16),
    LdFx29(u16),
    LdFx33(u16),
    LdFx55(u16),
    LdFx65(u16),
    Null(u16),
}

/// The first source register index: nibble 2 of the word.
pub open spec fn op_x(w: u16) -> u16 {
    (w & 0x0F00) >> 8
}

/// The second source register index: nibble 3 of the word.
pub open spec fn op_y(w: u16) -> u16 {
    (w & 0x00F0) >> 4
}

/// The low nibble: the sprite height of the draw instruction.
pub open spec fn op_n(w: u16) -> u16 {
    w & 0x000F
}

/// The immediate byte: the low two nibbles.
pub open spec fn op_kk(w: u16) -> u8 {
    (w & 0x00FF) as u8
}

/// The 12-bit address field: the low three nibbles.
pub open spec fn op_nnn(w: u16) -> u16 {
    w & 0x0FFF
}

/// The operand fields sit inside fixed bit ranges of the word.
pub proof fn lemma_operand_bounds(w: u16)
    by (bit_vector)
    ensures
        op_x(w) < 16,
        op_y(w) < 16,
        op_n(w) < 16,
        op_nnn(w) < 4096,
{
}

/// The low nibble of a byte is a value below 16.
pub proof fn lemma_low_nibble_bound(b: u8)
    by (bit_vector)
    ensures
        b & 0x0F < 16,
{
}

/// Extract the first source register index of a word.
pub fn reg_index_x(w: u16) -> (x: usize)
    ensures
        x == op_x(w),
        x < 16,
{
    proof {
        lemma_operand_bounds(w);
    }
    ((w & 0x0F00) >> 8) as usize
}

/// Extract the second source register index of a word.
pub fn reg_index_y(w: u16) -> (y: usize)
    ensures
        y == op_y(w),
        y < 16,
{
    proof {
        lemma_operand_bounds(w);
    }
    ((w & 0x00F0) >> 4) as usize
}

/// Extract the low nibble of a word.
pub fn low_nibble(w: u16) -> (n: usize)
    ensures
        n == op_n(w),
        n < 16,
{
    proof {
        lemma_operand_bounds(w);
    }
    (w & 0x000F) as usize
}

/// Extract the immediate byte of a word.
pub fn imm_byte(w: u16) -> (kk: u8)
    ensures
        kk == op_kk(w),
{
    (w & 0x00FF) as u8
}

/// Extract the 12-bit address field of a word.
pub fn addr_field(w: u16) -> (a: u16)
    ensures
        a == op_nnn(w),
        a < 4096,
{
    proof {
        lemma_operand_bounds(w);
    }
    w & 0x0FFF
}

/// The opcode table: nibble patterns to operations, wildcards left open.
pub open spec fn spec_decode(w: u16) -> Operation {
    let n1 = (w & 0xF000) >> 12;
    let n2 = (w & 0x0F00) >> 8;
    let n3 = (w & 0x00F0) >> 4;
    let n4 = w & 0x000F;
    if n1 == 0x0 && n2 == 0x0 && n3 == 0xE && n4 == 0x0 {
        Operation::Cls00E0(w)
    } else if n1 == 0x0 && n2 == 0x0 && n3 == 0xE && n4 == 0xE {
        Operation::Ret00EE(w)
    } else if n1 == 0x1 {
        Operation::Jp1nnn(w)
    } else if n1 == 0x2 {
        Operation::Call2nnn(w)
    } else if n1 == 0x3 {
        Operation::Se3xkk(w)
    } else if n1 == 0x4 {
        Operation::Sne4xkk(w)
    } else if n1 == 0x5 && n4 == 0x0 {
        Operation::Se5xy0(w)
    } else if n1 == 0x6 {
        Operation::Ld6xkk(w)
    } else if n1 == 0x7 {
        Operation::Add7xkk(w)
    } else if n1 == 0x8 && n4 == 0x0 {
        Operation::Ld8xy0(w)
    } else if n1 == 0x8 && n4 == 0x1 {
        Operation::Or8xy1(w)
    } else if n1 == 0x8 && n4 == 0x2 {
        Operation::And8xy2(w)
    } else if n1 == 0x8 && n4 == 0x3 {
        Operation::Xor8xy3(w)
    } else if n1 == 0x8 && n4 == 0x4 {
        Operation::Add8xy4(w)
    } else if n1 == 0x8 && n4 == 0x5 {
        Operation::Sub8xy5(w)
    } else if n1 == 0x8 && n4 == 0x6 {
        Operation::Shr8xy6(w)
    } else if n1 == 0x8 && n4 == 0x7 {
        Operation::Subn8xy7(w)
    } else if n1 == 0x8 && n4 == 0xE {
        Operation::Shl8xyE(w)
    } else if n1 == 0x9 && n4 == 0x0 {
        Operation::Sne9xy0(w)
    } else if n1 == 0xA {
        Operation::LdAnnn(w)
    } else if n1 == 0xB {
        Operation::JpBnnn(w)
    } else if n1 == 0xC {
        Operation::RndCxkk(w)
    } else if n1 == 0xD {
        Operation::DrwDxyn(w)
    } else if n1 == 0xE && n3 == 0x9 && n4 == 0xE {
        Operation::SkpEx9e(w)
    } else if n1 == 0xE && n3 == 0xA && n4 == 0x1 {
        Operation::SknpExA1(w)
    } else if n1 == 0xF && n3 == 0x0 && n4 == 0x7 {
        Operation::LdFx07(w)
    } else if n1 == 0xF && n3 == 0x0 && n4 == 0xA {
        Operation::LdFx0a(w)
    } else if n1 == 0xF && n3 == 0x1 && n4 == 0x5 {
        Operation::LdFx15(w)
    } else if n1 == 0xF && n3 == 0x1 && n4 == 0x8 {
        Operation::LdFx18(w)
    } else if n1 == 0xF && n3 == 0x1 && n4 == 0xE {
        Operation::AddFx1e(w)
    } else if n1 == 0xF && n3 == 0x2 && n4 == 0x9 {
        Operation::LdFx29(w)
    } else if n1 == 0xF && n3 == 0x3 && n4 == 0x3 {
        Operation::LdFx33(w)
    } else if n1 == 0xF && n3 == 0x5 && n4 == 0x5 {
        Operation::LdFx55(w)
    } else if n1 == 0xF && n3 == 0x6 && n4 == 0x5 {
        Operation::LdFx65(w)
    } else {
        Operation::Null(w)
    }
}

/// Decode one instruction word.
pub fn decode(word: u16) -> (op: Operation)
    ensures
        op == spec_decode(word),
{
    let n1: u16 = (word & 0xF000) >> 12;
    let n2: u16 = (word & 0x0F00) >> 8;
    let n3: u16 = (word & 0x00F0) >> 4;
    let n4: u16 = word & 0x000F;
    if n1 == 0x0 && n2 == 0x0 && n3 == 0xE && n4 == 0x0 {
        Operation::Cls00E0(word)
    } else if n1 == 0x0 && n2 == 0x0 && n3 == 0xE && n4 == 0xE {
        Operation::Ret00EE(word)
    } else if n1 == 0x1 {
        Operation::Jp1nnn(word)
    } else if n1 == 0x2 {
        Operation::Call2nnn(word)
    } else if n1 == 0x3 {
        Operation::Se3xkk(word)
    } else if n1 == 0x4 {
        Operation::Sne4xkk(word)
    } else if n1 == 0x5 && n4 == 0x0 {
        Operation::Se5xy0(word)
    } else if n1 == 0x6 {
        Operation::Ld6xkk(word)
    } else if n1 == 0x7 {
        Operation::Add7xkk(word)
    } else if n1 == 0x8 && n4 == 0x0 {
        Operation::Ld8xy0(word)
    } else if n1 == 0x8 && n4 == 0x1 {
        Operation::Or8xy1(word)
    } else if n1 == 0x8 && n4 == 0x2 {
        Operation::And8xy2(word)
    } else if n1 == 0x8 && n4 == 0x3 {
        Operation::Xor8xy3(word)
    } else if n1 == 0x8 && n4 == 0x4 {
        Operation::Add8xy4(word)
    } else if n1 == 0x8 && n4 == 0x5 {
        Operation::Sub8xy5(word)
    } else if n1 == 0x8 && n4 == 0x6 {
        Operation::Shr8xy6(word)
    } else if n1 == 0x8 && n4 == 0x7 {
        Operation::Subn8xy7(word)
    } else if n1 == 0x8 && n4 == 0xE {
        Operation::Shl8xyE(word)
    } else if n1 == 0x9 && n4 == 0x0 {
        Operation::Sne9xy0(word)
    } else if n1 == 0xA {
        Operation::LdAnnn(word)
    } else if n1 == 0xB {
        Operation::JpBnnn(word)
    } else if n1 == 0xC {
        Operation::RndCxkk(word)
    } else if n1 == 0xD {
        Operation::DrwDxyn(word)
    } else if n1 == 0xE && n3 == 0x9 && n4 == 0xE {
        Operation::SkpEx9e(word)
    } else if n1 == 0xE && n3 == 0xA && n4 == 0x1 {
        Operation::SknpExA1(word)
    } else if n1 == 0xF && n3 == 0x0 && n4 == 0x7 {
        Operation::LdFx07(word)
    } else if n1 == 0xF && n3 == 0x0 && n4 == 0xA {
        Operation::LdFx0a(word)
    } else if n1 == 0xF && n3 == 0x1 && n4 == 0x5 {
        Operation::LdFx15(word)
    } else if n1 == 0xF && n3 == 0x1 && n4 == 0x8 {
        Operation::LdFx18(word)
    } else if n1 == 0xF && n3 == 0x1 && n4 == 0xE {
        Operation::AddFx1e(word)
    } else if n1 == 0xF && n3 == 0x2 && n4 == 0x9 {
        Operation::LdFx29(word)
    } else if n1 == 0xF && n3 == 0x3 && n4 == 0x3 {
        Operation::LdFx33(word)
    } else if n1 == 0xF && n3 == 0x5 && n4 == 0x5 {
        Operation::LdFx55(word)
    } else if n1 == 0xF && n3 == 0x6 && n4 == 0x5 {
        Operation::LdFx65(word)
    } else {
        Operation::Null(word)
    }
}

} // verus!
