//! The closed instruction set: typed operations, decode from the four
//! 4-bit operand fields of a fetched two-byte instruction, and the fatal
//! conditions that abort a run.

use vstd::prelude::*;

verus! {

/// A fatal condition. The interpreter has no recovery path: every fault
/// ends the run.
#[derive(Clone, Copy, Debug, PartialEq, Eq, Structural)]
pub enum Fault {
    /// The fetched instruction matches no pattern of the instruction set.
    InvalidOpcode,
    /// The instruction is the deprecated call-to-native-routine pattern,
    /// which is not implemented.
    DeprecatedOpcode,
    /// A call was executed with the stack at full depth.
    StackOverflow,
    /// A return was executed with an empty stack.
    StackUnderflow,
    /// A memory access (fetch, sprite read, register store/load or
    /// digit store) reaches past the end of memory.
    OutOfBounds,
}

/// One decoded instruction, carrying its extracted operand fields.
/// `x` and `y` name registers, `nnn`/`nn`/`n` are immediates.
#[derive(Clone, Copy, Debug, PartialEq, Eq, Structural)]
pub enum Instr {
    /// `00E0`: clear the display buffer.
    Cls,
    /// `00EE`: pop a return address into the program counter.
    Ret,
    /// `1nnn`: jump to `nnn`.
    Jump(u16),
    /// `2nnn`: push the program counter, then jump to `nnn`.
    Call(u16),
    /// `3xnn`: skip the next instruction if register `x` equals `nn`.
    SkipEqImm(usize, u8),
    /// `4xnn`: skip the next instruction if register `x` differs from `nn`.
    SkipNeImm(usize, u8),
    /// `5xy0`: skip the next instruction if registers `x` and `y` are equal.
    SkipEqReg(usize, usize),
    /// `6xnn`: set register `x` to `nn`.
    SetImm(usize, u8),
    /// `7xnn`: add `nn` to register `x`, wrapping; no flag side effect.
    AddImm(usize, u8),
    /// `8xy0`: copy register `y` into register `x`.
    Mov(usize, usize),
    /// `8xy1`: bitwise OR of registers `x` and `y` into `x`.
    Or(usize, usize),
    /// `8xy2`: bitwise AND of registers `x` and `y` into `x`.
    And(usize, usize),
    /// `8xy3`: bitwise XOR of registers `x` and `y` into `x`.
    Xor(usize, usize),
    /// `8xy4`: wrapping sum into `x`; register 15 becomes the carry.
    Add(usize, usize),
    /// `8xy5`: wrapping difference into `x`; register 15 becomes 1 when
    /// the signed difference is negative.
    Sub(usize, usize),
    /// `8xy6`: register 15 takes the low bit of `x`, then `x` shifts right.
    Shr(usize),
    /// `8xyE`: register 15 takes the raw masked high bit of `x`, then `x`
    /// shifts left, wrapping.
    Shl(usize),
    /// `9xy0`: skip the next instruction if registers `x` and `y` differ.
    SkipNeReg(usize, usize),
    /// `Annn`: set the index register to `nnn`.
    SetIndex(u16),
    /// `Bnnn`: jump to `nnn` plus register 0.
    JumpV0(u16),
    /// `Cxnn`: set register `x` to a random byte ANDed with `nn`.
    Rand(usize, u8),
    /// `Dxyn`: XOR an `n`-byte sprite from memory at the index register
    /// onto the display at (register `x`, register `y`).
    Draw(usize, usize, usize),
    /// `Ex9E`: skip the next instruction if the key named by register `x`
    /// is pressed.
    SkipKey(usize),
    /// `ExA1`: skip the next instruction if the key named by register `x`
    /// is not pressed.
    SkipNoKey(usize),
    /// `Fx07`: read the delay timer into register `x`.
    GetDelay(usize),
    /// `Fx15`: set the delay timer from register `x`.
    SetDelay(usize),
    /// `Fx18`: set the sound timer from register `x`.
    SetSound(usize),
    /// `Fx1E`: add register `x` to the index register, wrapping at 16 bits.
    AddIndex(usize),
    /// `Fn29`: point the index register at the font glyph for digit `n`.
    Font(usize),
    /// `Fx33`: store the decimal digits of register `x` at the index
    /// register and the two bytes after it.
    Bcd(usize),
    /// `Fx55`: store registers 0 through `x` into memory at the index
    /// register.
    Store(usize),
    /// `Fx65`: load registers 0 through `x` from memory at the index
    /// register.
    Load(usize),
}

/// The instruction table as a function of the four operand fields
/// `(n0, n1, n2, n3)` of a fetched instruction: the decoded instruction,
/// or the fault for a pattern outside the set.
pub open spec fn spec_decode(op: (u8, usize, usize, usize)) -> Result<Instr, Fault> {
    let (n0, n1, n2, n3) = op;
    if n0 == 0x0 {
        if n1 == 0x0 && n2 == 0xE && n3 == 0x0 {
            Ok(Instr::Cls)
        } else if n1 == 0x0 && n2 == 0xE && n3 == 0xE {
            Ok(Instr::Ret)
        } else {
            Err(Fault::DeprecatedOpcode)
        }
    } else if n0 == 0x1 {
        Ok(Instr::Jump(addr_of(n1, n2, n3)))
    } else if n0 == 0x2 {
        Ok(Instr::Call(addr_of(n1, n2, n3)))
    } else if n0 == 0x3 {
        Ok(Instr::SkipEqImm(n1, imm_of(n2, n3)))
    } else if n0 == 0x4 {
        Ok(Instr::SkipNeImm(n1, imm_of(n2, n3)))
    } else if n0 == 0x5 && n3 == 0x0 {
        Ok(Instr::SkipEqReg(n1, n2))
    } else if n0 == 0x6 {
        Ok(Instr::SetImm(n1, imm_of(n2, n3)))
    } else if n0 == 0x7 {
        Ok(Instr::AddImm(n1, imm_of(n2, n3)))
    } else if n0 == 0x8 && n3 == 0x0 {
        Ok(Instr::Mov(n1, n2))
    } else if n0 == 0x8 && n3 == 0x1 {
        Ok(Instr::Or(n1, n2))
    } else if n0 == 0x8 && n3 == 0x2 {
        Ok(Instr::And(n1, n2))
    } else if n0 == 0x8 && n3 == 0x3 {
        Ok(Instr::Xor(n1, n2))
    } else if n0 == 0x8 && n3 == 0x4 {
        Ok(Instr::Add(n1, n2))
    } else if n0 == 0x8 && n3 == 0x5 {
        Ok(Instr::Sub(n1, n2))
    } else if n0 == 0x8 && n3 == 0x6 {
        Ok(Instr::Shr(n1))
    } else if n0 == 0x8 && n3 == 0xE {
        Ok(Instr::Shl(n1))
    } else if n0 == 0x9 && n3 == 0x0 {
        Ok(Instr::SkipNeReg(n1, n2))
    } else if n0 == 0xA {
        Ok(Instr::SetIndex(addr_of(n1, n2, n3)))
    } else if n0 == 0xB {
        Ok(Instr::JumpV0(addr_of(n1, n2, n3)))
    } else if n0 == 0xC {
        Ok(Instr::Rand(n1, imm_of(n2, n3)))
    } else if n0 == 0xD {
        Ok(Instr::Draw(n1, n2, n3))
    } else if n0 == 0xE && n2 == 0x9 && n3 == 0xE {
        Ok(Instr::SkipKey(n1))
    } else if n0 == 0xE && n2 == 0xA && n3 == 0x1 {
        Ok(Instr::SkipNoKey(n1))
    } else if n0 == 0xF && n2 == 0x0 && n3 == 0x7 {
        Ok(Instr::GetDelay(n1))
    } else if n0 == 0xF && n2 == 0x1 && n3 == 0x5 {
        Ok(Instr::SetDelay(n1))
    } else if n0 == 0xF && n2 == 0x1 && n3 == 0x8 {
        Ok(Instr::SetSound(n1))
    } else if n0 == 0xF && n2 == 0x1 && n3 == 0xE {
        Ok(Instr::AddIndex(n1))
    } else if n0 == 0xF && n2 == 0x2 && n3 == 0x9 {
        Ok(Instr::Font(n1))
    } else if n0 == 0xF && n2 == 0x3 && n3 == 0x3 {
        Ok(Instr::Bcd(n1))
    } else if n0 == 0xF && n2 == 0x5 && n3 == 0x5 {
        Ok(Instr::Store(n1))
    } else if n0 == 0xF && n2 == 0x6 && n3 == 0x5 {
        Ok(Instr::Load(n1))
    } else {
        Err(Fault::InvalidOpcode)
    }
}

/// The 12-bit address spelled by three operand fields.
pub open spec fn addr_of(n1: usize, n2: usize, n3: usize) -> u16 {
    (n1 * 256 + n2 * 16 + n3) as u16
}

/// The 8-bit immediate spelled by two operand fields.
pub open spec fn imm_of(n2: usize, n3: usize) -> u8 {
    (n2 * 16 + n3) as u8
}

/// Operand fields within range: every field a nibble, as `fetch_op`
/// produces them.
pub open spec fn op_wf(op: (u8, usize, usize, usize)) -> bool {
    op.0 < 16 && op.1 < 16 && op.2 < 16 && op.3 < 16
}

/// Matches the operand fields against the instruction table.
pub fn decode(op: (u8, usize, usize, usize)) -> (r: Result<Instr, Fault>)
    requires
        op_wf(op),
    ensures
        r == spec_decode(op),
{
    match op {
        (0x0, 0x0, 0xE, 0x0) => Ok(Instr::Cls),
        (0x0, 0x0, 0xE, 0xE) => Ok(Instr::Ret),
        (0x0, _, _, _) => Err(Fault::DeprecatedOpcode),
        (0x1, n1, n2, n3) => Ok(Instr::Jump(crate::state::Cpu::n3u16(n1, n2, n3))),
        (0x2, n1, n2, n3) => Ok(Instr::Call(crate::state::Cpu::n3u16(n1, n2, n3))),
        (0x3, vx, n1, n2) => Ok(Instr::SkipEqImm(vx, crate::state::Cpu::n2u8(n1, n2))),
        (0x4, vx, n1, n2) => Ok(Instr::SkipNeImm(vx, crate::state::Cpu::n2u8(n1, n2))),
        (0x5, vx, vy, 0x0) => Ok(Instr::SkipEqReg(vx, vy)),
        (0x6, vx, n1, n2) => Ok(Instr::SetImm(vx, crate::state::Cpu::n2u8(n1, n2))),
        (0x7, vx, n1, n2) => Ok(Instr::AddImm(vx, crate::state::Cpu::n2u8(n1, n2))),
        (0x8, vx, vy, 0x0) => Ok(Instr::Mov(vx, vy)),
        (0x8, vx, vy, 0x1) => Ok(Instr::Or(vx, vy)),
        (0x8, vx, vy, 0x2) => Ok(Instr::And(vx, vy)),
        (0x8, vx, vy, 0x3) => Ok(Instr::Xor(vx, vy)),
        (0x8, vx, vy, 0x4) => Ok(Instr::Add(vx, vy)),
        (0x8, vx, vy, 0x5) => Ok(Instr::Sub(vx, vy)),
        (0x8, vx, _, 0x6) => Ok(Instr::Shr(vx)),
        (0x8, vx, _, 0xE) => Ok(Instr::Shl(vx)),
        (0x9, vx, vy, 0x0) => Ok(Instr::SkipNeReg(vx, vy)),
        (0xA, n1, n2, n3) => Ok(Instr::SetIndex(crate::state::Cpu::n3u16(n1, n2, n3))),
        (0xB, n1, n2, n3) => Ok(Instr::JumpV0(crate::state::Cpu::n3u16(n1, n2, n3))),
        (0xC, vx, n1, n2) => Ok(Instr::Rand(vx, crate::state::Cpu::n2u8(n1, n2))),
        (0xD, vx, vy, n) => Ok(Instr::Draw(vx, vy, n)),
        (0xE, vx, 0x9, 0xE) => Ok(Instr::SkipKey(vx)),
        (0xE, vx, 0xA, 0x1) => Ok(Instr::SkipNoKey(vx)),
        (0xF, vx, 0x0, 0x7) => Ok(Instr::GetDelay(vx)),
        (0xF, vx, 0x1, 0x5) => Ok(Instr::SetDelay(vx)),
        (0xF, vx, 0x1, 0x8) => Ok(Instr::SetSound(vx)),
        (0xF, vx, 0x1, 0xE) => Ok(Instr::AddIndex(vx)),
        (0xF, n, 0x2, 0x9) => Ok(Instr::Font(n)),
        (0xF, vx, 0x3, 0x3) => Ok(Instr::Bcd(vx)),
        (0xF, vx, 0x5, 0x5) => Ok(Instr::Store(vx)),
        (0xF, vx, 0x6, 0x5) => Ok(Instr::Load(vx)),
        _ => Err(Fault::InvalidOpcode),
    }
}

/// Operand ranges that a decoded instruction carries: register indices
/// and the sprite height are nibbles, addresses are 12 bits.
pub open spec fn instr_wf(instr: Instr) -> bool {
    match instr {
        Instr::Cls => true,
        Instr::Ret => true,
        Instr::Jump(nnn) => nnn < 4096,
        Instr::Call(nnn) => nnn < 4096,
        Instr::SkipEqImm(x, _) => x < 16,
        Instr::SkipNeImm(x, _) => x < 16,
        Instr::SkipEqReg(x, y) => x < 16 && y < 16,
        Instr::SetImm(x, _) => x < 16,
        Instr::AddImm(x, _) => x < 16,
        Instr::Mov(x, y) => x < 16 && y < 16,
        Instr::Or(x, y) => x < 16 && y < 16,
        Instr::And(x, y) => x < 16 && y < 16,
        Instr::Xor(x, y) => x < 16 && y < 16,
        Instr::Add(x, y) => x < 16 && y < 16,
        Instr::Sub(x, y) => x < 16 && y < 16,
        Instr::Shr(x) => x < 16,
        Instr::Shl(x) => x < 16,
        Instr::SkipNeReg(x, y) => x < 16 && y < 16,
        Instr::SetIndex(nnn) => nnn < 4096,
        Instr::JumpV0(nnn) => nnn < 4096,
        Instr::Rand(x, _) => x < 16,
        Instr::Draw(x, y, n) => x < 16 && y < 16 && n < 16,
        Instr::SkipKey(x) => x < 16,
        Instr::SkipNoKey(x) => x < 16,
        Instr::GetDelay(x) => x < 16,
        Instr::SetDelay(x) => x < 16,
        Instr::SetSound(x) => x < 16,
        Instr::AddIndex(x) => x < 16,
        Instr::Font(n) => n < 16,
        Instr::Bcd(x) => x < 16,
        Instr::Store(x) => x < 16,
        Instr::Load(x) => x < 16,
    }
}

/// Whatever the table decodes from in-range operand fields is itself
/// in range.
pub proof fn lemma_decode_wf(op: (u8, usize, usize, usize))
    requires
        op_wf(op),
    ensures
        spec_decode(op) matches Ok(instr) ==> instr_wf(instr),
{
}

} // verus!
