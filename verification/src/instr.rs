//! The instruction representation consumed by the machine: an immutable value
//! with an opcode, a class derived from the opcode's low bits, a generic
//! operand `k`, and two jump displacements `jt` / `jf` that only jump-class
//! instructions read.

use vstd::prelude::*;

verus! {

/// Instruction class: load group (low three opcode bits).
pub const CLASS_LD: u16 = 0x00;
/// Instruction class: store group.
pub const CLASS_ST: u16 = 0x02;
/// Instruction class: arithmetic group.
pub const CLASS_ALU: u16 = 0x04;
/// Instruction class: jump group.
pub const CLASS_JMP: u16 = 0x05;
/// Instruction class: return group.
pub const CLASS_RET: u16 = 0x06;
/// Instruction class: miscellaneous group.
pub const CLASS_MISC: u16 = 0x07;

/// Operand size selector: a 32-bit word.
pub const SIZE_W: u16 = 0x00;
/// Operand size selector: a 16-bit half-word.
pub const SIZE_H: u16 = 0x08;

/// Addressing mode: the operand `k` is an immediate constant.
pub const MODE_IMM: u16 = 0x00;
/// Addressing mode: the operand `k` is an absolute packet offset.
pub const MODE_ABS: u16 = 0x20;
/// Addressing mode: the packet offset is `index + k`.
pub const MODE_IND: u16 = 0x40;

/// Verdict source selector for return instructions: the operand `k`.
pub const RVAL_K: u16 = 0x00;
/// Verdict source selector for return instructions: the accumulator.
pub const RVAL_A: u16 = 0x10;

/// Load the immediate constant `k` into the accumulator.
pub const LDI: u16 = 0x00;
/// Load the big-endian word at absolute packet offset `k`.
pub const LDW: u16 = 0x20;
/// Load the big-endian half-word at absolute packet offset `k`.
pub const LDH: u16 = 0x28;
/// Load the big-endian word at indexed packet offset `index + k`.
pub const LDWI: u16 = 0x40;
/// Load the big-endian half-word at indexed packet offset `index + k`.
pub const LDHI: u16 = 0x48;
/// Branch: advance the frame by `jt` if the accumulator is zero, else by `jf`.
pub const JMP: u16 = 0x05;
/// Terminate the run with the operand `k` as the verdict.
pub const RETK: u16 = 0x06;
/// Terminate the run with the accumulator as the verdict.
pub const RETA: u16 = 0x16;

/// One machine instruction. The machine never mutates an instruction; it
/// dispatches on `opcode`, reads `k` as an immediate or an offset depending on
/// the opcode, and reads `jt` / `jf` only when the class is [`CLASS_JMP`].
#[derive(Clone, Copy, Debug)]
pub struct Instruction {
    /// Selects the exact operation.
    pub opcode: u16,
    /// Frame displacement when a jump's zero-test holds.
    pub jt: u8,
    /// Frame displacement when a jump's zero-test fails.
    pub jf: u8,
    /// Generic operand: immediate constant or packet offset.
    pub k: u32,
}

/// The class of an opcode: its low three bits.
pub open spec fn class_of(opcode: u16) -> u16 {
    opcode % 8
}

impl Instruction {
    /// Builds an instruction from its four fields.
    pub fn new(opcode: u16, jt: u8, jf: u8, k: u32) -> (r: Instruction)
        ensures
            r == (Instruction { opcode, jt, jf, k }),
    {
        Instruction { opcode, jt, jf, k }
    }

    /// The coarse class of this instruction, derived from its opcode; the
    /// machine selects the frame-advancement rule by it.
    pub fn class(&self) -> (r: u16)
        ensures
            r == class_of(self.opcode),
    {
        self.opcode % 8
    }
}

} // verus!
