//! The instruction set and the opcode byte of each instruction.

use vstd::prelude::*;

verus! {

/// One operation of the virtual machine.
#[derive(Debug, PartialEq, Eq, Clone, Copy, Structural)]
pub enum Instruction {
    LoadString,
    LoadFloatNum,
    LoadLongNum,
    LoadNum,
    LoadArray,
    PropAccess,
    CallFunc,
    Eval,
    CallBytecodeFunc,
    ReturnBytecodeFunc,
    Copy,
    Exit,
    JumpCond,
    Jump,
    JumpCondNeg,
    LogicAnd,
    LogicOr,
    CompEqual,
    CompNotEqual,
    CompStrictEqual,
    CompStrictNotEqual,
    CompLessThan,
    CompGreaterThan,
    CompLessThanEqual,
    CompGreaterThanEqual,
    Add,
    Minus,
    Mul,
    Div,
}

/// The numeric band that a group of related opcodes shares.
#[derive(Debug, PartialEq, Eq, Clone, Copy, Structural)]
pub enum Band {
    /// Value loading, opcodes 1 to 9.
    Load,
    /// Calls, copies and jumps, opcodes 10 to 19.
    Control,
    /// Logical connectives, opcodes 30 to 39.
    Logic,
    /// Comparisons, opcodes 50 to 59.
    Comparison,
    /// Arithmetic, opcodes from 100 on.
    Arithmetic,
}

impl Band {
    /// The smallest opcode of the band.
    pub open spec fn first(self) -> int {
        match self {
            Band::Load => 1,
            Band::Control => 10,
            Band::Logic => 30,
            Band::Comparison => 50,
            Band::Arithmetic => 100,
        }
    }

    /// The largest opcode of the band.
    pub open spec fn last(self) -> int {
        match self {
            Band::Load => 9,
            Band::Control => 19,
            Band::Logic => 39,
            Band::Comparison => 59,
            Band::Arithmetic => 255,
        }
    }
}

impl Instruction {
    /// The byte that stands for the instruction in the byte stream. The
    /// table is part of the wire format.
    pub open spec fn opcode(self) -> u8 {
        match self {
            Instruction::LoadString => 1,
            Instruction::LoadNum => 2,
            Instruction::LoadFloatNum => 3,
            Instruction::LoadLongNum => 4,
            Instruction::LoadArray => 5,
            Instruction::PropAccess => 10,
            Instruction::CallFunc => 11,
            Instruction::Eval => 12,
            Instruction::CallBytecodeFunc => 13,
            Instruction::ReturnBytecodeFunc => 14,
            Instruction::Copy => 15,
            Instruction::Exit => 16,
            Instruction::JumpCond => 17,
            Instruction::Jump => 18,
            Instruction::JumpCondNeg => 19,
            Instruction::LogicAnd => 30,
            Instruction::LogicOr => 31,
            Instruction::CompEqual => 50,
            Instruction::CompNotEqual => 51,
            Instruction::CompStrictEqual => 52,
            Instruction::CompStrictNotEqual => 53,
            Instruction::CompLessThan => 54,
            Instruction::CompGreaterThan => 55,
            Instruction::CompLessThanEqual => 56,
            Instruction::CompGreaterThanEqual => 57,
            Instruction::Add => 100,
            Instruction::Mul => 101,
            Instruction::Minus => 102,
            Instruction::Div => 103,
        }
    }

    /// The band that the instruction belongs to.
    pub open spec fn band(self) -> Band {
        match self {
            Instruction::LoadString
            | Instruction::LoadNum
            | Instruction::LoadFloatNum
            | Instruction::LoadLongNum
            | Instruction::LoadArray => Band::Load,
            Instruction::PropAccess
            | Instruction::CallFunc
            | Instruction::Eval
            | Instruction::CallBytecodeFunc
            | Instruction::ReturnBytecodeFunc
            | Instruction::Copy
            | Instruction::Exit
            | Instruction::JumpCond
            | Instruction::Jump
            | Instruction::JumpCondNeg => Band::Control,
            Instruction::LogicAnd | Instruction::LogicOr => Band::Logic,
            Instruction::CompEqual
            | Instruction::CompNotEqual
            | Instruction::CompStrictEqual
            | Instruction::CompStrictNotEqual
            | Instruction::CompLessThan
            | Instruction::CompGreaterThan
            | Instruction::CompLessThanEqual
            | Instruction::CompGreaterThanEqual => Band::Comparison,
            Instruction::Add | Instruction::Minus | Instruction::Mul | Instruction::Div => {
                Band::Arithmetic
            },
        }
    }

    /// Returns the opcode of the instruction.
    pub fn to_byte(&self) -> (byte: u8)
        ensures
            byte == self.opcode(),
    {
        match self {
            Instruction::LoadString => 1,
            Instruction::LoadNum => 2,
            Instruction::LoadFloatNum => 3,
            Instruction::LoadLongNum => 4,
            Instruction::LoadArray => 5,
            Instruction::PropAccess => 10,
            Instruction::CallFunc => 11,
            Instruction::Eval => 12,
            Instruction::CallBytecodeFunc => 13,
            Instruction::ReturnBytecodeFunc => 14,
            Instruction::Copy => 15,
            Instruction::Exit => 16,
            Instruction::JumpCond => 17,
            Instruction::Jump => 18,
            Instruction::JumpCondNeg => 19,
            Instruction::LogicAnd => 30,
            Instruction::LogicOr => 31,
            Instruction::CompEqual => 50,
            Instruction::CompNotEqual => 51,
            Instruction::CompStrictEqual => 52,
            Instruction::CompStrictNotEqual => 53,
            Instruction::CompLessThan => 54,
            Instruction::CompGreaterThan => 55,
            Instruction::CompLessThanEqual => 56,
            Instruction::CompGreaterThanEqual => 57,
            Instruction::Add => 100,
            Instruction::Mul => 101,
            Instruction::Minus => 102,
            Instruction::Div => 103,
        }
    }
}

/// No two instructions share an opcode: instructions with equal opcodes are
/// the same instruction.
pub proof fn lemma_opcode_injective(a: Instruction, b: Instruction)
    requires
        a.opcode() == b.opcode(),
    ensures
        a == b,
{
}

/// The opcode of every instruction lies in the band of its group, and is
/// never zero.
pub proof fn lemma_opcode_in_band(i: Instruction)
    ensures
        i.band().first() <= i.opcode() <= i.band().last(),
        i.opcode() != 0,
{
}

} // verus!
