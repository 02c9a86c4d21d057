//! Intermediate representation and binary encoding of bytecode for a
//! register-based virtual machine.
//!
//! A program is a [`Bytecode`]: commands and position labels in program
//! order. Every [`Command`] is an [`Instruction`] with its [`Operand`]s, and
//! the byte stream of a program is the concatenation of the encodings of its
//! commands. Each function states its result over the mathematical model of
//! its arguments, and the laws that relate the functions are proved beside
//! them.

pub mod command;
pub mod container;
pub mod encoding;
pub mod error;
pub mod instruction;
pub mod literal;
pub mod operand;
pub mod text;

pub use command::{Command, CommandView};
pub use container::{Bytecode, BytecodeElement, BytecodeElementView, BytecodeResult};
pub use encoding::ToBytes;
pub use error::{CompilerError, CompilerErrorView};
pub use instruction::{Band, Instruction};
pub use literal::{parse_short_num, Literal, LiteralView};
pub use operand::{
    BytecodeAddrToken, Label, LabelAddrToken, Operand, OperandView, Register, MAX_REGISTERS,
    MAX_STRING_BYTES,
};
